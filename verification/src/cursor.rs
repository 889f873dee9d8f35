//! Nibble-precision cursor over a flat byte buffer.
//!
//! A position is a pair `(nibble_x, row)`: 32 nibble columns (16 bytes, two
//! hex digits each) per row. The linear byte offset of a position is
//! `nibble_x / 2 + row * 16`. Every motion clamps against the owning
//! buffer's byte length, so a cursor that starts on an existing byte can
//! never be driven past the last byte.

use vstd::prelude::*;

verus! {

/// Linear byte offset of a nibble position.
pub open spec fn nib_loc(p: (int, int)) -> int {
    p.0 / 2 + p.1 * 16
}

/// A position addresses an existing byte of a buffer of `filesize` bytes;
/// on an empty buffer only the origin is allowed.
pub open spec fn cursor_in_bounds(p: (int, int), filesize: int) -> bool {
    &&& 0 <= p.0 < 32
    &&& 0 <= p.1
    &&& if filesize == 0 {
        p == (0int, 0int)
    } else {
        nib_loc(p) < filesize
    }
}

/// One row towards the start; at the top row the cursor returns to the
/// origin, which also pins the column there.
pub open spec fn up_pos(p: (int, int)) -> (int, int) {
    if p.1 <= 0 {
        (0int, 0int)
    } else {
        (p.0, p.1 - 1)
    }
}

/// One nibble towards the start, wrapping from column 0 to the last column
/// of the row above.
pub open spec fn left_pos(p: (int, int)) -> (int, int) {
    if p.0 == 0 {
        up_pos((31int, p.1))
    } else {
        (p.0 - 1, p.1)
    }
}

/// One row towards the end. A step whose offset would reach or pass the
/// one-past-end offset instead lands on the last nibble of the last byte.
pub open spec fn down_pos(p: (int, int), filesize: int) -> (int, int) {
    let q = (p.0, p.1 + 1);
    if nib_loc(q) >= filesize {
        left_pos(((filesize % 16) * 2, filesize / 16))
    } else {
        q
    }
}

/// One nibble towards the end; a no-op on the last nibble of the last byte,
/// otherwise wrapping from column 31 to column 0 of the row below.
pub open spec fn right_pos(p: (int, int), filesize: int) -> (int, int) {
    if (p.0 + 1) / 2 + p.1 * 16 == filesize {
        p
    } else if p.0 == 31 {
        down_pos((0int, p.1), filesize)
    } else {
        (p.0 + 1, p.1)
    }
}

/// The position that addresses linear offset `loc`.
pub open spec fn goto_pos(loc: int) -> (int, int) {
    ((loc % 16) * 2, loc / 16)
}

/// Offset after a forward word jump: the next multiple of 4, clamped to the
/// last byte.
pub open spec fn next_word_loc(loc: int, filesize: int) -> int {
    let rounded = ((loc + 4) / 4) * 4;
    if rounded < filesize - 1 {
        rounded
    } else {
        filesize - 1
    }
}

/// Offset after a backward word jump: the previous multiple of 4 if the
/// offset is word-aligned (stopping at 0), otherwise the offset rounded
/// down to a multiple of 4.
pub open spec fn prev_word_loc(loc: int) -> int {
    if loc % 4 == 0 {
        if loc >= 4 {
            loc - 4
        } else {
            0
        }
    } else {
        loc - loc % 4
    }
}

/// Cursor over the hex grid: `pos` is `(nibble_x, row)`.
pub struct HexCursor {
    pub pos: (usize, usize),
}

impl HexCursor {
    /// The position as a pair of mathematical integers.
    pub open spec fn pos_model(&self) -> (int, int) {
        (self.pos.0 as int, self.pos.1 as int)
    }

    /// Linear byte offset of the cursor.
    pub open spec fn spec_loc(&self) -> int {
        nib_loc(self.pos_model())
    }

    pub fn new(pos: (usize, usize)) -> (c: HexCursor)
        ensures
            c.pos == pos,
    {
        HexCursor { pos }
    }

    pub fn up(&mut self)
        ensures
            final(self).pos_model() == up_pos(old(self).pos_model()),
    {
        if self.pos.1 == 0 {
            self.pos = (0, 0);
        } else {
            self.pos.1 = self.pos.1 - 1;
        }
    }

    pub fn down(&mut self, filesize: usize)
        requires
            old(self).spec_loc() <= filesize,
            filesize + 16 <= usize::MAX,
        ensures
            final(self).pos_model() == down_pos(old(self).pos_model(), filesize as int),
    {
        self.pos.1 = self.pos.1 + 1;
        if self.pos.1 * 0x10 + self.pos.0 / 2 >= filesize {
            self.pos = ((filesize % 0x10) * 2, filesize / 0x10);
            self.left();
        }
    }

    pub fn left(&mut self)
        ensures
            final(self).pos_model() == left_pos(old(self).pos_model()),
    {
        if self.pos.0 == 0 {
            self.pos.0 = 0x1F;
            self.up();
        } else {
            self.pos.0 = self.pos.0 - 1;
        }
    }

    pub fn right(&mut self, filesize: usize)
        requires
            old(self).pos.0 < 32,
            old(self).spec_loc() <= filesize,
            filesize + 16 <= usize::MAX,
        ensures
            final(self).pos_model() == right_pos(old(self).pos_model(), filesize as int),
    {
        let next_half: usize = self.pos.0 / 2 + self.pos.0 % 2;
        assert(next_half == (self.pos.0 + 1) / 2);
        if next_half + self.pos.1 * 0x10 == filesize {
            return;
        }
        if self.pos.0 == 0x1F {
            self.pos.0 = 0;
            self.down(filesize);
        } else {
            self.pos.0 = self.pos.0 + 1;
        }
    }

    pub fn next_word(&mut self, filesize: usize)
        requires
            old(self).spec_loc() <= filesize,
            1 <= filesize,
            filesize + 16 <= usize::MAX,
        ensures
            final(self).pos_model() == goto_pos(
                next_word_loc(old(self).spec_loc(), filesize as int),
            ),
    {
        let l = self.loc();
        let rounded: usize = ((l + 4) / 4) * 4;
        let target: usize = if rounded < filesize - 1 {
            rounded
        } else {
            filesize - 1
        };
        self.goto(target);
    }

    pub fn prev_word(&mut self)
        requires
            old(self).spec_loc() <= usize::MAX,
        ensures
            final(self).pos_model() == goto_pos(prev_word_loc(old(self).spec_loc())),
    {
        let l = self.loc();
        let target: usize = if l % 4 == 0 {
            if l >= 4 {
                l - 4
            } else {
                0
            }
        } else {
            l - l % 4
        };
        self.goto(target);
    }

    pub fn goto(&mut self, loc: usize)
        ensures
            final(self).pos_model() == goto_pos(loc as int),
    {
        self.pos = ((loc % 0x10) * 2, loc / 0x10);
    }

    pub fn loc(&self) -> (l: usize)
        requires
            self.spec_loc() <= usize::MAX,
        ensures
            l == self.spec_loc(),
    {
        self.pos.0 / 2 + self.pos.1 * 0x10
    }
}

/// Addressing round trip: jumping to any offset lands on a position whose
/// linear offset is that same offset.
pub proof fn lemma_goto_roundtrip(loc: int)
    requires
        0 <= loc,
    ensures
        nib_loc(goto_pos(loc)) == loc,
{
    assert(((loc % 16) * 2) / 2 == loc % 16);
    assert(loc % 16 + (loc / 16) * 16 == loc) by {
        vstd::arithmetic::div_mod::lemma_fundamental_div_mod(loc, 16);
    }
}

/// An upward step keeps the cursor on an existing byte.
pub proof fn lemma_up_in_bounds(p: (int, int), filesize: int)
    requires
        0 <= filesize,
        cursor_in_bounds(p, filesize),
    ensures
        cursor_in_bounds(up_pos(p), filesize),
{
}

/// A leftward step keeps the cursor on an existing byte.
pub proof fn lemma_left_in_bounds(p: (int, int), filesize: int)
    requires
        0 <= filesize,
        cursor_in_bounds(p, filesize),
    ensures
        cursor_in_bounds(left_pos(p), filesize),
{
}

/// A downward step keeps the cursor on an existing byte: the clamp lands
/// exactly on the last byte's last nibble.
pub proof fn lemma_down_in_bounds(p: (int, int), filesize: int)
    requires
        0 <= filesize,
        cursor_in_bounds(p, filesize),
    ensures
        cursor_in_bounds(down_pos(p, filesize), filesize),
{
    let q = (p.0, p.1 + 1);
    if nib_loc(q) >= filesize {
        vstd::arithmetic::div_mod::lemma_fundamental_div_mod(filesize, 16);
        let c = ((filesize % 16) * 2, filesize / 16);
        if filesize == 0 {
            assert(left_pos(c) == (0int, 0int));
        } else if filesize % 16 == 0 {
            assert(c.0 == 0);
            assert(filesize / 16 >= 1);
            assert(nib_loc(left_pos(c)) == filesize - 1);
        } else {
            let m = filesize % 16;
            assert(c.0 == 2 * m && m >= 1);
            assert((2 * m - 1) / 2 == m - 1);
            assert(nib_loc(left_pos(c)) == filesize - 1);
        }
    }
}

/// A rightward step keeps the cursor on an existing byte: at the last
/// nibble of the last byte it does not move at all.
pub proof fn lemma_right_in_bounds(p: (int, int), filesize: int)
    requires
        0 <= filesize,
        cursor_in_bounds(p, filesize),
    ensures
        cursor_in_bounds(right_pos(p, filesize), filesize),
{
    if (p.0 + 1) / 2 + p.1 * 16 == filesize {
    } else if p.0 == 31 {
        lemma_down_in_bounds((0int, p.1), filesize);
        assert(nib_loc((0int, p.1 + 1)) == 16 * p.1 + 16);
        assert((31int + 1) / 2 + p.1 * 16 == 16 * p.1 + 16);
    } else {
        assert(nib_loc((p.0 + 1, p.1)) == (p.0 + 1) / 2 + p.1 * 16);
    }
}

/// A motion issued by the navigation keys that moves towards the end of
/// the buffer.
pub enum CursorMotion {
    Down,
    Right,
}

/// The position after one forward motion.
pub open spec fn motion_step(p: (int, int), m: CursorMotion, filesize: int) -> (int, int) {
    match m {
        CursorMotion::Down => down_pos(p, filesize),
        CursorMotion::Right => right_pos(p, filesize),
    }
}

/// The position after a sequence of forward motions.
pub open spec fn apply_motions(p: (int, int), ms: Seq<CursorMotion>, filesize: int) -> (int, int)
    decreases ms.len(),
{
    if ms.len() == 0 {
        p
    } else {
        apply_motions(motion_step(p, ms[0], filesize), ms.drop_first(), filesize)
    }
}

/// Cursor clamping: on a buffer of `filesize` bytes, any sequence of
/// `down`/`right` motions from a position on an existing byte stays on an
/// existing byte, so its offset never exceeds `filesize - 1` (or 0 on an
/// empty buffer) and the one-past-end offset is unreachable.
pub proof fn lemma_motions_clamped(p: (int, int), ms: Seq<CursorMotion>, filesize: int)
    requires
        0 <= filesize,
        cursor_in_bounds(p, filesize),
    ensures
        cursor_in_bounds(apply_motions(p, ms, filesize), filesize),
        nib_loc(apply_motions(p, ms, filesize)) <= if filesize == 0 {
            0int
        } else {
            filesize - 1
        },
    decreases ms.len(),
{
    if ms.len() == 0 {
    } else {
        match ms[0] {
            CursorMotion::Down => lemma_down_in_bounds(p, filesize),
            CursorMotion::Right => lemma_right_in_bounds(p, filesize),
        }
        lemma_motions_clamped(motion_step(p, ms[0], filesize), ms.drop_first(), filesize);
    }
}

/// Word jump clamp: a forward word jump from the last word-aligned offset
/// of the buffer lands exactly on the last byte instead of passing the end.
pub proof fn lemma_next_word_clamps(loc: int, filesize: int)
    requires
        0 <= loc,
        1 <= filesize,
        loc % 4 == 0,
        loc + 4 >= filesize,
    ensures
        next_word_loc(loc, filesize) == filesize - 1,
{
    assert(((loc + 4) / 4) * 4 == loc + 4) by {
        vstd::arithmetic::div_mod::lemma_fundamental_div_mod(loc + 4, 4);
        assert((loc + 4) % 4 == 0);
    }
}

/// Wrap symmetry: from column 0 of any row below the first, stepping left
/// and then right returns the cursor to where it started. (At the origin
/// the pair does not cancel: a left step is pinned there, so the right
/// step advances by one nibble.)
pub proof fn lemma_wrap_symmetry(p: (int, int), filesize: int)
    requires
        cursor_in_bounds(p, filesize),
        p.0 == 0,
        p.1 >= 1,
    ensures
        right_pos(left_pos(p), filesize) == p,
{
    let q = left_pos(p);
    assert(q == (31int, p.1 - 1));
    assert(nib_loc(p) == 16 * p.1);
    assert((q.0 + 1) / 2 + q.1 * 16 == 16 * p.1);
}

} // verus!
