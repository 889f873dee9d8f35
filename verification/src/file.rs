//! One open buffer: a file's bytes, its display names, its cursor and its
//! vertical scroll position, plus the text of its hex view.

use vstd::prelude::*;

use crate::cursor::{
    cursor_in_bounds, left_pos, right_pos, up_pos, HexCursor,
};
use crate::hexfmt::{
    ascii_chars, ascii_str, hex_chars, hex_pairs, hex_pairs_str, hex_str, pad_chars_right,
    pad_right,
};
use crate::text::{string_from_chars, subvec};

verus! {

/// One row of the hex view: the row's offset label (eight or more
/// uppercase hex digits and a space), the byte pairs padded to the fixed
/// grid width, and the ASCII gutter.
pub struct HexLine {
    pub offset_text: String,
    pub hex_text: String,
    pub ascii_text: String,
}

/// An open buffer.
pub struct File {
    pub name: String,
    pub path: String,
    pub data: Vec<u8>,
    pub cursor: HexCursor,
    pub scroll_y: usize,
}

/// The characters after the last `/`; the whole path when there is no
/// segment there to extract.
pub open spec fn after_last_slash(p: Seq<char>) -> Seq<char>
    decreases p.len(),
{
    if p.len() == 0 {
        p
    } else if p.last() == '/' {
        Seq::<char>::empty()
    } else {
        after_last_slash(p.drop_last()).push(p.last())
    }
}

/// The display name of a path: its final segment, or the full path when no
/// segment can be extracted.
pub open spec fn display_name_spec(p: Seq<char>) -> Seq<char> {
    if after_last_slash(p).len() == 0 {
        p
    } else {
        after_last_slash(p)
    }
}

/// The display name of a path as characters.
pub fn display_name_chars(p: &Vec<char>) -> (r: Vec<char>)
    ensures
        r@ == display_name_spec(p@),
{
    let len = p.len();
    let mut i: usize = len;
    while i > 0 && p[i - 1] != '/'
        invariant
            i <= len,
            len == p@.len(),
            forall|j: int| i <= j < len ==> p@[j] != '/',
        decreases i,
    {
        i = i - 1;
    }
    if i == 0 {
        proof {
            lemma_no_slash_identity(p@);
        }
        subvec(p, 0, len)
    } else if i == len {
        proof {
            lemma_after_last_slash_cut(p@, i as int - 1);
        }
        assert(after_last_slash(p@) =~= p@.subrange(i as int, len as int));
        assert(after_last_slash(p@).len() == 0);
        subvec(p, 0, len)
    } else {
        proof {
            lemma_after_last_slash_cut(p@, i as int - 1);
        }
        assert(after_last_slash(p@) =~= p@.subrange(i as int, len as int));
        subvec(p, i, len)
    }
}

proof fn lemma_no_slash_identity(p: Seq<char>)
    requires
        forall|j: int| 0 <= j < p.len() ==> p[j] != '/',
    ensures
        after_last_slash(p) == p,
    decreases p.len(),
{
    if p.len() > 0 {
        lemma_no_slash_identity(p.drop_last());
        assert(after_last_slash(p) =~= p);
    }
}

proof fn lemma_after_last_slash_cut(p: Seq<char>, k: int)
    requires
        0 <= k < p.len(),
        p[k] == '/',
        forall|j: int| k < j < p.len() ==> p[j] != '/',
    ensures
        after_last_slash(p) == p.subrange(k + 1, p.len() as int),
    decreases p.len(),
{
    if k == p.len() - 1 {
        assert(after_last_slash(p) =~= p.subrange(k + 1, p.len() as int));
    } else {
        lemma_after_last_slash_cut(p.drop_last(), k);
        assert(after_last_slash(p) =~= p.subrange(k + 1, p.len() as int));
    }
}

/// Number of 16-byte rows the buffer fills (the last may be partial).
pub open spec fn total_rows(len: int) -> int {
    (len + 15) / 16
}

/// Row `r` holds at least one byte exactly when `r` is below the row
/// count.
proof fn lemma_row_has_bytes(r: int, len: int)
    requires
        0 <= r,
        0 <= len,
    ensures
        (r * 16 < len) <==> (r < total_rows(len)),
{
    vstd::arithmetic::div_mod::lemma_fundamental_div_mod(len + 15, 16);
}

/// How many rows the hex view shows for a buffer of `len` bytes scrolled
/// to `scroll_y`, in a viewport of `line_count` rows.
pub open spec fn view_row_count(len: int, scroll_y: int, line_count: int) -> int {
    let avail = total_rows(len) - scroll_y / 16;
    if avail <= 0 {
        0
    } else if avail < line_count {
        avail
    } else {
        line_count
    }
}

/// The text a hex view row must carry for row `row` of `data`.
pub open spec fn line_matches(l: HexLine, data: Seq<u8>, row: int) -> bool {
    let from = row * 16;
    let to = if from + 16 <= data.len() {
        from + 16
    } else {
        data.len() as int
    };
    &&& l.offset_text@ == hex_str((row * 16) as nat, 8) + seq![' ']
    &&& l.hex_text@ == pad_right(hex_pairs_str(data.subrange(from, to)), 47)
    &&& l.ascii_text@ == ascii_str(data.subrange(from, to))
}

impl File {
    /// Internal consistency: the buffer is addressable (its length leaves
    /// room for the cursor arithmetic), the scroll offset is a whole
    /// number of rows not far past the end, and the cursor sits on an
    /// existing byte (at the origin when the buffer is empty).
    pub open spec fn wf(&self) -> bool {
        &&& self.data@.len() + 16 <= usize::MAX
        &&& self.scroll_y % 16 == 0
        &&& self.scroll_y <= self.data@.len() + 16
        &&& cursor_in_bounds(self.cursor.pos_model(), self.data@.len() as int)
    }

    /// The rows of the hex view: up to `line_count` rows starting at the
    /// scroll offset, each with its offset label, hex pairs and ASCII
    /// gutter.
    pub fn hex_view(&self, line_count: usize) -> (r: Vec<HexLine>)
        requires
            self.wf(),
        ensures
            r@.len() == view_row_count(
                self.data@.len() as int,
                self.scroll_y as int,
                line_count as int,
            ),
            forall|j: int|
                0 <= j < r@.len() ==> line_matches(
                    #[trigger] r@[j],
                    self.data@,
                    self.scroll_y as int / 16 + j,
                ),
    {
        let len = self.data.len();
        let start_row: usize = self.scroll_y / 16;
        let mut rows: Vec<HexLine> = Vec::new();
        let mut r: usize = start_row;
        proof {
            vstd::arithmetic::div_mod::lemma_fundamental_div_mod(self.scroll_y as int, 16);
        }
        while r * 16 < len && rows.len() < line_count
            invariant
                self.wf(),
                len == self.data@.len(),
                start_row == self.scroll_y as int / 16,
                start_row <= r,
                r * 16 <= len + 16,
                rows@.len() == r - start_row,
                rows@.len() <= line_count,
                rows@.len() >= 1 ==> (r - 1) * 16 < len,
                forall|j: int|
                    0 <= j < rows@.len() ==> line_matches(
                        #[trigger] rows@[j],
                        self.data@,
                        start_row + j,
                    ),
            decreases line_count - rows@.len(),
        {
            let from: usize = r * 16;
            let to: usize = if from + 16 <= len {
                from + 16
            } else {
                len
            };
            let mut offset_chars = hex_chars(from, 8);
            offset_chars.push(' ');
            assert(offset_chars@ =~= hex_str((r * 16) as nat, 8) + seq![' ']);
            let offset_text = string_from_chars(&offset_chars);
            let hex_text = string_from_chars(
                &pad_chars_right(hex_pairs(&self.data, from, to), 47),
            );
            let ascii_text = string_from_chars(&ascii_chars(&self.data, from, to));
            rows.push(HexLine { offset_text, hex_text, ascii_text });
            r = r + 1;
        }
        proof {
            lemma_row_has_bytes(r as int, len as int);
            if r > start_row {
                lemma_row_has_bytes(r as int - 1, len as int);
            }
            let total = total_rows(len as int);
            let avail = total - start_row;
            if rows@.len() < line_count {
                assert(r * 16 >= len);
                assert(r >= total);
                if rows@.len() >= 1 {
                    assert(r - 1 < total);
                    assert(avail == rows@.len());
                } else {
                    assert(avail <= 0);
                }
            } else {
                if rows@.len() >= 1 {
                    assert(r - 1 < total);
                    assert(avail >= rows@.len());
                }
            }
        }
        rows
    }

    /// How one hex keystroke in Replace mode changes the byte under the
    /// cursor: an even nibble column replaces the upper four bits, an odd
    /// one the lower four.
    pub open spec fn replaced_byte(b: u8, digit: u8, upper: bool) -> u8 {
        if upper {
            (b & 0xF) | ((digit << 4) & 0xF0)
        } else {
            (b & 0xF0) | (digit & 0xF)
        }
    }

    /// Replaces one nibble of the byte under the cursor and steps the
    /// cursor right. On a cursor with no byte under it (only possible on
    /// an empty buffer) nothing happens at all: a replace never extends
    /// the buffer.
    pub fn replace_at_cursor(&mut self, digit: u8)
        requires
            old(self).wf(),
            digit < 16,
        ensures
            final(self).wf(),
            final(self).name == old(self).name,
            final(self).path == old(self).path,
            final(self).scroll_y == old(self).scroll_y,
            final(self).data@.len() == old(self).data@.len(),
            old(self).cursor.spec_loc() >= old(self).data@.len() ==> *final(self) == *old(self),
            old(self).cursor.spec_loc() < old(self).data@.len() ==> {
                let l = old(self).cursor.spec_loc();
                &&& final(self).data@ == old(self).data@.update(
                    l,
                    File::replaced_byte(
                        old(self).data@[l],
                        digit,
                        old(self).cursor.pos.0 % 2 == 0,
                    ),
                )
                &&& final(self).cursor.pos_model() == right_pos(
                    old(self).cursor.pos_model(),
                    old(self).data@.len() as int,
                )
            },
    {
        let byte_pos = self.cursor.loc();
        let len = self.data.len();
        if byte_pos >= len {
            return;
        }
        let b = self.data[byte_pos];
        let replaced: u8 = if self.cursor.pos.0 % 2 == 0 {
            (b & 0xF) | ((digit << 4) & 0xF0)
        } else {
            (b & 0xF0) | (digit & 0xF)
        };
        self.data.set(byte_pos, replaced);
        self.cursor.right(len);
        proof {
            crate::cursor::lemma_right_in_bounds(
                old(self).cursor.pos_model(),
                old(self).data@.len() as int,
            );
        }
    }

    /// Keeps the cursor's row inside the viewport: scrolls up to put it on
    /// the top row when it sits above, down to make it the last visible
    /// row when it sits below.
    pub fn update_scroll(&mut self, line_count: usize)
        requires
            old(self).wf(),
            1 <= line_count,
        ensures
            final(self).wf(),
            final(self).name == old(self).name,
            final(self).path == old(self).path,
            final(self).data == old(self).data,
            final(self).cursor == old(self).cursor,
            final(self).scroll_y as int == spec_update_scroll(
                old(self).scroll_y as int,
                old(self).cursor.pos.1 as int,
                line_count as int,
            ),
            final(self).scroll_y as int / 16 <= (old(self).cursor.pos.1 as int)
                < final(self).scroll_y as int / 16 + line_count,
    {
        let row = self.cursor.pos.1;
        proof {
            assert(row * 16 <= self.cursor.spec_loc());
        }
        if row * 16 < self.scroll_y {
            self.scroll_y = row * 16;
        }
        if row >= line_count && self.scroll_y / 16 <= row - line_count {
            self.scroll_y = (row + 1 - line_count) * 16;
        }
        proof {
            vstd::arithmetic::div_mod::lemma_fundamental_div_mod(old(self).scroll_y as int, 16);
        }
    }
}

/// The two-sided keep-in-viewport policy, applied in order: first pull the
/// window up to the cursor's row, then push it down so the row is the last
/// visible one.
pub open spec fn spec_update_scroll(scroll_y: int, row: int, line_count: int) -> int {
    let pulled = if row * 16 < scroll_y {
        row * 16
    } else {
        scroll_y
    };
    if pulled / 16 + line_count <= row {
        (row + 1 - line_count) * 16
    } else {
        pulled
    }
}

} // verus!
