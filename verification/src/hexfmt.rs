//! Text of the hex grid: uppercase hex numbers, zero padding, byte pair
//! rows and the ASCII gutter.

use vstd::prelude::*;

verus! {

/// The uppercase hex digit character for a value below 16.
pub open spec fn hex_digit_char(d: int) -> char {
    if d == 0 {
        '0'
    } else if d == 1 {
        '1'
    } else if d == 2 {
        '2'
    } else if d == 3 {
        '3'
    } else if d == 4 {
        '4'
    } else if d == 5 {
        '5'
    } else if d == 6 {
        '6'
    } else if d == 7 {
        '7'
    } else if d == 8 {
        '8'
    } else if d == 9 {
        '9'
    } else if d == 10 {
        'A'
    } else if d == 11 {
        'B'
    } else if d == 12 {
        'C'
    } else if d == 13 {
        'D'
    } else if d == 14 {
        'E'
    } else {
        'F'
    }
}

pub fn hex_digit(d: u8) -> (c: char)
    requires
        d < 16,
    ensures
        c == hex_digit_char(d as int),
{
    if d == 0 {
        '0'
    } else if d == 1 {
        '1'
    } else if d == 2 {
        '2'
    } else if d == 3 {
        '3'
    } else if d == 4 {
        '4'
    } else if d == 5 {
        '5'
    } else if d == 6 {
        '6'
    } else if d == 7 {
        '7'
    } else if d == 8 {
        '8'
    } else if d == 9 {
        '9'
    } else if d == 10 {
        'A'
    } else if d == 11 {
        'B'
    } else if d == 12 {
        'C'
    } else if d == 13 {
        'D'
    } else if d == 14 {
        'E'
    } else {
        'F'
    }
}

/// `n` in uppercase hex, zero-padded on the left to at least `width`
/// digits (the shape `{:0width$X}` prints).
pub open spec fn hex_str(n: nat, width: nat) -> Seq<char>
    decreases n, width,
{
    if n < 16 && width <= 1 {
        seq![hex_digit_char(n as int)]
    } else {
        hex_str((n / 16) as nat, if width == 0 {
            0nat
        } else {
            (width - 1) as nat
        }) + seq![hex_digit_char((n % 16) as int)]
    }
}

pub fn hex_chars(n: usize, width: usize) -> (r: Vec<char>)
    ensures
        r@ == hex_str(n as nat, width as nat),
    decreases n, width,
{
    if n < 16 && width <= 1 {
        let mut r: Vec<char> = Vec::new();
        r.push(hex_digit(n as u8));
        assert(r@ =~= seq![hex_digit_char(n as int)]);
        r
    } else {
        let mut r = hex_chars(n / 16, if width == 0 {
            0
        } else {
            width - 1
        });
        r.push(hex_digit((n % 16) as u8));
        assert(r@ =~= hex_str((n as nat / 16) as nat, if width == 0 {
            0nat
        } else {
            (width - 1) as nat
        }) + seq![hex_digit_char((n as nat % 16) as int)]);
        r
    }
}

/// `n` space characters.
pub open spec fn spaces(n: int) -> Seq<char> {
    Seq::new(if n < 0 {
        0nat
    } else {
        n as nat
    }, |i: int| ' ')
}

/// `s` padded on the right with spaces to at least `w` characters (the
/// shape `{:<w$}` prints).
pub open spec fn pad_right(s: Seq<char>, w: int) -> Seq<char> {
    if s.len() >= w {
        s
    } else {
        s + spaces(w - s.len())
    }
}

pub fn pad_chars_right(v: Vec<char>, w: usize) -> (r: Vec<char>)
    ensures
        r@ == pad_right(v@, w as int),
{
    let mut r = v;
    let ghost orig = r@;
    while r.len() < w
        invariant
            if orig.len() >= w {
                r@ == orig
            } else {
                orig.len() <= r@.len() <= w && r@ == orig + spaces(r@.len() - orig.len())
            },
        decreases w - r@.len(),
    {
        r.push(' ');
        assert(r@ =~= orig + spaces(r@.len() - orig.len()));
    }
    assert(r@ =~= pad_right(orig, w as int));
    r
}

/// The hex byte pairs of `s`, two uppercase digits per byte, separated by
/// single spaces.
pub open spec fn hex_pairs_str(s: Seq<u8>) -> Seq<char>
    decreases s.len(),
{
    if s.len() == 0 {
        Seq::<char>::empty()
    } else if s.len() == 1 {
        hex_str(s[0] as nat, 2)
    } else {
        hex_pairs_str(s.drop_last()) + seq![' '] + hex_str(s.last() as nat, 2)
    }
}

pub fn hex_pairs(data: &Vec<u8>, from: usize, to: usize) -> (r: Vec<char>)
    requires
        from <= to <= data@.len(),
    ensures
        r@ == hex_pairs_str(data@.subrange(from as int, to as int)),
{
    let mut r: Vec<char> = Vec::new();
    let mut i: usize = from;
    assert(r@ =~= hex_pairs_str(data@.subrange(from as int, from as int)));
    while i < to
        invariant
            from <= i <= to <= data@.len(),
            r@ == hex_pairs_str(data@.subrange(from as int, i as int)),
        decreases to - i,
    {
        let ghost pre = data@.subrange(from as int, i as int);
        let ghost ext = data@.subrange(from as int, i as int + 1);
        assert(ext.drop_last() =~= pre);
        assert(ext.last() == data@[i as int]);
        if i > from {
            r.push(' ');
        }
        let mut pair = hex_chars(data[i] as usize, 2);
        let b = data[i];
        assert(pair@ == hex_str(b as nat, 2));
        r.append(&mut pair);
        proof {
            if i == from {
                assert(ext.len() == 1 && ext[0] == b);
                assert(r@ =~= hex_pairs_str(ext));
            } else {
                assert(r@ =~= hex_pairs_str(pre) + seq![' '] + hex_str(b as nat, 2));
            }
        }
        i = i + 1;
    }
    r
}

/// How one byte shows in the ASCII gutter: control bytes (`0x00`–`0x1F`
/// and `0x7F`) and the `0x80`–`0xA0` range show as `.`, anything else as
/// its own character.
pub open spec fn ascii_char(b: u8) -> char {
    if b <= 0x1F || b == 0x7F || (0x80 <= b && b <= 0xA0) {
        '.'
    } else {
        b as char
    }
}

/// The ASCII gutter text for `s`.
pub open spec fn ascii_str(s: Seq<u8>) -> Seq<char> {
    Seq::new(s.len(), |i: int| ascii_char(s[i]))
}

pub fn ascii_chars(data: &Vec<u8>, from: usize, to: usize) -> (r: Vec<char>)
    requires
        from <= to <= data@.len(),
    ensures
        r@ == ascii_str(data@.subrange(from as int, to as int)),
{
    let mut r: Vec<char> = Vec::new();
    let mut i: usize = from;
    while i < to
        invariant
            from <= i <= to <= data@.len(),
            r@ == ascii_str(data@.subrange(from as int, i as int)),
        decreases to - i,
    {
        let b = data[i];
        let c: char = if b <= 0x1F || b == 0x7F || (0x80 <= b && b <= 0xA0) {
            '.'
        } else {
            b as char
        };
        r.push(c);
        assert(r@ =~= ascii_str(data@.subrange(from as int, i as int + 1)));
        i = i + 1;
    }
    r
}

} // verus!
