//! Type inspector: decodes the bytes at the cursor as fixed-width
//! primitives.
//!
//! Widths appear by how many bytes remain from the cursor to the end of
//! the buffer: 8-bit always (when a byte exists at all), 16-bit from 2
//! bytes, 32-bit from 4, 64-bit from 8. Multi-byte fields follow the
//! session's byte order. Float rows show the same bytes reinterpreted, so
//! their bit patterns are exactly the 32- and 64-bit unsigned fields.

use vstd::prelude::*;

verus! {

/// 256 to the power `n` (1 for `n <= 0`).
pub open spec fn pow256(n: int) -> int
    decreases n,
{
    if n <= 0 {
        1
    } else {
        256 * pow256(n - 1)
    }
}

/// The unsigned value of `s` read least-significant byte first.
pub open spec fn le_val(s: Seq<u8>) -> int
    decreases s.len(),
{
    if s.len() == 0 {
        0
    } else {
        s[0] + 256 * le_val(s.drop_first())
    }
}

/// The unsigned value of `s` read most-significant byte first.
pub open spec fn be_val(s: Seq<u8>) -> int
    decreases s.len(),
{
    if s.len() == 0 {
        0
    } else {
        be_val(s.drop_last()) * 256 + s.last()
    }
}

/// The unsigned value of `s` in the session's byte order.
pub open spec fn field_val(s: Seq<u8>, big_endian: bool) -> int {
    if big_endian {
        be_val(s)
    } else {
        le_val(s)
    }
}

/// Two's-complement reinterpretation of an unsigned value modulo `m`.
pub open spec fn as_signed(u: int, m: int) -> int {
    if 2 * u < m {
        u
    } else {
        u - m
    }
}

pub proof fn lemma_be_val_bound(s: Seq<u8>)
    ensures
        0 <= be_val(s) < pow256(s.len() as int),
    decreases s.len(),
{
    if s.len() > 0 {
        lemma_be_val_bound(s.drop_last());
    }
}

pub proof fn lemma_le_val_bound(s: Seq<u8>)
    ensures
        0 <= le_val(s) < pow256(s.len() as int),
    decreases s.len(),
{
    if s.len() > 0 {
        lemma_le_val_bound(s.drop_first());
    }
}

/// Reads `n` bytes at `loc` most-significant first.
fn decode_be(data: &Vec<u8>, loc: usize, n: usize) -> (r: u64)
    requires
        loc + n <= data@.len(),
        n <= 8,
    ensures
        r as int == be_val(data@.subrange(loc as int, loc as int + n as int)),
{
    let total = data.len();
    let mut acc: u64 = 0;
    let mut i: usize = 0;
    while i < n
        invariant
            i <= n,
            n <= 8,
            loc + n <= total == data@.len(),
            acc as int == be_val(data@.subrange(loc as int, loc as int + i as int)),
            (acc as int) < pow256(i as int),
        decreases n - i,
    {
        let ghost pre = data@.subrange(loc as int, loc as int + i as int);
        let ghost ext = data@.subrange(loc as int, loc as int + i as int + 1);
        assert(ext.drop_last() =~= pre);
        proof {
            lemma_pow256_values();
            lemma_pow256_le(i as int, 7);
            assert(pow256(8int) == 256 * pow256(7int));
        }
        acc = acc * 256 + (data[loc + i] as u64);
        i = i + 1;
    }
    acc
}

/// Reads `n` bytes at `loc` least-significant first.
fn decode_le(data: &Vec<u8>, loc: usize, n: usize) -> (r: u64)
    requires
        loc + n <= data@.len(),
        n <= 8,
    ensures
        r as int == le_val(data@.subrange(loc as int, loc as int + n as int)),
{
    let total = data.len();
    let mut acc: u64 = 0;
    let mut i: usize = n;
    while i > 0
        invariant
            i <= n,
            n <= 8,
            loc + n <= total == data@.len(),
            acc as int == le_val(data@.subrange(loc as int + i as int, loc as int + n as int)),
            (acc as int) < pow256(n as int - i as int),
        decreases i,
    {
        let ghost suf = data@.subrange(loc as int + i as int, loc as int + n as int);
        let ghost ext = data@.subrange(loc as int + i as int - 1, loc as int + n as int);
        assert(ext.drop_first() =~= suf);
        proof {
            lemma_pow256_values();
            lemma_pow256_le((n - i) as int, 7);
            assert(pow256(8int) == 256 * pow256(7int));
        }
        acc = acc * 256 + (data[loc + i - 1] as u64);
        i = i - 1;
    }
    acc
}

proof fn lemma_pow256_values()
    ensures
        pow256(2int) == 0x1_0000,
        pow256(4int) == 0x1_0000_0000,
        pow256(7int) == 0x100_0000_0000_0000,
        pow256(8int) == 0x1_0000_0000_0000_0000,
{
    assert(pow256(0int) == 1);
    assert(pow256(1int) == 256 * pow256(0int));
    assert(pow256(2int) == 256 * pow256(1int));
    assert(pow256(3int) == 256 * pow256(2int));
    assert(pow256(4int) == 256 * pow256(3int));
    assert(pow256(5int) == 256 * pow256(4int));
    assert(pow256(6int) == 256 * pow256(5int));
    assert(pow256(7int) == 256 * pow256(6int));
    assert(pow256(8int) == 256 * pow256(7int));
}

proof fn lemma_pow256_le(a: int, b: int)
    requires
        a <= b,
    ensures
        pow256(a) <= pow256(b),
    decreases b - a,
{
    if a < b {
        lemma_pow256_le(a, b - 1);
        if b > 0 {
            assert(pow256(b) == 256 * pow256(b - 1));
            lemma_pow256_pos(b - 1);
        }
    }
}

proof fn lemma_pow256_pos(n: int)
    ensures
        pow256(n) >= 1,
    decreases n,
{
    if n > 0 {
        lemma_pow256_pos(n - 1);
    }
}

/// The decoded primitive interpretations of the bytes at one offset.
/// Fields of widths the remaining bytes cannot fill are `None`. The bit
/// patterns of the 32- and 64-bit float rows are `uword` and `udword`.
pub struct Inspection {
    pub ubyte: u8,
    pub sbyte: i8,
    pub ushort: Option<u16>,
    pub sshort: Option<i16>,
    pub uword: Option<u32>,
    pub sword: Option<i32>,
    pub udword: Option<u64>,
    pub sdword: Option<i64>,
}

/// Decodes the buffer at `loc`: `None` exactly when no byte exists there,
/// otherwise each width that fits, in the requested byte order.
pub fn inspect(data: &Vec<u8>, loc: usize, big_endian: bool) -> (r: Option<Inspection>)
    ensures
        r is Some <==> loc < data@.len(),
        r matches Some(ins) ==> {
            let n = data@.len() as int;
            let l = loc as int;
            &&& ins.ubyte == data@[l]
            &&& ins.sbyte as int == as_signed(data@[l] as int, 0x100)
            &&& (ins.ushort is Some <==> n - l >= 2)
            &&& (ins.sshort is Some <==> n - l >= 2)
            &&& (ins.uword is Some <==> n - l >= 4)
            &&& (ins.sword is Some <==> n - l >= 4)
            &&& (ins.udword is Some <==> n - l >= 8)
            &&& (ins.sdword is Some <==> n - l >= 8)
            &&& (ins.ushort matches Some(u) ==> u as int == field_val(
                data@.subrange(l, l + 2),
                big_endian,
            ))
            &&& (ins.sshort matches Some(s) ==> s as int == as_signed(
                field_val(data@.subrange(l, l + 2), big_endian),
                0x1_0000,
            ))
            &&& (ins.uword matches Some(u) ==> u as int == field_val(
                data@.subrange(l, l + 4),
                big_endian,
            ))
            &&& (ins.sword matches Some(s) ==> s as int == as_signed(
                field_val(data@.subrange(l, l + 4), big_endian),
                0x1_0000_0000,
            ))
            &&& (ins.udword matches Some(u) ==> u as int == field_val(
                data@.subrange(l, l + 8),
                big_endian,
            ))
            &&& (ins.sdword matches Some(s) ==> s as int == as_signed(
                field_val(data@.subrange(l, l + 8), big_endian),
                0x1_0000_0000_0000_0000,
            ))
        },
{
    if loc >= data.len() {
        return None;
    }
    let ubyte = data[loc];
    let sbyte: i8 = if ubyte < 0x80 {
        ubyte as i8
    } else {
        ((ubyte as i16) - 0x100) as i8
    };
    let remaining = data.len() - loc;
    let mut ins = Inspection {
        ubyte,
        sbyte,
        ushort: None,
        sshort: None,
        uword: None,
        sword: None,
        udword: None,
        sdword: None,
    };
    if remaining >= 2 {
        let u = decode_field(data, loc, 2, big_endian);
        proof {
            field_val_bound(data@.subrange(loc as int, loc as int + 2), big_endian);
            lemma_pow256_values();
        }
        let u16v = u as u16;
        ins.ushort = Some(u16v);
        ins.sshort = Some(
            if u16v < 0x8000 {
                u16v as i16
            } else {
                ((u16v as i32) - 0x1_0000) as i16
            },
        );
    }
    if remaining >= 4 {
        let u = decode_field(data, loc, 4, big_endian);
        proof {
            field_val_bound(data@.subrange(loc as int, loc as int + 4), big_endian);
            lemma_pow256_values();
        }
        let u32v = u as u32;
        ins.uword = Some(u32v);
        ins.sword = Some(
            if u32v < 0x8000_0000 {
                u32v as i32
            } else {
                ((u32v as i64) - 0x1_0000_0000) as i32
            },
        );
    }
    if remaining >= 8 {
        let u = decode_field(data, loc, 8, big_endian);
        proof {
            field_val_bound(data@.subrange(loc as int, loc as int + 8), big_endian);
            lemma_pow256_values();
        }
        ins.udword = Some(u);
        ins.sdword = Some(
            if u < 0x8000_0000_0000_0000 {
                u as i64
            } else {
                ((u as i128) - 0x1_0000_0000_0000_0000) as i64
            },
        );
    }
    Some(ins)
}

/// Reads `n` bytes at `loc` in the requested byte order.
fn decode_field(data: &Vec<u8>, loc: usize, n: usize, big_endian: bool) -> (r: u64)
    requires
        loc + n <= data@.len(),
        n <= 8,
    ensures
        r as int == field_val(data@.subrange(loc as int, loc as int + n as int), big_endian),
{
    if big_endian {
        decode_be(data, loc, n)
    } else {
        decode_le(data, loc, n)
    }
}

proof fn field_val_bound(s: Seq<u8>, big_endian: bool)
    ensures
        0 <= field_val(s, big_endian) < pow256(s.len() as int),
{
    if big_endian {
        lemma_be_val_bound(s);
    } else {
        lemma_le_val_bound(s);
    }
}

} // verus!
