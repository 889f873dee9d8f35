//! Numeric parsing for the command interpreter.
//!
//! `:0x<hex>` carries a signed 64-bit offset and `:b<digits>` a 1-based
//! decimal tab number. Both grammars follow the standard library's integer
//! parsing: an optional sign (only `+` for the unsigned form), then one or
//! more digits of the radix; any other character, an empty digit string, or
//! a value outside the target range makes the whole parse fail.

use vstd::prelude::*;

verus! {

/// `c` is a digit of base `radix` (10 or 16; 16 accepts both letter cases).
pub open spec fn is_digit_radix(c: char, radix: int) -> bool {
    let u = c as u32 as int;
    (48 <= u && u <= 57) || (radix == 16 && ((97 <= u && u <= 102) || (65 <= u && u <= 70)))
}

/// The numeric value of a digit; 0 on anything that is not a digit.
pub open spec fn digit_val_radix(c: char, radix: int) -> int {
    let u = c as u32 as int;
    if 48 <= u && u <= 57 {
        u - 48
    } else if radix == 16 && 97 <= u && u <= 102 {
        u - 87
    } else if radix == 16 && 65 <= u && u <= 70 {
        u - 55
    } else {
        0
    }
}

/// Every character of `s` is a digit of base `radix`.
pub open spec fn all_digits_radix(s: Seq<char>, radix: int) -> bool {
    forall|i: int| 0 <= i < s.len() ==> is_digit_radix(s[i], radix)
}

/// The magnitude that the digit string `s` denotes in base `radix`.
pub open spec fn mag_radix(s: Seq<char>, radix: int) -> int
    decreases s.len(),
{
    if s.len() == 0 {
        0
    } else {
        mag_radix(s.drop_last(), radix) * radix + digit_val_radix(s.last(), radix)
    }
}

pub proof fn lemma_mag_nonneg(s: Seq<char>, radix: int)
    requires
        1 <= radix,
    ensures
        mag_radix(s, radix) >= 0,
    decreases s.len(),
{
    if s.len() > 0 {
        lemma_mag_nonneg(s.drop_last(), radix);
        assert(mag_radix(s.drop_last(), radix) * radix >= 0) by (nonlinear_arith)
            requires
                mag_radix(s.drop_last(), radix) >= 0,
                radix >= 1,
        ;
    }
}

/// A digit string denotes at least as much as any of its prefixes.
pub proof fn lemma_mag_prefix_le(s: Seq<char>, radix: int, i: int)
    requires
        1 <= radix,
        0 <= i <= s.len(),
    ensures
        mag_radix(s.subrange(0, i), radix) <= mag_radix(s, radix),
    decreases s.len() - i,
{
    if i == s.len() {
        assert(s.subrange(0, i) =~= s);
    } else {
        let p = s.subrange(0, i);
        let q = s.subrange(0, i + 1);
        assert(q.drop_last() =~= p);
        lemma_mag_nonneg(p, radix);
        assert(mag_radix(p, radix) * radix >= mag_radix(p, radix)) by (nonlinear_arith)
            requires
                mag_radix(p, radix) >= 0,
                radix >= 1,
        ;
        assert(digit_val_radix(q.last(), radix) >= 0);
        lemma_mag_prefix_le(s, radix, i + 1);
    }
}

/// The value of one digit character, or `None` if it is not a digit of the
/// base.
pub fn digit_value(c: char, radix: u64) -> (r: Option<u8>)
    requires
        radix == 10 || radix == 16,
    ensures
        r is Some <==> is_digit_radix(c, radix as int),
        r is Some ==> r->0 == digit_val_radix(c, radix as int),
{
    let u = c as u32;
    if 48 <= u && u <= 57 {
        Some((u - 48) as u8)
    } else if radix == 16 && 97 <= u && u <= 102 {
        Some((u - 87) as u8)
    } else if radix == 16 && 65 <= u && u <= 70 {
        Some((u - 55) as u8)
    } else {
        None
    }
}

/// Parses a bare digit string in base `radix`; succeeds exactly on a
/// non-empty all-digit string whose value is at most `limit`.
pub fn parse_mag(digits: &Vec<char>, radix: u64, limit: u64) -> (r: Option<u64>)
    requires
        radix == 10 || radix == 16,
    ensures
        r is Some <==> digits@.len() > 0 && all_digits_radix(digits@, radix as int) && mag_radix(
            digits@,
            radix as int,
        ) <= limit,
        r is Some ==> r->0 == mag_radix(digits@, radix as int),
{
    if digits.len() == 0 {
        return None;
    }
    let mut mag: u64 = 0;
    let mut i: usize = 0;
    while i < digits.len()
        invariant
            radix == 10 || radix == 16,
            i <= digits@.len(),
            all_digits_radix(digits@.subrange(0, i as int), radix as int),
            mag == mag_radix(digits@.subrange(0, i as int), radix as int),
            mag <= limit,
        decreases digits@.len() - i,
    {
        let ghost pre = digits@.subrange(0, i as int);
        let ghost ext = digits@.subrange(0, i as int + 1);
        assert(ext.drop_last() =~= pre);
        match digit_value(digits[i], radix) {
            None => {
                assert(!is_digit_radix(digits@[i as int], radix as int));
                return None;
            },
            Some(d) => {
                let stepped: Option<u64> = mag.checked_mul(radix);
                let next: Option<u64> = match stepped {
                    Some(m) => m.checked_add(d as u64),
                    None => None,
                };
                match next {
                    None => {
                        assert(mag_radix(ext, radix as int) > limit);
                        proof {
                            lemma_mag_prefix_le(digits@, radix as int, i as int + 1);
                        }
                        return None;
                    },
                    Some(n) => {
                        if n > limit {
                            assert(mag_radix(ext, radix as int) > limit);
                            proof {
                                lemma_mag_prefix_le(digits@, radix as int, i as int + 1);
                            }
                            return None;
                        }
                        mag = n;
                        i = i + 1;
                    },
                }
            },
        }
    }
    assert(digits@.subrange(0, digits@.len() as int) =~= digits@);
    Some(mag)
}

/// What `:0x` accepts: an optional sign, then hex digits, denoting a value
/// in the signed 64-bit range.
pub open spec fn hex_i64_parse(s: Seq<char>) -> Option<i64> {
    if s.len() > 0 && (s[0] == '+' || s[0] == '-') {
        let d = s.drop_first();
        if d.len() > 0 && all_digits_radix(d, 16) {
            if s[0] == '-' {
                if -mag_radix(d, 16) >= i64::MIN {
                    Some((-mag_radix(d, 16)) as i64)
                } else {
                    None
                }
            } else {
                if mag_radix(d, 16) <= i64::MAX {
                    Some(mag_radix(d, 16) as i64)
                } else {
                    None
                }
            }
        } else {
            None
        }
    } else {
        if s.len() > 0 && all_digits_radix(s, 16) && mag_radix(s, 16) <= i64::MAX {
            Some(mag_radix(s, 16) as i64)
        } else {
            None
        }
    }
}

/// Parses the text after `:0x` as a signed 64-bit hex value.
pub fn parse_hex_i64(s: &Vec<char>) -> (r: Option<i64>)
    ensures
        r == hex_i64_parse(s@),
{
    if s.len() > 0 && (s[0] == '+' || s[0] == '-') {
        let negative = s[0] == '-';
        let digits = crate::text::subvec(s, 1, s.len());
        assert(digits@ =~= s@.drop_first());
        let limit: u64 = if negative {
            0x8000_0000_0000_0000
        } else {
            0x7FFF_FFFF_FFFF_FFFF
        };
        match parse_mag(&digits, 16, limit) {
            None => None,
            Some(mag) => {
                if negative {
                    proof {
                        lemma_mag_nonneg(digits@, 16);
                    }
                    Some((-(mag as i128)) as i64)
                } else {
                    Some(mag as i64)
                }
            },
        }
    } else {
        match parse_mag(s, 16, 0x7FFF_FFFF_FFFF_FFFF) {
            None => None,
            Some(mag) => Some(mag as i64),
        }
    }
}

/// What `:b` accepts: an optional `+`, then decimal digits, denoting a
/// value that fits the platform's word.
pub open spec fn dec_usize_parse(s: Seq<char>) -> Option<usize> {
    let d = if s.len() > 0 && s[0] == '+' {
        s.drop_first()
    } else {
        s
    };
    if d.len() > 0 && all_digits_radix(d, 10) && mag_radix(d, 10) <= usize::MAX {
        Some(mag_radix(d, 10) as usize)
    } else {
        None
    }
}

/// Parses the text after `:b` as an unsigned tab number.
pub fn parse_dec_usize(s: &Vec<char>) -> (r: Option<usize>)
    ensures
        r == dec_usize_parse(s@),
{
    let digits = if s.len() > 0 && s[0] == '+' {
        let d = crate::text::subvec(s, 1, s.len());
        assert(d@ =~= s@.drop_first());
        d
    } else {
        crate::text::subvec(s, 0, s.len())
    };
    assert(s@.subrange(0, s@.len() as int) =~= s@);
    match parse_mag(&digits, 10, usize::MAX as u64) {
        None => None,
        Some(mag) => Some(mag as usize),
    }
}

} // verus!
