//! Numeric literals: an optional "0x" or "0b" radix prefix and a run of
//! digits, read into a 32-bit word with exact overflow detection.

use vstd::prelude::*;
use crate::chars::{alnum_end, alnum_end_x};

verus! {

/// The value of a character as a digit in the given radix: decimal digits
/// count from 0, letters of either case from 10; characters at or past the
/// radix are no digits of it.
pub open spec fn digit_val(c: char, radix: u32) -> Option<u32> {
    let v = c as int;
    let d: int = if 48 <= v && v <= 57 {
        v - 48
    } else if 65 <= v && v <= 90 {
        v - 65 + 10
    } else if 97 <= v && v <= 122 {
        v - 97 + 10
    } else {
        99
    };
    if d < radix {
        Some(d as u32)
    } else {
        None
    }
}

pub fn digit_of(c: char, radix: u32) -> (r: Option<u32>)
    ensures
        r == digit_val(c, radix),
{
    let v = c as u32;
    let d: u32 = if 48 <= v && v <= 57 {
        v - 48
    } else if 65 <= v && v <= 90 {
        v - 65 + 10
    } else if 97 <= v && v <= 122 {
        v - 97 + 10
    } else {
        99
    };
    if d < radix {
        Some(d)
    } else {
        None
    }
}

/// Every character of the token is a digit of the radix.
pub open spec fn all_digits(s: Seq<char>, radix: u32) -> bool {
    forall|i: int| 0 <= i < s.len() ==> digit_val(s[i], radix) is Some
}

/// The numeric value of a digit string read in the given radix.
pub open spec fn num_val(s: Seq<char>, radix: u32) -> nat
    decreases s.len(),
{
    if s.len() == 0 {
        0
    } else {
        (num_val(s.drop_last(), radix) * radix + digit_val(s.last(), radix)->0) as nat
    }
}

/// Reading more digits never shrinks the value.
pub proof fn lemma_num_val_take_le(s: Seq<char>, radix: u32, i: int)
    requires
        2 <= radix,
        0 <= i <= s.len(),
    ensures
        num_val(s.take(i), radix) <= num_val(s, radix),
    decreases s.len() - i,
{
    if i < s.len() {
        lemma_num_val_take_le(s, radix, i + 1);
        let a = num_val(s.take(i), radix);
        assert(s.take(i + 1).drop_last() =~= s.take(i));
        assert(num_val(s.take(i + 1), radix) == a * radix + digit_val(s[i], radix)->0);
        assert(a <= a * radix) by (nonlinear_arith)
            requires
                2 <= radix,
                0 <= a,
        ;
    } else {
        assert(s.take(i) =~= s);
    }
}

/// Whether a radix prefix of the given letter stands at `i`.
pub open spec fn has_radix_prefix(s: Seq<char>, i: int, letter: char) -> bool {
    i + 2 <= s.len() && s[i] == '0' && s[i + 1] == letter
}

/// The radix a literal at `i` is read in: "0x" marks hexadecimal, "0b"
/// binary, no prefix decimal.
pub open spec fn spec_num_radix(s: Seq<char>, i: int) -> u32 {
    if has_radix_prefix(s, i, 'x') {
        16
    } else if has_radix_prefix(s, i, 'b') {
        2
    } else {
        10
    }
}

/// Where the digits of a literal at `i` start: just past the prefix, if any.
pub open spec fn spec_num_digits_start(s: Seq<char>, i: int) -> int {
    if has_radix_prefix(s, i, 'x') || has_radix_prefix(s, i, 'b') {
        i + 2
    } else {
        i
    }
}

/// Where the literal's token ends: the end of the alphanumeric run holding
/// its digits.
pub open spec fn spec_num_end(s: Seq<char>, i: int) -> int {
    alnum_end(s, spec_num_digits_start(s, i))
}

/// A numeric literal stands at `i`: at least one digit follows the optional
/// prefix, and the whole alphanumeric token is digits of the radix.
pub open spec fn spec_num_matches(s: Seq<char>, i: int) -> bool {
    let ds = spec_num_digits_start(s, i);
    let e = spec_num_end(s, i);
    e > ds && all_digits(s.subrange(ds, e), spec_num_radix(s, i))
}

/// The value of the literal at `i`, as an unbounded natural.
pub open spec fn spec_num_value(s: Seq<char>, i: int) -> nat {
    num_val(s.subrange(spec_num_digits_start(s, i), spec_num_end(s, i)), spec_num_radix(s, i))
}

#[derive(Debug, PartialEq)]
pub enum NumScan {
    /// No literal stands here: no digit after the optional prefix, or a
    /// character of the token is no digit of the radix.
    NoMatch,
    /// A literal stands here but its value exceeds a 32-bit word.
    Overflow,
    /// The literal's value and the position just past its token.
    Value(u32, usize),
}

/// Scans the numeric literal at `i`.
pub fn scan_number(s: &str, i: usize) -> (r: NumScan)
    requires
        i <= s@.len(),
    ensures
        match r {
            NumScan::NoMatch => !spec_num_matches(s@, i as int),
            NumScan::Overflow => spec_num_matches(s@, i as int) && spec_num_value(s@, i as int)
                > u32::MAX,
            NumScan::Value(v, e) => spec_num_matches(s@, i as int) && v == spec_num_value(
                s@,
                i as int,
            ) && e as int == spec_num_end(s@, i as int) && i < e <= s@.len(),
        },
{
    let n = s.unicode_len();
    let (radix, ds): (u32, usize) = if i < n && i + 1 < n && s.get_char(i) == '0' && s.get_char(
        i + 1,
    ) == 'x' {
        (16, i + 2)
    } else if i < n && i + 1 < n && s.get_char(i) == '0' && s.get_char(i + 1) == 'b' {
        (2, i + 2)
    } else {
        (10, i)
    };
    let e = alnum_end_x(s, ds);
    if e == ds {
        return NumScan::NoMatch;
    }
    let ghost token = s@.subrange(ds as int, e as int);
    // First pass: every character of the token must be a digit of the radix.
    let mut j = ds;
    while j < e
        invariant
            i <= ds < e <= n,
            ds <= j <= e,
            n == s@.len(),
            ds as int == spec_num_digits_start(s@, i as int),
            radix == spec_num_radix(s@, i as int),
            e as int == spec_num_end(s@, i as int),
            token == s@.subrange(ds as int, e as int),
            forall|k: int| 0 <= k < j - ds ==> digit_val(token[k], radix) is Some,
        decreases e - j,
    {
        if digit_of(s.get_char(j), radix).is_none() {
            proof {
                assert(token[j - ds] == s@[j as int]);
                assert(!all_digits(token, radix));
            }
            return NumScan::NoMatch;
        }
        j = j + 1;
    }
    proof {
        assert(all_digits(token, radix));
    }
    // Second pass: accumulate, watching for 32-bit overflow.
    let mut acc: u32 = 0;
    let mut k = ds;
    while k < e
        invariant
            i <= ds < e <= n,
            ds <= k <= e,
            n == s@.len(),
            radix == 2 || radix == 10 || radix == 16,
            ds as int == spec_num_digits_start(s@, i as int),
            radix == spec_num_radix(s@, i as int),
            e as int == spec_num_end(s@, i as int),
            token == s@.subrange(ds as int, e as int),
            all_digits(token, radix),
            acc == num_val(token.take(k - ds), radix),
        decreases e - k,
    {
        let c = s.get_char(k);
        proof {
            assert(token[k - ds] == s@[k as int]);
        }
        let d = digit_of(c, radix).unwrap();
        let q = (u32::MAX - d) / radix;
        proof {
            assert(token.take(k - ds + 1).drop_last() =~= token.take(k - ds));
            assert(token.take(k - ds + 1).last() == token[k - ds]);
        }
        if acc > q {
            proof {
                let a = acc as int;
                let dd = d as int;
                let r = radix as int;
                assert(a * r + dd > 0xFFFF_FFFF) by (nonlinear_arith)
                    requires
                        a > (0xFFFF_FFFF - dd) / r,
                        0 <= dd < r,
                        2 <= r,
                ;
                assert(num_val(token.take(k - ds + 1), radix) > u32::MAX);
                lemma_num_val_take_le(token, radix, k - ds + 1);
            }
            return NumScan::Overflow;
        }
        proof {
            let a = acc as int;
            let dd = d as int;
            let r = radix as int;
            assert(a * r + dd <= 0xFFFF_FFFF) by (nonlinear_arith)
                requires
                    a <= (0xFFFF_FFFF - dd) / r,
                    0 <= dd < r,
                    2 <= r,
            ;
        }
        acc = acc * radix + d;
        k = k + 1;
    }
    proof {
        assert(token.take(e - ds) =~= token);
    }
    NumScan::Value(acc, e)
}

} // verus!
