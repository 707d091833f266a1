//! The general integer scanner: an optional sign, a radix selected by a
//! lookahead of up to four characters, then a maximal run of digits valid in
//! that radix. A decimal digit that is not valid in the selected radix is a
//! malformed literal, not a shorter one.

use vstd::prelude::*;

use crate::chars::{digit_in, digit_val, is_dec_digit, is_digit_in, is_hex_digit};
use crate::scan::{scan_matches, Error};

verus! {

/// How the radix-disambiguation lookahead resolved: where scanning resumes
/// (in characters from the start of the input, sign included) and in which
/// base, or an immediate outcome.
#[derive(Clone, Copy, PartialEq, Eq, Structural, Debug)]
pub enum RadixDecision {
    /// Consume a maximal digit run in base `base`, starting `skip` characters
    /// into the input.
    Run { base: u32, skip: usize },
    /// A single decimal digit not followed by another: immediate success with
    /// `skip` characters consumed.
    One { skip: usize },
    /// A leading `0` followed by a decimal digit that is not an octal digit:
    /// the literal is malformed.
    BadOctal,
}

/// Number of characters the optional leading sign occupies.
pub open spec fn sign_len(s: Seq<char>) -> int {
    if s.len() > 0 && (s[0] == '+' || s[0] == '-') {
        1
    } else {
        0
    }
}

/// The radix decision for input `s`, by the first rule that applies to the
/// characters after the sign: `0x`/`0o`/`0b` followed by a digit of that
/// base; a leading-zero octal (or its malformed variant); a one- or
/// two-digit custom radix written `NxD` with `D` a digit of base `N <= 36`
/// (otherwise the digits are re-read as decimal from the very start, sign
/// included); a single digit not followed by another; or decimal from the
/// very start.
pub open spec fn radix_decision(s: Seq<char>) -> RadixDecision {
    let sl = sign_len(s);
    let t = s.skip(sl);
    if t.len() >= 3 && t[0] == '0' && t[1] == 'x' && is_hex_digit(t[2]) {
        RadixDecision::Run { base: 16, skip: (sl + 2) as usize }
    } else if t.len() >= 3 && t[0] == '0' && t[1] == 'o' && is_digit_in(t[2], 8) {
        RadixDecision::Run { base: 8, skip: (sl + 2) as usize }
    } else if t.len() >= 3 && t[0] == '0' && t[1] == 'b' && is_digit_in(t[2], 2) {
        RadixDecision::Run { base: 2, skip: (sl + 2) as usize }
    } else if t.len() >= 2 && t[0] == '0' && is_dec_digit(t[1]) {
        if !is_digit_in(t[1], 8) {
            RadixDecision::BadOctal
        } else {
            RadixDecision::Run { base: 8, skip: (sl + 1) as usize }
        }
    } else if t.len() >= 2 && is_dec_digit(t[0]) && t[1] == 'x' {
        if t.len() >= 3 && is_digit_in(t[2], digit_val(t[0]) as u32) {
            RadixDecision::Run { base: digit_val(t[0]) as u32, skip: (sl + 1) as usize }
        } else {
            RadixDecision::Run { base: 10, skip: 0 }
        }
    } else if t.len() >= 3 && is_dec_digit(t[0]) && is_dec_digit(t[1]) && t[2] == 'x' {
        if digit_val(t[0]) * 10 + digit_val(t[1]) <= 36 && t.len() >= 4 && is_digit_in(
            t[3],
            (digit_val(t[0]) * 10 + digit_val(t[1])) as u32,
        ) {
            RadixDecision::Run {
                base: (digit_val(t[0]) * 10 + digit_val(t[1])) as u32,
                skip: (sl + 3) as usize,
            }
        } else {
            RadixDecision::Run { base: 10, skip: 0 }
        }
    } else if t.len() >= 1 && is_dec_digit(t[0]) && !(t.len() >= 2 && is_dec_digit(t[1])) {
        RadixDecision::One { skip: (sl + 1) as usize }
    } else {
        RadixDecision::Run { base: 10, skip: 0 }
    }
}

/// Outcome of the maximal digit run on `u` in base `base`: stops successfully
/// at the first character that is no digit at all, but fails at a decimal
/// digit that is not a digit of `base`.
pub open spec fn digit_run(u: Seq<char>, base: u32) -> Result<Seq<char>, Seq<char>>
    decreases u.len(),
{
    if u.len() == 0 {
        Ok(u)
    } else if is_digit_in(u[0], base) {
        digit_run(u.skip(1), base)
    } else if is_dec_digit(u[0]) {
        Err(u)
    } else {
        Ok(u)
    }
}

/// Outcome of the integer scanner on `s`.
pub open spec fn scan_integer(s: Seq<char>) -> Result<Seq<char>, Seq<char>> {
    match radix_decision(s) {
        RadixDecision::BadOctal => Err(s),
        RadixDecision::One { skip } => Ok(s.skip(skip as int)),
        RadixDecision::Run { base, skip } => digit_run(s.skip(skip as int), base),
    }
}

/// Value of an ASCII decimal digit.
pub fn dec_digit_val(c: char) -> (v: u32)
    requires
        is_dec_digit(c),
    ensures
        v as int == digit_val(c),
{
    c as u32 - 48
}

/// Resolves the radix of the integer literal at the front of `src` by
/// inspecting the sign and up to four characters after it.
pub fn classify_prefix(src: &str) -> (d: RadixDecision)
    ensures
        d == radix_decision(src@),
{
    let n = src.unicode_len();
    let mut sl: usize = 0;
    if n > 0 {
        let c0 = src.get_char(0);
        if c0 == '+' || c0 == '-' {
            sl = 1;
        }
    }
    let m = n - sl;
    if m >= 3 {
        let t0 = src.get_char(sl);
        let t1 = src.get_char(sl + 1);
        let t2 = src.get_char(sl + 2);
        if t0 == '0' && t1 == 'x' && digit_in(t2, 16) {
            return RadixDecision::Run { base: 16, skip: sl + 2 };
        }
        if t0 == '0' && t1 == 'o' && digit_in(t2, 8) {
            return RadixDecision::Run { base: 8, skip: sl + 2 };
        }
        if t0 == '0' && t1 == 'b' && digit_in(t2, 2) {
            return RadixDecision::Run { base: 2, skip: sl + 2 };
        }
    }
    if m >= 2 {
        let t0 = src.get_char(sl);
        let t1 = src.get_char(sl + 1);
        if t0 == '0' && digit_in(t1, 10) {
            if !digit_in(t1, 8) {
                return RadixDecision::BadOctal;
            }
            return RadixDecision::Run { base: 8, skip: sl + 1 };
        }
        if digit_in(t0, 10) && t1 == 'x' {
            let b = dec_digit_val(t0);
            if m >= 3 && digit_in(src.get_char(sl + 2), b) {
                return RadixDecision::Run { base: b, skip: sl + 1 };
            }
            return RadixDecision::Run { base: 10, skip: 0 };
        }
    }
    if m >= 3 {
        let t0 = src.get_char(sl);
        let t1 = src.get_char(sl + 1);
        let t2 = src.get_char(sl + 2);
        if digit_in(t0, 10) && digit_in(t1, 10) && t2 == 'x' {
            let b = dec_digit_val(t0) * 10 + dec_digit_val(t1);
            if b <= 36 && m >= 4 && digit_in(src.get_char(sl + 3), b) {
                return RadixDecision::Run { base: b, skip: sl + 3 };
            }
            return RadixDecision::Run { base: 10, skip: 0 };
        }
    }
    if m >= 1 {
        let t0 = src.get_char(sl);
        let another = m >= 2 && digit_in(src.get_char(sl + 1), 10);
        if digit_in(t0, 10) && !another {
            return RadixDecision::One { skip: sl + 1 };
        }
    }
    RadixDecision::Run { base: 10, skip: 0 }
}

/// Scans an integer literal: an optional sign, the radix resolved by
/// `classify_prefix`, then a maximal run of digits of that radix. Fails at
/// the whole input on a malformed leading-zero octal, and at the offending
/// character when a decimal digit that is not a digit of the radix follows
/// the run.
pub fn integer<'a>(src: &'a str) -> (r: Result<&'a str, Error<'a>>)
    ensures
        scan_matches(r, scan_integer(src@)),
{
    let n = src.unicode_len();
    let d = classify_prefix(src);
    match d {
        RadixDecision::BadOctal => Err(Error::new(src)),
        RadixDecision::One { skip } => Ok(src.substring_char(skip, n)),
        RadixDecision::Run { base, skip } => {
            let mut i = skip;
            loop
                invariant
                    skip <= i <= n,
                    n == src@.len(),
                    d == radix_decision(src@),
                    d == (RadixDecision::Run { base, skip }),
                    digit_run(src@.skip(skip as int), base) == digit_run(
                        src@.skip(i as int),
                        base,
                    ),
                ensures
                    skip <= i <= n,
                    digit_run(src@.skip(skip as int), base) == digit_run(
                        src@.skip(i as int),
                        base,
                    ),
                    i == n || (!is_digit_in(src@[i as int], base) && !is_dec_digit(
                        src@[i as int],
                    )),
                decreases n - i,
            {
                if i == n {
                    break;
                }
                let c = src.get_char(i);
                proof {
                    assert(src@.skip(i as int)[0] == src@[i as int]);
                }
                if digit_in(c, base) {
                    proof {
                        assert(src@.skip(i as int).skip(1) =~= src@.skip(i as int + 1));
                    }
                    i += 1;
                } else if digit_in(c, 10) {
                    // For example, a 9 in a base 8 number.
                    return Err(Error::new(src.substring_char(i, n)));
                } else {
                    break;
                }
            }
            proof {
                if i < n {
                    assert(src@.skip(i as int)[0] == src@[i as int]);
                }
            }
            Ok(src.substring_char(i, n))
        },
    }
}

} // verus!
