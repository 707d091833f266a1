//! The float scanner: an optional sign, then a single left-to-right walk
//! consuming digits, at most one decimal point, and at most one exponent
//! marker that must be followed directly by a digit. Accepting requires at
//! least one digit and at least one of the point and the exponent; a bare
//! integer is not a float.

use vstd::prelude::*;

use crate::chars::{digit_in, is_dec_digit};
use crate::radix::sign_len;
use crate::scan::{scan_matches, Error};

verus! {

/// One walk over `u` with the state so far: `dp` a decimal point was seen,
/// `ex` an exponent was seen, `num` a digit was seen. Stops (`Some`, with the
/// unconsumed suffix and the final state) at the first character it cannot
/// take: a second point, a point after the exponent, an exponent marker not
/// followed directly by a digit, a second exponent, or any other non-digit.
/// An exponent marker before any digit rejects the input outright (`None`).
pub open spec fn float_walk(u: Seq<char>, dp: bool, ex: bool, num: bool) -> Option<
    (Seq<char>, bool, bool, bool),
>
    decreases u.len(),
{
    if u.len() == 0 {
        Some((u, dp, ex, num))
    } else if is_dec_digit(u[0]) {
        float_walk(u.skip(1), dp, ex, true)
    } else if u[0] == '.' {
        if dp || ex {
            Some((u, dp, ex, num))
        } else {
            float_walk(u.skip(1), true, ex, num)
        }
    } else if u[0] == 'e' || u[0] == 'E' {
        if !num {
            None
        } else if ex || u.len() < 2 || !is_dec_digit(u[1]) {
            Some((u, dp, ex, num))
        } else {
            float_walk(u.skip(2), dp, true, num)
        }
    } else {
        Some((u, dp, ex, num))
    }
}

/// Outcome of the float scanner on `s`: the walk after the optional sign
/// must see a digit and a point or exponent; every failure is reported at
/// the whole input.
pub open spec fn scan_float(s: Seq<char>) -> Result<Seq<char>, Seq<char>> {
    match float_walk(s.skip(sign_len(s)), false, false, false) {
        Some((rest, dp, ex, num)) => if num && (dp || ex) {
            Ok(rest)
        } else {
            Err(s)
        },
        None => Err(s),
    }
}

/// Scans a float literal. Succeeds only when the walk saw at least one digit
/// and at least one of a decimal point and an exponent; fails at the whole
/// input otherwise, in particular when an exponent marker appears before any
/// digit.
pub fn float<'a>(src: &'a str) -> (r: Result<&'a str, Error<'a>>)
    ensures
        scan_matches(r, scan_float(src@)),
{
    let n = src.unicode_len();
    let mut i: usize = 0;
    if n > 0 {
        let c0 = src.get_char(0);
        if c0 == '+' || c0 == '-' {
            i = 1;
        }
    }
    let ghost sl = i as int;
    let mut dp = false;
    let mut ex = false;
    let mut num = false;
    loop
        invariant
            sl <= i <= n,
            n == src@.len(),
            sl == sign_len(src@),
            float_walk(src@.skip(sl), false, false, false) == float_walk(
                src@.skip(i as int),
                dp,
                ex,
                num,
            ),
        ensures
            sl <= i <= n,
            float_walk(src@.skip(sl), false, false, false) == Some(
                (src@.skip(i as int), dp, ex, num),
            ),
        decreases n - i,
    {
        if i == n {
            break;
        }
        let c = src.get_char(i);
        proof {
            assert(src@.skip(i as int)[0] == src@[i as int]);
        }
        if digit_in(c, 10) {
            proof {
                assert(src@.skip(i as int).skip(1) =~= src@.skip(i as int + 1));
            }
            num = true;
            i += 1;
        } else if c == '.' {
            if dp || ex {
                break;
            }
            proof {
                assert(src@.skip(i as int).skip(1) =~= src@.skip(i as int + 1));
            }
            dp = true;
            i += 1;
        } else if c == 'e' || c == 'E' {
            if !num {
                return Err(Error::new(src));
            }
            proof {
                if i + 1 < n {
                    assert(src@.skip(i as int)[1] == src@[i as int + 1]);
                }
            }
            let exp_digit = i + 1 < n && digit_in(src.get_char(i + 1), 10);
            if !exp_digit || ex {
                break;
            }
            proof {
                assert(src@.skip(i as int).skip(2) =~= src@.skip(i as int + 2));
            }
            ex = true;
            i += 2;
        } else {
            break;
        }
    }
    if num && (dp || ex) {
        Ok(src.substring_char(i, n))
    } else {
        Err(Error::new(src))
    }
}

} // verus!
