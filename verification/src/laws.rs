//! Laws that hold across the scanners: every outcome — the remaining input
//! of a success as well as the position a failure reports — is a suffix of
//! the input, and re-scanning the remaining input of a success with the same
//! scanner never picks up a leftover piece of the token just consumed.

use vstd::prelude::*;

use crate::chars::{is_dec_digit, is_digit_in};
use crate::float::{float_walk, scan_float};
use crate::radix::{digit_run, radix_decision, scan_integer, sign_len, RadixDecision};
use crate::scan::{
    is_suffix_of, lemma_cont_run_len_spec, scan_decimal_integer, scan_identifier, scan_run,
    scan_whitespace,
};
use crate::text::{is_simple_escape, p_hex_digit, scan_char_escape, scan_string, string_body};

verus! {

/// A suffix of a suffix of `s` is a suffix of `s`.
proof fn lemma_suffix_of_skip(a: Seq<char>, s: Seq<char>, k: int)
    requires
        0 <= k <= s.len(),
        is_suffix_of(a, s.skip(k)),
    ensures
        is_suffix_of(a, s),
{
    let m = choose|m: int| 0 <= m <= s.skip(k).len() && a == s.skip(k).skip(m);
    assert(s.skip(k).skip(m) =~= s.skip(k + m));
}

/// Every sequence is a suffix of itself.
proof fn lemma_suffix_of_self(s: Seq<char>)
    ensures
        is_suffix_of(s, s),
{
    assert(s.skip(0) =~= s);
}

/// Both outcomes of the run-scanner lie within its input.
pub proof fn lemma_run_scan_within(
    s: Seq<char>,
    start: spec_fn(char) -> bool,
    cont: spec_fn(char) -> bool,
)
    ensures
        scan_run(s, start, cont) matches Ok(r) ==> is_suffix_of(r, s),
        scan_run(s, start, cont) matches Err(f) ==> is_suffix_of(f, s),
{
    lemma_cont_run_len_spec(s.skip(1), cont);
    lemma_suffix_of_self(s);
}

/// Both outcomes of the identifier scanner lie within its input.
pub proof fn lemma_identifier_within(s: Seq<char>)
    ensures
        scan_identifier(s) matches Ok(r) ==> is_suffix_of(r, s),
        scan_identifier(s) matches Err(f) ==> is_suffix_of(f, s),
{
    lemma_run_scan_within(s, crate::scan::p_xid_start(), crate::scan::p_xid_continue());
}

/// Both outcomes of the whitespace scanner lie within its input.
pub proof fn lemma_whitespace_within(s: Seq<char>)
    ensures
        scan_whitespace(s) matches Ok(r) ==> is_suffix_of(r, s),
        scan_whitespace(s) matches Err(f) ==> is_suffix_of(f, s),
{
    lemma_run_scan_within(s, crate::scan::p_white_space(), crate::scan::p_white_space());
}

/// Both outcomes of the decimal-integer scanner lie within its input.
pub proof fn lemma_decimal_integer_within(s: Seq<char>)
    ensures
        scan_decimal_integer(s) matches Ok(r) ==> is_suffix_of(r, s),
        scan_decimal_integer(s) matches Err(f) ==> is_suffix_of(f, s),
{
    lemma_run_scan_within(s, crate::scan::p_nonzero_digit(), crate::scan::p_dec_digit());
}

/// Both outcomes of the digit run lie within its input, and a success never
/// stops at a decimal digit.
proof fn lemma_digit_run_within(u: Seq<char>, base: u32)
    ensures
        digit_run(u, base) matches Ok(v) ==> is_suffix_of(v, u) && (v.len() == 0
            || !is_dec_digit(v[0])),
        digit_run(u, base) matches Err(f) ==> is_suffix_of(f, u) && f.len() > 0,
    decreases u.len(),
{
    lemma_suffix_of_self(u);
    if u.len() > 0 && is_digit_in(u[0], base) {
        lemma_digit_run_within(u.skip(1), base);
        match digit_run(u.skip(1), base) {
            Ok(v) => lemma_suffix_of_skip(v, u, 1),
            Err(f) => lemma_suffix_of_skip(f, u, 1),
        }
    }
}

/// The position where the radix decision resumes lies within the input.
proof fn lemma_radix_decision_bounds(s: Seq<char>)
    ensures
        radix_decision(s) matches RadixDecision::Run { base, skip } ==> skip <= s.len(),
        radix_decision(s) matches RadixDecision::One { skip } ==> skip <= s.len(),
{
}

/// Both outcomes of the integer scanner lie within its input.
pub proof fn lemma_integer_within(s: Seq<char>)
    ensures
        scan_integer(s) matches Ok(r) ==> is_suffix_of(r, s),
        scan_integer(s) matches Err(f) ==> is_suffix_of(f, s),
{
    lemma_radix_decision_bounds(s);
    lemma_suffix_of_self(s);
    match radix_decision(s) {
        RadixDecision::BadOctal => {},
        RadixDecision::One { skip } => {},
        RadixDecision::Run { base, skip } => {
            lemma_digit_run_within(s.skip(skip as int), base);
            match digit_run(s.skip(skip as int), base) {
                Ok(v) => lemma_suffix_of_skip(v, s, skip as int),
                Err(f) => lemma_suffix_of_skip(f, s, skip as int),
            }
        },
    }
}

/// A stop of the float walk lies within its input and never sits on a
/// decimal digit.
proof fn lemma_float_walk_within(u: Seq<char>, dp: bool, ex: bool, num: bool)
    ensures
        float_walk(u, dp, ex, num) matches Some(o) ==> is_suffix_of(o.0, u) && (o.0.len() == 0
            || !is_dec_digit(o.0[0])),
    decreases u.len(),
{
    lemma_suffix_of_self(u);
    if u.len() == 0 {
    } else if is_dec_digit(u[0]) {
        lemma_float_walk_within(u.skip(1), dp, ex, true);
        if let Some(o) = float_walk(u.skip(1), dp, ex, true) {
            lemma_suffix_of_skip(o.0, u, 1);
        }
    } else if u[0] == '.' {
        if !(dp || ex) {
            lemma_float_walk_within(u.skip(1), true, ex, num);
            if let Some(o) = float_walk(u.skip(1), true, ex, num) {
                lemma_suffix_of_skip(o.0, u, 1);
            }
        }
    } else if u[0] == 'e' || u[0] == 'E' {
        if num && !(ex || u.len() < 2 || !is_dec_digit(u[1])) {
            lemma_float_walk_within(u.skip(2), dp, true, num);
            if let Some(o) = float_walk(u.skip(2), dp, true, num) {
                lemma_suffix_of_skip(o.0, u, 2);
            }
        }
    }
}

/// Both outcomes of the float scanner lie within its input.
pub proof fn lemma_float_within(s: Seq<char>)
    ensures
        scan_float(s) matches Ok(r) ==> is_suffix_of(r, s),
        scan_float(s) matches Err(f) ==> is_suffix_of(f, s),
{
    lemma_suffix_of_self(s);
    let sl = sign_len(s);
    lemma_float_walk_within(s.skip(sl), false, false, false);
    if let Some(o) = float_walk(s.skip(sl), false, false, false) {
        lemma_suffix_of_skip(o.0, s, sl);
    }
}

/// Both outcomes of the escape scanner lie within its input.
pub proof fn lemma_char_escape_within(s: Seq<char>)
    ensures
        scan_char_escape(s) matches Ok(r) ==> is_suffix_of(r, s),
        scan_char_escape(s) matches Err(f) ==> is_suffix_of(f, s),
{
    lemma_suffix_of_self(s);
    if s.len() >= 2 && s[0] == 'u' && s[1] == '{' {
        lemma_cont_run_len_spec(s.skip(2), p_hex_digit());
    }
}

/// Both outcomes of the scan between the quotes lie within its input.
proof fn lemma_string_body_within(u: Seq<char>, q: char)
    ensures
        string_body(u, q) matches Ok(r) ==> is_suffix_of(r, u),
        string_body(u, q) matches Err(f) ==> is_suffix_of(f, u),
    decreases u.len(),
{
    lemma_suffix_of_self(u);
    if u.len() == 0 || u[0] == q {
    } else if u[0] == '\\' {
        crate::text::lemma_scan_char_escape_len(u.skip(1));
        lemma_char_escape_within(u.skip(1));
        match scan_char_escape(u.skip(1)) {
            Ok(rest) => {
                lemma_string_body_within(rest, q);
                match string_body(rest, q) {
                    Ok(r) => {
                        lemma_suffix_of_skip(r, u.skip(1), choose|k: int|
                            0 <= k <= u.skip(1).len() && rest == u.skip(1).skip(k));
                        lemma_suffix_of_skip(r, u, 1);
                    },
                    Err(f) => {
                        lemma_suffix_of_skip(f, u.skip(1), choose|k: int|
                            0 <= k <= u.skip(1).len() && rest == u.skip(1).skip(k));
                        lemma_suffix_of_skip(f, u, 1);
                    },
                }
            },
            Err(f) => {
                lemma_suffix_of_skip(f, u, 1);
            },
        }
    } else {
        lemma_string_body_within(u.skip(1), q);
        match string_body(u.skip(1), q) {
            Ok(r) => lemma_suffix_of_skip(r, u, 1),
            Err(f) => lemma_suffix_of_skip(f, u, 1),
        }
    }
}

/// Both outcomes of the string scanner lie within its input.
pub proof fn lemma_string_within(s: Seq<char>)
    ensures
        scan_string(s) matches Ok(r) ==> is_suffix_of(r, s),
        scan_string(s) matches Err(f) ==> is_suffix_of(f, s),
{
    lemma_suffix_of_self(s);
    if s.len() > 0 && (s[0] == '"' || s[0] == '\'') {
        lemma_string_body_within(s.skip(1), s[0]);
        match string_body(s.skip(1), s[0]) {
            Ok(r) => lemma_suffix_of_skip(r, s, 1),
            Err(f) => lemma_suffix_of_skip(f, s, 1),
        }
    }
}

/// Re-scanning the remaining input of a successful integer scan consumes
/// nothing: the run stopped at a character that is no digit, so unless a new
/// sign starts a fresh literal, the re-scan returns its input unchanged.
pub proof fn lemma_integer_rescan(s: Seq<char>, r: Seq<char>)
    requires
        scan_integer(s) == Ok::<Seq<char>, Seq<char>>(r),
        r.len() > 0 ==> r[0] != '+' && r[0] != '-',
    ensures
        scan_integer(r) == Ok::<Seq<char>, Seq<char>>(r),
{
    lemma_radix_decision_bounds(s);
    match radix_decision(s) {
        RadixDecision::BadOctal => {},
        RadixDecision::One { skip } => {
            let sl = sign_len(s);
            if r.len() > 0 {
                assert(s.skip(sl)[1] == s[sl + 1]);
                assert(r[0] == s.skip(skip as int)[0]);
            }
        },
        RadixDecision::Run { base, skip } => {
            lemma_digit_run_within(s.skip(skip as int), base);
        },
    }
    assert(r.len() == 0 || !is_dec_digit(r[0]));
    assert(r.skip(0) =~= r);
    assert(radix_decision(r) == RadixDecision::Run { base: 10u32, skip: 0usize });
}

/// Re-scanning the remaining input of a successful float scan fails: the
/// walk stopped at a character that is no digit, so unless a new sign or a
/// fresh leading decimal point starts a new literal, no digit can be seen.
pub proof fn lemma_float_rescan(s: Seq<char>, r: Seq<char>)
    requires
        scan_float(s) == Ok::<Seq<char>, Seq<char>>(r),
        r.len() > 0 ==> r[0] != '+' && r[0] != '-' && r[0] != '.',
    ensures
        scan_float(r) is Err,
{
    let sl = sign_len(s);
    lemma_float_walk_within(s.skip(sl), false, false, false);
    assert(r.len() == 0 || !is_dec_digit(r[0]));
    assert(sign_len(r) == 0);
    assert(r.skip(0) =~= r);
}

/// Re-scanning the remaining input of a successful string scan fails unless
/// the remaining input opens a fresh quote of its own.
pub proof fn lemma_string_rescan(s: Seq<char>, r: Seq<char>)
    requires
        scan_string(s) == Ok::<Seq<char>, Seq<char>>(r),
        r.len() > 0 ==> r[0] != '"' && r[0] != '\'',
    ensures
        scan_string(r) is Err,
{
}

/// Re-scanning the remaining input of a successful escape scan fails unless
/// the remaining input starts an escape of its own.
pub proof fn lemma_char_escape_rescan(s: Seq<char>, r: Seq<char>)
    requires
        scan_char_escape(s) == Ok::<Seq<char>, Seq<char>>(r),
        r.len() > 0 ==> !is_simple_escape(r[0]) && r[0] != 'x' && r[0] != 'u',
    ensures
        scan_char_escape(r) is Err,
{
}

} // verus!
