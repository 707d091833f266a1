//! The character-escape scanner (the content right after a backslash) and
//! the string scanner, which delegates to it at every backslash.

use vstd::prelude::*;

use crate::chars::{digit_in, is_hex_digit};
use crate::scan::{cont_run_len, lemma_cont_run_len_from_prefix, scan_matches, Error};

verus! {

/// `c` closes a single-character escape.
pub open spec fn is_simple_escape(c: char) -> bool {
    c == '0' || c == 'n' || c == 't' || c == '\\' || c == '"' || c == '\''
}

/// What the hexadecimal-digit runs of the escape scanner are counted by.
pub open spec fn p_hex_digit() -> spec_fn(char) -> bool {
    |c: char| is_hex_digit(c)
}

/// Outcome of the escape scanner on `s`, the input right after a backslash:
/// a single-character escape; `x` and exactly two hex digits; or `u`, an
/// opening brace, one to six hex digits, and a closing brace. Every failure
/// is reported right after the last character that still fit.
pub open spec fn scan_char_escape(s: Seq<char>) -> Result<Seq<char>, Seq<char>> {
    if s.len() == 0 {
        Err(s)
    } else if is_simple_escape(s[0]) {
        Ok(s.skip(1))
    } else if s[0] == 'x' {
        if s.len() >= 2 && is_hex_digit(s[1]) {
            if s.len() >= 3 && is_hex_digit(s[2]) {
                Ok(s.skip(3))
            } else {
                Err(s.skip(2))
            }
        } else {
            Err(s.skip(1))
        }
    } else if s[0] == 'u' {
        if s.len() >= 2 && s[1] == '{' {
            let h = cont_run_len(s.skip(2), p_hex_digit()) as int;
            if h == 0 {
                Err(s.skip(2))
            } else if h <= 6 {
                if 2 + h < s.len() && s[2 + h] == '}' {
                    Ok(s.skip(3 + h))
                } else {
                    Err(s.skip(2 + h))
                }
            } else {
                Err(s.skip(8))
            }
        } else {
            Err(s.skip(1))
        }
    } else {
        Err(s)
    }
}

/// Scans a character escape, the backslash already consumed. Exactly two hex
/// digits must follow `x`; one to six hex digits in braces must follow `u`;
/// any character that fits no escape fails at the whole input.
pub fn char_escape<'a>(src: &'a str) -> (r: Result<&'a str, Error<'a>>)
    ensures
        scan_matches(r, scan_char_escape(src@)),
{
    let n = src.unicode_len();
    if n == 0 {
        return Err(Error::new(src));
    }
    let c = src.get_char(0);
    if c == '0' || c == 'n' || c == 't' || c == '\\' || c == '"' || c == '\'' {
        return Ok(src.substring_char(1, n));
    }
    if c == 'x' {
        proof {
            if n >= 2 {
                assert(src@[1] == src@.subrange(1, n as int)[0]);
            }
            if n >= 3 {
                assert(src@[2] == src@.subrange(2, n as int)[0]);
            }
        }
        if n >= 2 && digit_in(src.get_char(1), 16) {
            if n >= 3 && digit_in(src.get_char(2), 16) {
                return Ok(src.substring_char(3, n));
            }
            return Err(Error::new(src.substring_char(2, n)));
        }
        return Err(Error::new(src.substring_char(1, n)));
    }
    if c == 'u' {
        if n >= 2 && src.get_char(1) == '{' {
            let mut h: usize = 0;
            loop
                invariant
                    0 <= h,
                    2 + h <= n,
                    n == src@.len(),
                    forall|j: int| 0 <= j < h ==> is_hex_digit(#[trigger] src@[2 + j]),
                ensures
                    2 + h <= n,
                    forall|j: int| 0 <= j < h ==> is_hex_digit(#[trigger] src@[2 + j]),
                    2 + h == n || !is_hex_digit(src@[2 + h]),
                decreases n - h,
            {
                if 2 + h == n {
                    break;
                }
                if !digit_in(src.get_char(2 + h), 16) {
                    break;
                }
                h += 1;
            }
            proof {
                assert forall|j: int| 0 <= j < h implies p_hex_digit()(
                    #[trigger] src@.skip(2)[j],
                ) by {
                    assert(src@.skip(2)[j] == src@[2 + j]);
                }
                if 2 + h < n {
                    assert(src@.skip(2)[h as int] == src@[2 + h]);
                }
                lemma_cont_run_len_from_prefix(src@.skip(2), p_hex_digit(), h as int);
            }
            if h == 0 {
                return Err(Error::new(src.substring_char(2, n)));
            }
            if h <= 6 {
                proof {
                    if 2 + h < n {
                        assert(src@[2 + h] == src@.subrange(2 + h as int, n as int)[0]);
                    }
                }
                if 2 + h < n && src.get_char(2 + h) == '}' {
                    return Ok(src.substring_char(3 + h, n));
                }
                return Err(Error::new(src.substring_char(2 + h, n)));
            }
            return Err(Error::new(src.substring_char(8, n)));
        }
        return Err(Error::new(src.substring_char(1, n)));
    }
    Err(Error::new(src))
}

/// Every outcome of the escape scanner lies within its input, and a success
/// consumes at least one character.
pub proof fn lemma_scan_char_escape_len(s: Seq<char>)
    ensures
        scan_char_escape(s) matches Ok(rest) ==> rest.len() < s.len(),
        scan_char_escape(s) matches Err(f) ==> f.len() <= s.len(),
{
    if s.len() >= 2 && s[0] == 'u' && s[1] == '{' {
        crate::scan::lemma_cont_run_len_spec(s.skip(2), p_hex_digit());
    }
}

/// Outcome of the string scanner inside the delimiters: `u` is the input
/// after the opening quote and `q` the quote character that must close the
/// string. A backslash hands the rest to the escape scanner; reaching the
/// end of the input without the closing quote fails there.
pub open spec fn string_body(u: Seq<char>, q: char) -> Result<Seq<char>, Seq<char>>
    decreases u.len(),
    when u.len() >= 0
    via string_body_decreases
{
    if u.len() == 0 {
        Err(u)
    } else if u[0] == q {
        Ok(u.skip(1))
    } else if u[0] == '\\' {
        match scan_char_escape(u.skip(1)) {
            Ok(rest) => string_body(rest, q),
            Err(f) => Err(f),
        }
    } else {
        string_body(u.skip(1), q)
    }
}

#[via_fn]
proof fn string_body_decreases(u: Seq<char>, q: char) {
    if u.len() > 0 && u[0] != q && u[0] == '\\' {
        lemma_scan_char_escape_len(u.skip(1));
    }
}

/// Outcome of the string scanner on `s`: the opening character must be a
/// double or single quote, and that same character closes the string.
pub open spec fn scan_string(s: Seq<char>) -> Result<Seq<char>, Seq<char>> {
    if s.len() > 0 && (s[0] == '"' || s[0] == '\'') {
        string_body(s.skip(1), s[0])
    } else {
        Err(s)
    }
}

/// Scans a quoted string: an opening `"` or `'`, characters and escapes, and
/// the matching closing quote. Fails at the whole input when the opening
/// character is no quote, inside a malformed escape where the escape scanner
/// fails, and at the end of the input when the string is unterminated.
pub fn string<'a>(src: &'a str) -> (r: Result<&'a str, Error<'a>>)
    ensures
        scan_matches(r, scan_string(src@)),
{
    let n = src.unicode_len();
    if n == 0 {
        return Err(Error::new(src));
    }
    let q = src.get_char(0);
    if !(q == '"' || q == '\'') {
        return Err(Error::new(src));
    }
    let mut cur: &'a str = src.substring_char(1, n);
    loop
        invariant
            scan_string(src@) == string_body(cur@, q),
        decreases cur@.len(),
    {
        let m = cur.unicode_len();
        if m == 0 {
            return Err(Error::new(cur));
        }
        let c = cur.get_char(0);
        if c == q {
            return Ok(cur.substring_char(1, m));
        }
        if c == '\\' {
            let tail = cur.substring_char(1, m);
            proof {
                lemma_scan_char_escape_len(tail@);
            }
            match char_escape(tail) {
                Ok(rest) => {
                    cur = rest;
                },
                Err(e) => {
                    return Err(e);
                },
            }
        } else {
            cur = cur.substring_char(1, m);
        }
    }
}

} // verus!
