//! Character classification: digit values for radices up to 36, and the
//! Unicode character classes (identifier start/continue, whitespace) that
//! the scanners select on.

use vstd::prelude::*;

verus! {

/// Numeric value of `c` read as a digit: `0`–`9` for the ASCII digits,
/// `10`–`35` for `a`–`z` and `A`–`Z`, and `-1` for every other character.
pub open spec fn digit_val(c: char) -> int {
    if '0' <= c && c <= '9' {
        c as int - '0' as int
    } else if 'a' <= c && c <= 'z' {
        c as int - 'a' as int + 10
    } else if 'A' <= c && c <= 'Z' {
        c as int - 'A' as int + 10
    } else {
        -1
    }
}

/// `c` is a digit of the numeral system with base `base`.
pub open spec fn is_digit_in(c: char, base: u32) -> bool {
    0 <= digit_val(c) < base
}

/// `c` is an ASCII decimal digit.
pub open spec fn is_dec_digit(c: char) -> bool {
    is_digit_in(c, 10)
}

/// `c` is an ASCII hexadecimal digit.
pub open spec fn is_hex_digit(c: char) -> bool {
    is_digit_in(c, 16)
}

/// Decides `is_digit_in(c, base)`.
pub fn digit_in(c: char, base: u32) -> (r: bool)
    ensures
        r == is_digit_in(c, base),
{
    let v = c as u32;
    let d: u32 = if 48 <= v && v <= 57 {
        v - 48
    } else if 97 <= v && v <= 122 {
        v - 97 + 10
    } else if 65 <= v && v <= 90 {
        v - 65 + 10
    } else {
        return false;
    };
    d < base
}

/// `c` has the Unicode `XID_Start` property.
pub uninterp spec fn xid_start(c: char) -> bool;

/// `c` has the Unicode `XID_Continue` property.
pub uninterp spec fn xid_continue(c: char) -> bool;

/// `c` has the Unicode `White_Space` property.
pub uninterp spec fn white_space(c: char) -> bool;

/// Relies on unicode_xid's `UnicodeXID::is_xid_start`: whether `c` has the
/// `XID_Start` property, a function of the character alone. Its ASCII fast
/// path admits only `a`–`z` and `A`–`Z` below `0x80`, so an ASCII decimal
/// digit never starts an identifier.
#[verifier::external_body]
pub fn is_xid_start_char(c: char) -> (r: bool)
    ensures
        r == xid_start(c),
        is_dec_digit(c) ==> !r,
{
    unicode_xid::UnicodeXID::is_xid_start(c)
}

/// Relies on unicode_xid's `UnicodeXID::is_xid_continue`: whether `c` has the
/// `XID_Continue` property, a function of the character alone. `XID_Continue`
/// contains `XID_Start` (Unicode Standard Annex #31, which the crate
/// implements), so a start character always continues an identifier.
#[verifier::external_body]
pub fn is_xid_continue_char(c: char) -> (r: bool)
    ensures
        r == xid_continue(c),
        xid_start(c) ==> r,
{
    unicode_xid::UnicodeXID::is_xid_continue(c)
}

/// Relies on `char::is_whitespace`: whether `c` has the `White_Space`
/// property, a function of the character alone.
#[verifier::external_body]
pub fn is_white_space_char(c: char) -> (r: bool)
    ensures
        r == white_space(c),
{
    c.is_whitespace()
}

} // verus!
