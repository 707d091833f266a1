use literal_scanners::{
    char_escape, classify_prefix, decimal_integer, digit_in, float, identifier, integer,
    some_char, string, whitespace, RadixDecision,
};

/// A successful result is a suffix of the input, and so is the position a
/// failure reports.
#[test]
fn results_are_suffixes() {
    let inputs = [
        "test this", "a1_b c", " \t\n1", "10 20", "0xaA;", "16xff,", "40x0", "1.e10 x",
        "1.2.3", "\"a\\n b\" x", "'q' r", "09", "0o18", "\"unterminated",
    ];
    type Scanner = fn(&str) -> Result<&str, literal_scanners::Error<'_>>;
    let scanners: [Scanner; 6] = [identifier, whitespace, decimal_integer, integer, float, string];
    for input in inputs {
        for scan in scanners {
            match scan(input) {
                Ok(rest) => assert!(input.ends_with(rest)),
                Err(e) => assert!(input.ends_with(e.rest)),
            }
        }
    }
}

#[test]
fn identifier_classes() {
    assert_eq!(identifier("a1_b c"), Ok(" c"));
    assert_eq!(identifier("λx y"), Ok(" y"));
    assert!(identifier("").is_err());
    assert!(identifier("1abc").is_err());
    assert!(identifier(" x").is_err());
    assert_eq!(identifier("").unwrap_err().rest, "");
    assert_eq!(identifier("1abc").unwrap_err().rest, "1abc");
}

#[test]
fn decimal_integer_rejects_leading_zero() {
    assert!(decimal_integer("0").is_err());
    assert!(decimal_integer("01").is_err());
    assert!(decimal_integer("").is_err());
    assert_eq!(decimal_integer("1x"), Ok("x"));
    assert_eq!(decimal_integer("907 "), Ok(" "));
}

#[test]
fn integer_radix_prefixes() {
    assert_eq!(integer("0o17;"), Ok(";"));
    assert_eq!(integer("0b101 "), Ok(" "));
    assert_eq!(integer("-0xff"), Ok(""));
    assert_eq!(integer("+0b1"), Ok(""));
    assert_eq!(integer("8x7"), Ok("x7"));
    assert_eq!(integer("36xz"), Ok(""));
    assert_eq!(integer("37x0"), Ok("x0"));
    assert_eq!(integer("7"), Ok(""));
    assert_eq!(integer("7."), Ok("."));
}

/// A decimal digit that is not a digit of the resolved radix is a malformed
/// literal: the failure points at the offending character.
#[test]
fn integer_invalid_digit_is_hard_failure() {
    assert_eq!(integer("09").unwrap_err().rest, "09");
    assert_eq!(integer("0o18").unwrap_err().rest, "8");
    assert_eq!(integer("0b12").unwrap_err().rest, "2");
    assert_eq!(integer("079"), Err(literal_scanners::Error { rest: "9" }));
}

/// The sign is only consumed when the radix rules match after it; otherwise
/// the scan falls back to reading decimal digits from the very start, where
/// the sign itself stops the run at once.
#[test]
fn integer_fallback_rereads_from_the_start() {
    assert_eq!(integer("+10"), Ok("+10"));
    assert_eq!(integer("x"), Ok("x"));
    assert_eq!(integer(""), Ok(""));
}

#[test]
fn classify_prefix_decisions() {
    assert_eq!(classify_prefix("0x1"), RadixDecision::Run { base: 16, skip: 2 });
    assert_eq!(classify_prefix("-0x1"), RadixDecision::Run { base: 16, skip: 3 });
    assert_eq!(classify_prefix("0o7"), RadixDecision::Run { base: 8, skip: 2 });
    assert_eq!(classify_prefix("071"), RadixDecision::Run { base: 8, skip: 1 });
    assert_eq!(classify_prefix("09"), RadixDecision::BadOctal);
    assert_eq!(classify_prefix("16xff"), RadixDecision::Run { base: 16, skip: 3 });
    assert_eq!(classify_prefix("40x0"), RadixDecision::Run { base: 10, skip: 0 });
    assert_eq!(classify_prefix("7"), RadixDecision::One { skip: 1 });
    assert_eq!(classify_prefix("+7"), RadixDecision::One { skip: 2 });
    assert_eq!(classify_prefix("10"), RadixDecision::Run { base: 10, skip: 0 });
}

#[test]
fn float_shapes() {
    assert_eq!(float(".5"), Ok(""));
    assert_eq!(float("-1.5e3 x"), Ok(" x"));
    assert_eq!(float("1e5"), Ok(""));
    assert_eq!(float("1.2.3"), Ok(".3"));
    assert_eq!(float("1e2e3"), Ok("e3"));
    assert!(float("e1").is_err());
    assert!(float("").is_err());
    assert_eq!(float("+").unwrap_err().rest, "+");
    assert_eq!(float(".e1").unwrap_err().rest, ".e1");
}

#[test]
fn escape_shapes() {
    assert_eq!(char_escape("n rest"), Ok(" rest"));
    assert_eq!(char_escape("0;"), Ok(";"));
    assert_eq!(char_escape("x41z"), Ok("z"));
    assert_eq!(char_escape("u{1F600} ok"), Ok(" ok"));
    assert_eq!(char_escape("u{abcdef}"), Ok(""));
    assert!(char_escape("").is_err());
    assert_eq!(char_escape("q").unwrap_err().rest, "q");
    assert_eq!(char_escape("x4").unwrap_err().rest, "");
    assert_eq!(char_escape("xg").unwrap_err().rest, "g");
    assert_eq!(char_escape("u{}").unwrap_err().rest, "}");
    assert_eq!(char_escape("u{1234567}").unwrap_err().rest, "7}");
    assert_eq!(char_escape("ux").unwrap_err().rest, "x");
}

#[test]
fn string_delimiters_and_escapes() {
    assert_eq!(string("'a' x"), Ok(" x"));
    assert_eq!(string("'a\"'"), Ok(""));
    assert_eq!(string("\"a\\n b\" x"), Ok(" x"));
    assert_eq!(string("\"\\x41\""), Ok(""));
    assert!(string("x\"a\"").is_err());
    assert!(string("").is_err());
    assert_eq!(string("\"abc").unwrap_err().rest, "");
    assert_eq!(string("\"a\\q\"").unwrap_err().rest, "q\"");
}

/// Re-scanning the remaining input of a success never picks up a leftover
/// piece of the token just consumed.
#[test]
fn rescanning_the_remaining_input() {
    assert!(identifier(identifier("test this").unwrap()).is_err());
    assert!(whitespace(whitespace(" \t\n1").unwrap()).is_err());
    assert!(decimal_integer(decimal_integer("10 20").unwrap()).is_err());
    // the integer scanner consumes nothing of the remaining input
    let rest = integer("40x0").unwrap();
    assert_eq!(integer(rest), Ok(rest));
    assert!(float(float("1.e").unwrap()).is_err());
    assert!(string(string("\"test\" rest").unwrap()).is_err());
}

#[test]
fn digit_values() {
    assert!(digit_in('f', 16));
    assert!(!digit_in('8', 8));
    assert!(digit_in('z', 36));
    assert!(digit_in('Z', 36));
    assert!(digit_in('0', 1));
    assert!(!digit_in('0', 0));
    assert!(!digit_in('!', 36));
}

#[test]
fn some_char_applies_the_predicate() {
    assert!(some_char(Some('a'), |c| c == 'a'));
    assert!(!some_char(Some('b'), |c| c == 'a'));
    assert!(!some_char(None, |_c| true));
}
