use literal_scanners::{decimal_integer, float, identifier, integer, string, whitespace};

#[test]
fn it_lexes_identifiers() {
    assert!(identifier("test").is_ok());
    assert_eq!(identifier("test"), Ok(""));
    assert_eq!(identifier("test this"), Ok(" this"));
}

#[test]
fn it_lexes_decimal_integers() {
    assert!(decimal_integer("1").is_ok());
    assert_eq!(decimal_integer("10"), Ok(""));
}

#[test]
fn it_lexes_integers() {
    assert!(integer("1").is_ok());
    assert!(integer("-0").is_ok());
    assert!(integer("+0").is_ok());
    assert_eq!(integer("10"), Ok(""));
    assert_eq!(integer("0x"), Ok("x"));
    assert_eq!(integer("0xa"), Ok(""));
    assert_eq!(integer("0xaA"), Ok(""));
    assert_eq!(integer("0o"), Ok("o"));
    assert_eq!(integer("0b"), Ok("b"));
    assert_eq!(integer("16xff"), Ok(""));
    assert_eq!(integer("40x0"), Ok("x0"));
}

#[test]
fn it_lexes_floats() {
    assert!(float("1").is_err());
    assert!(float("+1").is_err());
    assert!(float("-1").is_err());
    assert_eq!(float("1.0"), Ok(""));
    assert_eq!(float("1.e10"), Ok(""));
    assert_eq!(float("1.e"), Ok("e"));
    assert!(float(".e1").is_err());
    assert!(float(".e").is_err());
}

#[test]
fn it_lexes_whitespace() {
    assert!(whitespace(" ").is_ok());
    assert_eq!(whitespace(" \t\n1"), Ok("1"));
}

#[test]
fn it_lexes_strings() {
    assert!(string("\"test\"").is_ok());
    assert_eq!(string("\"test\" rest"), Ok(" rest"));
    assert!(string("\"\\u{}\"").is_err());
    assert!(string("\"\\u{0}\"").is_ok());
    assert!(string("\"\\u{000000}\"").is_ok());
    assert!(string("\"\\u{0000000}\"").is_err());
    assert!(string("\"\\u{00000000}\"").is_err());
}
