//! Decimal and JSON string codecs.

use thought::text::{format_u64, join_strings, parse_quoted, split_string, str_ends_with, str_eq};

fn quoted_string(s: &str) -> String {
    let mut out = String::new();
    thought::text::append_quoted(&mut out, s);
    out
}

#[test]
fn decimal_zero() {
    assert_eq!(format_u64(0), "0");
}

#[test]
fn decimal_digits() {
    assert_eq!(format_u64(12345), "12345");
    assert_eq!(format_u64(u64::MAX), "18446744073709551615");
}

#[test]
fn quoting_plain() {
    assert_eq!(quoted_string("hello"), "\"hello\"");
}

#[test]
fn quoting_escapes() {
    assert_eq!(quoted_string("a\"b\\c"), "\"a\\\"b\\\\c\"");
    assert_eq!(quoted_string("line\nbreak"), "\"line\\u000abreak\"");
}

#[test]
fn quoting_is_valid_json() {
    let encoded = quoted_string("tab\t quote\" back\\ end");
    let decoded: String = serde_json::from_str(&encoded).unwrap();
    assert_eq!(decoded, "tab\t quote\" back\\ end");
}

#[test]
fn parse_quoted_roundtrip() {
    let encoded = quoted_string("a\"b\\c\nd");
    let parsed = parse_quoted(&encoded, 0).unwrap();
    assert_eq!(parsed.0, "a\"b\\c\nd");
    assert_eq!(parsed.1, encoded.chars().count());
}

#[test]
fn parse_quoted_rejects_unopened() {
    assert!(parse_quoted("hello", 0).is_none());
}

#[test]
fn split_and_join() {
    let parts = split_string("a/b//c", '/');
    assert_eq!(parts, vec!["a", "b", "", "c"]);
    assert_eq!(join_strings(&parts, "/"), "a/b//c");
}

#[test]
fn string_predicates() {
    assert!(str_eq("abc", "abc"));
    assert!(!str_eq("abc", "abd"));
    assert!(str_ends_with("main.wasm", ".wasm"));
    assert!(!str_ends_with("wasm", ".wasm"));
}
