//! The flat JSON-object parser and its lookup rule.

use exhibitor_harvest::flatjson::{lookup, parse_flat_map};

#[test]
fn parses_pairs_in_order() {
    let pairs = parse_flat_map("{\"A\":\"1\", \"B\":\"2\"}").unwrap();
    assert_eq!(pairs.len(), 2);
    assert_eq!(pairs[0].0, "A");
    assert_eq!(pairs[0].1, "1");
    assert_eq!(pairs[1].0, "B");
    assert_eq!(pairs[1].1, "2");
}

#[test]
fn parses_empty_object() {
    let pairs = parse_flat_map("{ }").unwrap();
    assert_eq!(pairs.len(), 0);
}

#[test]
fn decodes_string_escapes() {
    let pairs = parse_flat_map("{\"K\":\"a\\\"b\\\\c\\/d\"}").unwrap();
    assert_eq!(pairs[0].1, "a\"b\\c/d");
}

#[test]
fn rejects_unquoted_values() {
    assert!(parse_flat_map("{\"A\":1}").is_none());
}

#[test]
fn rejects_trailing_comma() {
    assert!(parse_flat_map("{\"A\":\"1\",}").is_none());
}

#[test]
fn rejects_missing_brace() {
    assert!(parse_flat_map("\"A\":\"1\"}").is_none());
}

#[test]
fn lookup_takes_the_last_duplicate() {
    let pairs = parse_flat_map("{\"CITY\":\"First\",\"CITY\":\"Second\"}").unwrap();
    assert_eq!(lookup(&pairs, "CITY"), Some(String::from("Second")));
    assert_eq!(lookup(&pairs, "ZIP"), None);
}
