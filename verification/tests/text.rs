use serde_seeded::literal::{hex, write_byte_string_literal, write_string_literal};
use serde_seeded::text::{clone_opt, clone_strings, decimal, str_eq};

#[test]
fn decimal_writes_digits() {
    assert_eq!(decimal(0), "0");
    assert_eq!(decimal(7), "7");
    assert_eq!(decimal(9), "9");
    assert_eq!(decimal(10), "10");
    assert_eq!(decimal(1234567890), "1234567890");
    assert_eq!(decimal(4294967295), "4294967295");
    assert_eq!(decimal(u64::MAX), "18446744073709551615");
}

#[test]
fn hex_writes_digits_in_lower_case() {
    assert_eq!(hex(0), "0");
    assert_eq!(hex(9), "9");
    assert_eq!(hex(10), "a");
    assert_eq!(hex(15), "f");
    assert_eq!(hex(16), "10");
    assert_eq!(hex(0xe9), "e9");
    assert_eq!(hex(0x1f600), "1f600");
    assert_eq!(hex(u32::MAX), "ffffffff");
}

#[test]
fn strings_are_compared_by_their_characters() {
    assert!(str_eq("", ""));
    assert!(str_eq("seeded", "seeded"));
    assert!(!str_eq("seeded", "seede"));
    assert!(!str_eq("seeded", "Seeded"));
}

#[test]
fn copies_are_equal() {
    let v = vec!["a".to_string(), String::new(), "bc".to_string()];
    assert_eq!(clone_strings(&v), v);
    assert_eq!(clone_strings(&vec![]), Vec::<String>::new());
    assert_eq!(clone_opt(&Some("x".to_string())), Some("x".to_string()));
    assert_eq!(clone_opt(&None), None);
}

#[test]
fn a_string_literal_denotes_its_string() {
    assert_eq!(write_string_literal(""), "\"\"");
    assert_eq!(write_string_literal("foo"), "\"foo\"");
    assert_eq!(write_string_literal("a b~"), "\"a b~\"");
    assert_eq!(write_string_literal("a\"b"), "\"a\\u{22}b\"");
    assert_eq!(write_string_literal("a\\b"), "\"a\\u{5c}b\"");
    assert_eq!(write_string_literal("a\nb"), "\"a\\u{a}b\"");
    assert_eq!(write_string_literal("é"), "\"\\u{e9}\"");
    assert_eq!(write_string_literal("\u{1f600}\0"), "\"\\u{1f600}\\u{0}\"");
    for s in ["", "foo", "a\"b\\c", "tab\there", "é\u{1f600}\0\u{7f}", "{}'`"] {
        let lit = syn::parse_str::<syn::LitStr>(&write_string_literal(s)).unwrap();
        assert_eq!(lit.value(), s);
    }
}

#[test]
fn a_byte_string_literal_denotes_its_bytes() {
    assert_eq!(write_byte_string_literal(b""), "b\"\"");
    assert_eq!(write_byte_string_literal(b"foo"), "b\"foo\"");
    assert_eq!(write_byte_string_literal(b"a\"b"), "b\"a\\x22b\"");
    assert_eq!(write_byte_string_literal(b"a\\b"), "b\"a\\x5cb\"");
    assert_eq!(write_byte_string_literal(&[0, 10, 127, 128, 255]), "b\"\\x00\\x0a\\x7f\\x80\\xff\"");
    assert_eq!(write_byte_string_literal("é".as_bytes()), "b\"\\xc3\\xa9\"");
    let all: Vec<u8> = (0..=255).collect();
    let lit = syn::parse_str::<syn::LitByteStr>(&write_byte_string_literal(&all)).unwrap();
    assert_eq!(lit.value(), all);
}
