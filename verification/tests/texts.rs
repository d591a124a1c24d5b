use rustwright::percent::{data_url, percent_encode};
use rustwright::text::{chars_of, contains_text, decimal, same_text, text_of};
use rustwright::trim::{is_blank, trim, white_space};

#[test]
fn numbers_are_printed_in_decimal() {
    assert_eq!(decimal(0), "0");
    assert_eq!(decimal(9), "9");
    assert_eq!(decimal(10), "10");
    assert_eq!(decimal(1_203), "1203");
    assert_eq!(decimal(u64::MAX), u64::MAX.to_string());
}

#[test]
fn texts_are_compared_and_searched() {
    assert!(same_text("gr\u{fc}n", "gr\u{fc}n"));
    assert!(!same_text("a", "ab"));
    assert!(!same_text("a", "b"));
    assert!(contains_text("hello world", "lo w"));
    assert!(contains_text("aab", "ab"));
    assert!(contains_text("", ""));
    assert!(contains_text("x", ""));
    assert!(!contains_text("hello", "Hello"));
    assert!(!contains_text("a", "aa"));
}

#[test]
fn texts_are_taken_apart_and_put_together() {
    let chars = chars_of("a\u{20ac}c");
    assert_eq!(chars, vec!['a', '\u{20ac}', 'c']);
    assert_eq!(text_of(&chars, 1, 3), "\u{20ac}c");
    assert_eq!(text_of(&chars, 2, 2), "");
}

#[test]
fn white_space_is_that_of_unicode() {
    for code in 0..=0x10ffff_u32 {
        if let Some(c) = char::from_u32(code) {
            assert_eq!(white_space(c), c.is_whitespace(), "{:x}", code);
        }
    }
}

#[test]
fn texts_are_trimmed() {
    for text in ["", " ", "a", "  a b\t", "\u{a0}x\u{2003}", "\n\r\u{85}y", "\u{200b}z "] {
        assert_eq!(trim(text), text.trim());
        assert_eq!(is_blank(text), text.trim().is_empty());
    }
}

#[test]
fn bytes_are_percent_encoded() {
    assert_eq!(percent_encode("AZaz09-._~"), "AZaz09-._~");
    assert_eq!(percent_encode("a b+c/d%"), "a%20b%2Bc%2Fd%25");
    assert_eq!(percent_encode("\u{e9}\u{1f600}"), "%C3%A9%F0%9F%98%80");
    assert_eq!(percent_encode("\0\x7f"), "%00%7F");
    assert_eq!(percent_encode(""), "");
}

#[test]
fn documents_become_data_urls() {
    assert_eq!(
        data_url("<p>x</p>"),
        "data:text/html;charset=utf-8,%3Cp%3Ex%3C%2Fp%3E"
    );
}
