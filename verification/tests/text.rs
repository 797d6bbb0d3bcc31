//! Text helpers.

use meeting_recorder::text::{
    contains_substring, decimal_text, is_blank, is_white_space, same_text, signed_decimal_text,
};

#[test]
fn numbers_are_written_in_base_ten() {
    for n in [0u64, 9, 10, 4_200, u64::MAX] {
        assert_eq!(decimal_text(n), n.to_string());
    }
    for n in [0i64, -1, 17, i64::MIN, i64::MAX] {
        assert_eq!(signed_decimal_text(n), n.to_string());
    }
}

#[test]
fn white_space_is_what_unicode_says_it_is() {
    for code in 0..=0x10_ffff_u32 {
        if let Some(c) = char::from_u32(code) {
            assert_eq!(is_white_space(c), c.is_whitespace(), "U+{code:04X}");
        }
    }
}

#[test]
fn a_blank_text_is_empty_once_trimmed() {
    for text in ["", " ", "\t\r\n", "\u{2003}\u{3000}", " a ", "a", "\u{200b}"] {
        assert_eq!(is_blank(text), text.trim().is_empty(), "{text:?}");
    }
}

#[test]
fn substrings_are_found_anywhere() {
    assert!(contains_substring("permission denied", "denied"));
    assert!(contains_substring("denied", "denied"));
    assert!(contains_substring("abc", ""));
    assert!(!contains_substring("abc", "abcd"));
    assert!(!contains_substring("aab", "ba"));
    assert!(same_text("相手", "相手"));
    assert!(!same_text("a", "A"));
}
