use benito_core::text::{
    clip, decimal_text, find_nul, is_c_string, read_c_text, same_text, text_contains,
};

#[test]
fn texts_are_compared_by_content() {
    assert!(same_text("read", "read"));
    assert!(!same_text("read", "Read"));
    assert!(!same_text("read", "reader"));
    assert!(same_text("", ""));
}

#[test]
fn containment_is_found_anywhere() {
    assert!(text_contains("hello world", "hello"));
    assert!(text_contains("hello world", "o w"));
    assert!(text_contains("hello world", "world"));
    assert!(text_contains("grün", "ü"));
    assert!(text_contains("abc", ""));
    assert!(text_contains("", ""));
    assert!(!text_contains("", "a"));
    assert!(!text_contains("hello", "hello world"));
    assert!(!text_contains("aab", "abb"));
}

#[test]
fn containment_agrees_with_the_standard_library() {
    let words = ["", "a", "aa", "ab", "ba", "aba", "bab", "abab", "é", "aé", "éa"];
    for haystack in words {
        for needle in words {
            assert_eq!(text_contains(haystack, needle), haystack.contains(needle));
        }
    }
}

#[test]
fn clipping_counts_characters() {
    assert_eq!(clip("hello", 3), "hel");
    assert_eq!(clip("hello", 5), "hello");
    assert_eq!(clip("hello", 50), "hello");
    assert_eq!(clip("äöü", 2), "äö");
    assert_eq!(clip("abc", 0), "");
}

#[test]
fn numerals_have_no_leading_zeros() {
    assert_eq!(decimal_text(0), "0");
    assert_eq!(decimal_text(7), "7");
    assert_eq!(decimal_text(10), "10");
    assert_eq!(decimal_text(1_234_567_890), "1234567890");
    assert_eq!(decimal_text(u64::MAX), "18446744073709551615");
}

#[test]
fn c_strings_have_no_nul() {
    assert!(is_c_string("plain"));
    assert!(is_c_string(""));
    assert!(!is_c_string("a\0b"));
    assert!(!is_c_string("\0"));
}

#[test]
fn c_arguments_are_decoded() {
    assert_eq!(read_c_text(None), None);
    assert_eq!(read_c_text(Some(b"grok")), Some("grok".to_string()));
    assert_eq!(read_c_text(Some("grün".as_bytes())), Some("grün".to_string()));
    assert_eq!(read_c_text(Some(&[0x67, 0xff])), None);
    assert_eq!(read_c_text(Some(&[0xc0, 0x80])), None);
}

#[test]
fn nuls_are_found_by_byte() {
    assert_eq!(find_nul("plain"), None);
    assert_eq!(find_nul("\0"), Some(0));
    assert_eq!(find_nul("gr\u{fc}n\0\0"), Some(5));
}
