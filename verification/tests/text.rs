use ai_memory::text::{ends_with, is_blank, is_white, prefix_of, push_decimal, same_text};
use ai_memory::text::{starts_with, trim_trailing};

#[test]
fn white_space_is_that_of_unicode() {
    for n in 0..=0x10ffffu32 {
        if let Some(c) = char::from_u32(n) {
            assert_eq!(is_white(c), c.is_whitespace(), "{n:x}");
        }
    }
}

#[test]
fn decimal_numbers_have_no_leading_zeros() {
    for n in [0usize, 7, 10, 99, 100, 1009, 4096, usize::MAX] {
        let mut s = "n=".to_string();
        push_decimal(&mut s, n);
        assert_eq!(s, format!("n={n}"));
    }
}

#[test]
fn prefixes_count_characters() {
    assert_eq!(prefix_of("äöü", 2), "äö");
    assert_eq!(prefix_of("ab", 8), "ab");
    assert!(starts_with("äöü", "äö"));
    assert!(!starts_with("ä", "äö"));
    assert!(ends_with("x.md", ".md"));
    assert!(!ends_with("md", ".md"));
    assert!(same_text("a", "a"));
    assert!(!same_text("a", "b"));
    assert!(!same_text("a", "ab"));
}

#[test]
fn blank_text_is_white_space_only() {
    assert!(is_blank(""));
    assert!(is_blank(" \t\r\n\u{2003}"));
    assert!(!is_blank(" x "));
}

#[test]
fn trailing_characters_are_cut_off() {
    assert_eq!(trim_trailing("http://h/", '/'), "http://h");
    assert_eq!(trim_trailing("http://h///", '/'), "http://h");
    assert_eq!(trim_trailing("///", '/'), "");
    assert_eq!(trim_trailing("http://h", '/'), "http://h");
}
