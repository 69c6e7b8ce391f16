use nertsal_bot::text::{
    concat_text, contains_text, first_word_of, is_whitespace, starts_with, str_eq, suffix_from_byte, trim,
    u64_to_string, utf8_char_len, utf8_length,
};

#[test]
fn whitespace_agrees_with_std() {
    for u in 0u32..=0x10FFFF {
        if let Some(c) = char::from_u32(u) {
            assert_eq!(is_whitespace(c), c.is_whitespace(), "char {:#x}", u);
        }
    }
}

#[test]
fn utf8_lengths_agree_with_std() {
    for s in ["", "a", "héllo", "日本語", "🎮 game", "mixed é 日 🎮"] {
        assert_eq!(utf8_length(s), s.len() as u128);
    }
    for c in ['a', 'é', '日', '🎮'] {
        assert_eq!(utf8_char_len(c), c.len_utf8());
    }
}

#[test]
fn trim_agrees_with_std() {
    for s in ["", "   ", "  a b  ", "\t!queue\n", "\u{3000}x\u{2003}", "no-space"] {
        assert_eq!(trim(s), s.trim());
    }
}

#[test]
fn first_word_agrees_with_split_whitespace() {
    for s in ["", "   ", "  first second", "one", "\tword\nrest"] {
        assert_eq!(first_word_of(s), s.split_whitespace().next());
    }
}

#[test]
fn prefix_infix_and_equality() {
    assert!(starts_with("!submit link", "!submit"));
    assert!(!starts_with("!sub", "!submit"));
    assert!(contains_text("what is your age", "your"));
    assert!(!contains_text("hello", "world"));
    assert!(contains_text("abc", ""));
    assert!(str_eq("same", "same"));
    assert!(!str_eq("same", "Same"));
    assert_eq!(concat_text("ab", "cd"), "abcd");
}

#[test]
fn suffix_from_byte_cuts_only_at_characters() {
    assert_eq!(suffix_from_byte("héllo", 3), Some("llo"));
    assert_eq!(suffix_from_byte("héllo", 2), None);
    assert_eq!(suffix_from_byte("abc", 3), Some(""));
    assert_eq!(suffix_from_byte("abc", 4), None);
}

#[test]
fn decimal_text() {
    for n in [0u64, 7, 10, 42, 1000, 123456789, u64::MAX] {
        assert_eq!(u64_to_string(n), n.to_string());
    }
}
