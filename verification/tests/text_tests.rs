use cyberplug::text::{
    chars_of, contains_text, contains_word, decimal_text, is_white_space, join, same_text,
    string_of, trim, trim_quotes,
};

#[test]
fn trim_removes_surrounding_whitespace() {
    assert_eq!(trim("  \t hello world \n"), "hello world");
    assert_eq!(trim("plain"), "plain");
}

#[test]
fn trim_of_only_whitespace_is_empty() {
    assert_eq!(trim(" \t\r\n "), "");
    assert_eq!(trim(""), "");
}

#[test]
fn trim_uses_unicode_whitespace() {
    // U+3000 IDEOGRAPHIC SPACE is Unicode whitespace.
    assert_eq!(trim("\u{3000}x\u{3000}"), "x");
}

#[test]
fn trim_quotes_strips_every_surrounding_quote() {
    assert_eq!(trim_quotes("\"abc\""), "abc");
    assert_eq!(trim_quotes("\"\"x\""), "x");
    assert_eq!(trim_quotes("42"), "42");
    assert_eq!(trim_quotes("\"\""), "");
}

#[test]
fn contains_text_finds_substrings() {
    assert!(contains_text("hello", "ell"));
    assert!(contains_text("hello", "hello"));
    assert!(contains_text("hello", ""));
    assert!(!contains_text("he", "hello"));
    assert!(!contains_text("hello", "lo!"));
    assert!(contains_text("grüße", "üß"));
}

#[test]
fn decimal_text_renders_numbers() {
    assert_eq!(decimal_text(0), "0");
    assert_eq!(decimal_text(7), "7");
    assert_eq!(decimal_text(42), "42");
    assert_eq!(decimal_text(1000), "1000");
    assert_eq!(decimal_text(usize::MAX), usize::MAX.to_string());
}

#[test]
fn join_puts_separator_between_words() {
    let words = vec!["a".to_string(), "b".to_string(), "c".to_string()];
    assert_eq!(join(&words, " "), "a b c");
    assert_eq!(join(&vec!["only".to_string()], ", "), "only");
    assert_eq!(join(&vec![], ", "), "");
}

#[test]
fn contains_word_and_same_text() {
    let words = vec!["weather".to_string(), "clock".to_string()];
    assert!(contains_word(&words, "clock"));
    assert!(!contains_word(&words, "cloc"));
    assert!(same_text("ab", "ab"));
    assert!(!same_text("ab", "abc"));
}

#[test]
fn chars_round_trip() {
    let cs = chars_of("añb€");
    assert_eq!(cs, vec!['a', 'ñ', 'b', '€']);
    assert_eq!(string_of(&cs), "añb€");
}

#[test]
fn white_space_is_the_unicode_property() {
    for c in ['\t', '\n', '\u{b}', '\u{c}', '\r', ' ', '\u{85}', '\u{a0}', '\u{1680}', '\u{2000}',
        '\u{200a}', '\u{2028}', '\u{2029}', '\u{202f}', '\u{205f}', '\u{3000}']
    {
        assert!(is_white_space(c));
        assert_eq!(is_white_space(c), c.is_whitespace());
    }
    for c in ['a', '0', '\u{200b}', '\u{feff}', '\u{8}', '\u{e}', '\u{1f}', '_'] {
        assert!(!is_white_space(c));
        assert_eq!(is_white_space(c), c.is_whitespace());
    }
    for u in 0u32..0x3100 {
        if let Some(c) = char::from_u32(u) {
            assert_eq!(is_white_space(c), c.is_whitespace(), "{:x}", u);
        }
    }
}
