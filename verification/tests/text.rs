use docsync::text::{
    chars_of, chain, chain3, decimal_text, is_whitespace, lex_le_chars, same_text, trim,
};

#[test]
fn decimal_writes_numbers_without_leading_zeros() {
    assert_eq!(decimal_text(0), "0");
    assert_eq!(decimal_text(7), "7");
    assert_eq!(decimal_text(10), "10");
    assert_eq!(decimal_text(42), "42");
    assert_eq!(decimal_text(1005), "1005");
    assert_eq!(decimal_text(usize::MAX), usize::MAX.to_string());
}

#[test]
fn chain_puts_texts_in_a_row() {
    assert_eq!(chain("ab", "cd"), "abcd");
    assert_eq!(chain("", "x"), "x");
    assert_eq!(chain3("a", "/", "b"), "a/b");
    assert_eq!(chain3("", "", ""), "");
}

#[test]
fn same_text_compares_characters() {
    assert!(same_text("main", "main"));
    assert!(!same_text("main", "Main"));
    assert!(!same_text("main", "mai"));
    assert!(same_text("", ""));
    assert!(same_text("é", "é"));
    assert!(!same_text("é", "e"));
}

#[test]
fn chars_of_keeps_every_character() {
    assert_eq!(chars_of("aé/"), vec!['a', 'é', '/']);
    assert_eq!(chars_of(""), Vec::<char>::new());
}

#[test]
fn trim_removes_whitespace_at_both_ends_only() {
    assert_eq!(trim("  docs/a b.md\t\n"), "docs/a b.md");
    assert_eq!(trim("docs"), "docs");
    assert_eq!(trim(" \t "), "");
    assert_eq!(trim(""), "");
    assert_eq!(trim("\u{a0}x\u{2003}"), "x");
    for s in [" a", "a ", " a b ", "\n\n", "x", "\u{3000}é\u{85}"] {
        assert_eq!(trim(s), s.trim());
    }
}

#[test]
fn dictionary_order_goes_character_by_character() {
    let le = |a: &str, b: &str| lex_le_chars(&chars_of(a), &chars_of(b));
    assert!(le("", ""));
    assert!(le("", "a"));
    assert!(!le("a", ""));
    assert!(le("a", "a"));
    assert!(le("a", "b"));
    assert!(!le("b", "a"));
    assert!(le("docs/a.md", "docs/b.md"));
    assert!(le("docs", "docs/a.md"));
    assert!(!le("docs/a.md", "docs"));
    assert!(le("Z", "a"));
    for a in ["", "a", "ab", "b", "é", "z", "docs/a", "docs-a"] {
        for b in ["", "a", "ab", "b", "é", "z", "docs/a", "docs-a"] {
            assert_eq!(le(a, b), a <= b, "{:?} <= {:?}", a, b);
        }
    }
}

#[test]
fn whitespace_is_what_the_standard_library_says() {
    let mut count = 0;
    for code in 0..=0x10FFFFu32 {
        if let Some(c) = char::from_u32(code) {
            assert_eq!(is_whitespace(c), c.is_whitespace(), "U+{:04X}", code);
            if is_whitespace(c) {
                count += 1;
            }
        }
    }
    assert_eq!(count, 25);
    assert!(is_whitespace(' ') && is_whitespace('\n') && is_whitespace('\u{3000}'));
    assert!(!is_whitespace('a') && !is_whitespace('\u{200b}') && !is_whitespace('\u{feff}'));
}
