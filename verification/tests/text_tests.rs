use rusty::text::{equals_word, folds_to_word, is_white_space_char, trim};

#[test]
fn trim_removes_unicode_whitespace_at_both_ends() {
    assert_eq!(trim("  hello world\t\n"), "hello world");
    assert_eq!(trim("\u{3000}\u{a0}x\u{2028}"), "x");
    assert_eq!(trim("   "), "");
    assert_eq!(trim(""), "");
    assert_eq!(trim("a b"), "a b");
}

#[test]
fn trim_agrees_with_std() {
    for s in ["  a ", "\u{85}b\u{205f}", "\u{200b}c", " \u{1680} "] {
        assert_eq!(trim(s), s.trim());
    }
}

#[test]
fn whitespace_is_the_unicode_property() {
    for c in ['\t', '\n', '\r', ' ', '\u{85}', '\u{a0}', '\u{2000}', '\u{200a}', '\u{3000}'] {
        assert!(is_white_space_char(c));
        assert!(c.is_whitespace());
    }
    for c in ['a', '\u{200b}', '_', '\u{feff}'] {
        assert!(!is_white_space_char(c));
        assert!(!c.is_whitespace());
    }
}

#[test]
fn folding_compares_in_ascii_lower_case() {
    let done = vec!['d', 'o', 'n', 'e'];
    assert!(folds_to_word("DONE", &done));
    assert!(folds_to_word("dOnE", &done));
    assert!(!folds_to_word("don", &done));
    assert!(!folds_to_word("donee", &done));
}

#[test]
fn equality_is_exact() {
    let w = vec!['-', 'r'];
    assert!(equals_word("-r", &w));
    assert!(!equals_word("-R", &w));
}
