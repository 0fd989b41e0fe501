use ttml_processor::normalize_text_whitespace;
use ttml_processor::text::{clean_parentheses_from_bg_text, trim_text};

#[test]
fn normalize_collapses_runs_of_whitespace() {
    assert_eq!(normalize_text_whitespace("  Hello   world \n"), "Hello world");
    assert_eq!(normalize_text_whitespace("a\tb\u{3000}c"), "a b c");
    assert_eq!(normalize_text_whitespace(""), "");
    assert_eq!(normalize_text_whitespace(" \n\t "), "");
    assert_eq!(normalize_text_whitespace("one"), "one");
}

#[test]
fn normalize_is_idempotent_on_samples() {
    for sample in ["  a  b ", "x", "", "\u{2003}q\u{a0}\u{a0}r ", "already fine"] {
        let once = normalize_text_whitespace(sample);
        assert_eq!(normalize_text_whitespace(&once), once);
    }
}

#[test]
fn trim_removes_unicode_whitespace() {
    assert_eq!(trim_text("\u{3000} hi \u{85}"), "hi");
    assert_eq!(trim_text("\u{200b}hi"), "\u{200b}hi");
}

#[test]
fn parentheses_are_stripped_from_background_text() {
    assert_eq!(clean_parentheses_from_bg_text("(echo)"), "echo");
    assert_eq!(clean_parentheses_from_bg_text(" ((echo)) "), "echo");
    assert_eq!(clean_parentheses_from_bg_text("\u{ff08}echo\u{ff09}"), "echo");
    assert_eq!(clean_parentheses_from_bg_text("( a b )"), "a b");
    assert_eq!(clean_parentheses_from_bg_text("()"), "");
    assert_eq!(clean_parentheses_from_bg_text("a(b)c"), "a(b)c");
}
