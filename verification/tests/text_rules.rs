use myman::text::{
    decimal_text, join_texts, same_text, split_text, split_words, text_precedes, trim_text,
};

#[test]
fn trims_spaces_tabs_and_unicode_whitespace() {
    assert_eq!(trim_text("  a b  "), "a b");
    assert_eq!(trim_text("\t\n x \r\n"), "x");
    assert_eq!(trim_text("\u{3000}全角\u{3000}"), "全角");
    assert_eq!(trim_text("   "), "");
    assert_eq!(trim_text(""), "");
}

#[test]
fn trimming_twice_is_trimming_once() {
    for s in ["  a  ", "b", " \u{a0}c d\t", ""] {
        let once = trim_text(s);
        assert_eq!(trim_text(&once), once);
    }
}

#[test]
fn splits_on_every_separator_keeping_empty_pieces() {
    assert_eq!(split_text("a,,b", ','), vec!["a", "", "b"]);
    assert_eq!(split_text("", ','), vec![""]);
    assert_eq!(split_text(",", ','), vec!["", ""]);
}

#[test]
fn splits_words_on_whitespace_runs() {
    assert_eq!(split_words("  alpha\tbeta  gamma "), vec!["alpha", "beta", "gamma"]);
    assert!(split_words("   ").is_empty());
    assert_eq!(split_words("one"), vec!["one"]);
}

#[test]
fn joins_with_separator_between_each_two() {
    let parts = vec!["a".to_owned(), "b".to_owned(), "c".to_owned()];
    assert_eq!(join_texts(&parts, ", "), "a, b, c");
    assert_eq!(join_texts(&Vec::new(), " "), "");
    assert_eq!(join_texts(&vec!["x".to_owned()], " "), "x");
}

#[test]
fn joined_tags_split_back_to_the_same_tags() {
    let tags = vec!["alpha".to_owned(), "beta".to_owned(), "gamma".to_owned()];
    let joined = join_texts(&tags, ",");
    assert_eq!(split_text(&joined, ','), tags);
}

#[test]
fn orders_texts_by_code_point_prefix_first() {
    assert!(text_precedes("a", "b"));
    assert!(!text_precedes("b", "a"));
    assert!(text_precedes("a", "ab"));
    assert!(!text_precedes("ab", "a"));
    assert!(text_precedes("B", "a"));
    assert!(!text_precedes("same", "same"));
    assert!(text_precedes("", "x"));
}

#[test]
fn order_agrees_with_string_order() {
    let samples = ["", "a", "ab", "b", "B", "é", "z", "中", "ä"];
    for x in samples {
        for y in samples {
            assert_eq!(text_precedes(x, y), x < y, "{x} vs {y}");
        }
    }
}

#[test]
fn compares_texts_by_characters() {
    assert!(same_text("abc", "abc"));
    assert!(!same_text("abc", "abd"));
    assert!(!same_text("abc", "ab"));
}

#[test]
fn writes_decimal_numerals() {
    assert_eq!(decimal_text(0), "0");
    assert_eq!(decimal_text(7), "7");
    assert_eq!(decimal_text(1234), "1234");
    assert_eq!(decimal_text(u32::MAX), "4294967295");
}
