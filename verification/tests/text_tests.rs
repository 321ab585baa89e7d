//! Text operations.

use toolcall::text::{
    bracket, contains, cut_after_last, decimal_text, find_from, find_opening, join, same_text,
    split, split_first, strip_prefix, strip_suffix, trim, trim_start,
};

#[test]
fn trimming_drops_unicode_white_space() {
    assert_eq!(trim(" \u{a0}\u{2003}a b\u{3000}\n"), "a b");
    assert_eq!(trim_start("\u{85} a "), "a ");
    assert_eq!(trim(" \t "), "");
    assert_eq!(trim("\u{200b}a"), "\u{200b}a");
}

#[test]
fn trimming_twice_is_trimming_once() {
    for s in ["", " a ", "a", "\u{2029} x y \u{1680}"] {
        assert_eq!(trim(trim(s)), trim(s));
        assert_eq!(trim(s), s.trim());
    }
}

#[test]
fn searching_counts_characters() {
    assert_eq!(find_from("é｜é", "é", 0), Some(0));
    assert_eq!(find_from("é｜é", "é", 1), Some(2));
    assert_eq!(find_from("abc", "", 3), Some(3));
    assert_eq!(find_from("abc", "d", 0), None);
    assert!(contains("abc", "bc") && contains("abc", "") && !contains("abc", "cb"));
    assert_eq!(split_first("a--b--c", "--"), Some(("a", "b--c")));
    assert_eq!(split_first("abc", "--"), None);
    assert_eq!(find_opening("ab[{"), Some(2));
    assert_eq!(find_opening("ab"), None);
}

#[test]
fn cutting_and_joining() {
    assert_eq!(strip_prefix("abc", "ab"), Some("c"));
    assert_eq!(strip_prefix("abc", "b"), None);
    assert_eq!(strip_suffix("abc", "bc"), Some("a"));
    assert_eq!(strip_suffix("abc", "b"), None);
    assert_eq!(cut_after_last("a]b]c", ']'), Some("a]b]"));
    assert_eq!(cut_after_last("abc", ']'), None);
    assert_eq!(split("a--b--", "--"), vec!["a", "b", ""]);
    let items = vec!["1".to_string(), "2".to_string()];
    assert_eq!(join(&items, ", "), "1, 2");
    assert_eq!(bracket(&items), "[1,2]");
    assert_eq!(bracket(&vec![]), "[]");
    assert!(same_text("a", "a") && !same_text("a", "ab") && !same_text("a", "b"));
}

#[test]
fn numbers_in_decimal() {
    assert_eq!(decimal_text(0), "0");
    assert_eq!(decimal_text(10), "10");
    assert_eq!(decimal_text(987654321), "987654321");
    assert_eq!(decimal_text(u64::MAX), "18446744073709551615");
}
