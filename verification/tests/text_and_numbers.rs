use instavox::number::{decimal_text, hexadecimal_text, parse_i32, parse_i64};
use instavox::text::{
    after_last_separator, before_last_separator, before_separator, byte_len_of, contains,
    contains_class, ends_with, eq_ignore_case, is_before, replace, split_once, split_pieces,
    split_words, starts_with, strip_prefix, to_lower, trim_end_matches, trim_matches,
    trim_start_matches, trim_text, truncate_chars, CharClass,
};

#[test]
fn trimming_takes_white_space_off_both_ends() {
    assert_eq!(trim_text("  a b\t\n"), "a b");
    assert_eq!(trim_text("\u{3000}x\u{85}"), "x");
    assert_eq!(trim_text(" \n "), "");
    assert_eq!(trim_text(&trim_text("  a b\t\n")), trim_text("  a b\t\n"));
    for s in ["", " ", "a", " a", "a ", "\u{a0}b\u{2003}", "\u{200b}c"] {
        assert_eq!(trim_text(s), s.trim());
    }
}

#[test]
fn trimming_by_class() {
    assert_eq!(trim_matches("//a/b//", CharClass::Only('/')), "a/b");
    assert_eq!(trim_matches("(http://x.y).", CharClass::LinkPunctuation), "http://x.y");
    assert_eq!(trim_start_matches("@@al@", CharClass::Only('@')), "al@");
    assert_eq!(trim_end_matches("a//", CharClass::Only('/')), "a");
    assert_eq!(trim_end_matches("///", CharClass::Only('/')), "");
}

#[test]
fn lower_case_is_ascii_only() {
    assert_eq!(to_lower("ÀbC-9"), "Àbc-9");
    assert_eq!(to_lower(&to_lower("QWerTY")), "qwerty");
    assert!(eq_ignore_case("HeLLo", "hEllO"));
    assert!(!eq_ignore_case("É", "é"));
}

#[test]
fn searching_in_text() {
    assert!(contains("abcabd", "abd"));
    assert!(!contains("abcab", "abd"));
    assert!(contains("", ""));
    assert!(starts_with("https://a", "https://"));
    assert!(!starts_with("http", "https"));
    assert!(ends_with("a.png", ".png"));
    assert!(!ends_with("png", ".png"));
    assert!(contains_class("a b", CharClass::White));
    assert!(!contains_class("ab", CharClass::Only('@')));
    assert_eq!(strip_prefix("acct:x", "acct:"), Some("x".to_string()));
    assert_eq!(strip_prefix("x", "acct:"), None);
}

#[test]
fn splitting_text() {
    assert_eq!(split_words("  one\ttwo \n three "), vec!["one", "two", "three"]);
    assert!(split_words(" \n").is_empty());
    assert_eq!(split_pieces("a,,b", ','), vec!["a", "", "b"]);
    assert_eq!(split_pieces("", ','), vec![""]);
    assert_eq!(split_once("a@b@c", '@'), Some(("a".to_string(), "b@c".to_string())));
    assert_eq!(split_once("abc", '@'), None);
    assert_eq!(before_separator("host:80", ':'), "host");
    assert_eq!(before_separator("host", ':'), "host");
    assert_eq!(after_last_separator("a.b.c", '.'), "c");
    assert_eq!(after_last_separator("abc", '.'), "abc");
    assert_eq!(before_last_separator("a.b.c", '.'), "a.b");
    assert_eq!(before_last_separator("abc", '.'), "abc");
}

#[test]
fn replacing_and_cutting_text() {
    assert_eq!(replace("a\r\nb\r\n", "\r\n", "\n"), "a\nb\n");
    assert_eq!(replace("aaa", "aa", "b"), "ba");
    assert_eq!(truncate_chars("äöü", 2), "äö");
    assert_eq!(truncate_chars("ab", 5), "ab");
    assert_eq!(byte_len_of("äb"), 3);
}

#[test]
fn order_of_texts_is_that_of_strings() {
    let samples = ["", "a", "ab", "b", "B", "é", "z\u{10000}"];
    for a in samples {
        for b in samples {
            assert_eq!(is_before(a, b), a < b);
            assert!(!(is_before(a, b) && is_before(b, a)));
        }
    }
}

#[test]
fn integers_round_trip() {
    for n in [0, 7, -1, 10, 1234567890, i64::MAX, i64::MIN] {
        assert_eq!(decimal_text(n), n.to_string());
        assert_eq!(parse_i64(&decimal_text(n)), Some(n));
    }
    assert_eq!(hexadecimal_text(0), "0");
    assert_eq!(hexadecimal_text(48879), "beef");
}

#[test]
fn reading_integers() {
    for s in ["", "+", "-", "+5", "-0", "007", "12a", " 1", "9223372036854775808", "-9223372036854775808"] {
        assert_eq!(parse_i64(s), s.parse::<i64>().ok());
        assert_eq!(parse_i32(s), s.parse::<i32>().ok());
    }
}
