use rusty_notes::strings::{count_words, is_whitespace, join_strings, replace_string, split_string, word_count};
use rusty_notes::text::{same_lines, Cursor, Text};

#[test]
fn new_buffer_has_one_empty_line() {
    let t = Text::new();
    assert_eq!(t.lines, vec![String::new()]);
    assert_eq!(t.cursor, Cursor(0, 0));
    assert!(t.selection_start.is_none());
}

#[test]
fn from_string_splits_on_newlines() {
    let t = Text::from_string("first\nsecond\n".to_string());
    assert_eq!(t.lines, vec!["first".to_string(), "second".to_string(), String::new()]);
    assert_eq!(t.cursor, Cursor(0, 0));
}

#[test]
fn content_round_trip_keeps_the_text() {
    for s in ["", "a", "a\nb", "\n\n", "x\n\ny\n", "- [ ] task\nnote"] {
        let t = Text::from_string(s.to_string());
        assert_eq!(t.to_content(), s);
        let again = Text::from_string(t.to_content());
        assert!(same_lines(&t.lines, &again.lines));
    }
}

#[test]
fn duplicate_copies_everything() {
    let mut t = Text::from_string("a\nb".to_string());
    t.cursor = Cursor(1, 1);
    t.selection_start = Some(Cursor(0, 0));
    let d = t.duplicate();
    assert_eq!(d, t);
}

#[test]
fn same_lines_compares_lines_only() {
    let a = vec!["x".to_string(), "y".to_string()];
    let b = vec!["x".to_string(), "y".to_string()];
    let c = vec!["x".to_string()];
    let d = vec!["x".to_string(), "z".to_string()];
    assert!(same_lines(&a, &b));
    assert!(!same_lines(&a, &c));
    assert!(!same_lines(&a, &d));
}

#[test]
fn split_and_join_strings() {
    assert_eq!(split_string("a/b//c", '/'), vec!["a", "b", "", "c"]);
    assert_eq!(split_string("", '/'), vec![""]);
    let parts = vec!["a".to_string(), "".to_string(), "é".to_string()];
    assert_eq!(join_strings(&parts, '\n'), "a\n\né");
    assert_eq!(join_strings(&Vec::new(), '\n'), "");
}

#[test]
fn replace_matches_str_replace() {
    for (s, p, r) in [
        ("aaaa", "aa", "b"),
        ("hello world", "o", "0"),
        ("abc", "x", "y"),
        ("ababab", "aba", "-"),
        ("", "a", "b"),
        ("héllo héllo", "é", "e"),
        ("abc", "", "z"),
    ] {
        assert_eq!(replace_string(s, p, r), s.replace(p, r), "{} {} {}", s, p, r);
    }
}

#[test]
fn word_count_matches_split_whitespace() {
    for s in ["", "   ", "one", " two  words ", "tab\tand\nnew line", "a\u{a0}b", "x,y z"] {
        assert_eq!(word_count(s), s.split_whitespace().count(), "{:?}", s);
    }
}

#[test]
fn count_words_adds_up_texts() {
    let texts = vec!["one two".to_string(), "".to_string(), " three ".to_string()];
    assert_eq!(count_words(&texts), Some(3));
    assert_eq!(count_words(&Vec::new()), Some(0));
}

#[test]
fn white_space_is_unicode_white_space() {
    for c in (0..=0x10FFFFu32).filter_map(char::from_u32) {
        assert_eq!(is_whitespace(c), c.is_whitespace(), "{:?}", c);
    }
}

#[test]
fn words_split_on_every_kind_of_white_space() {
    assert_eq!(word_count("a b"), 2);
    assert_eq!(word_count("a\u{3000}b\u{85}c\u{2029}d"), 4);
    assert_eq!(word_count("\u{200b}"), 1);
    assert_eq!(word_count(" \u{2000}\u{205f} "), 0);
}
