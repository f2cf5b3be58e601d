use rusty_notes::search::{Replace, ReplaceStage, Search};
use rusty_notes::text::Text;

fn bar(s: &str) -> Replace {
    let mut r = Replace::new();
    r.text = Text::from_string(s.to_string());
    r
}

#[test]
fn new_bars() {
    let s = Search::new();
    assert_eq!(s.text.lines, vec![String::new()]);
    let r = Replace::new();
    assert_eq!(r.text.lines, vec!["/".to_string()]);
    assert_eq!(r.stage, ReplaceStage::Search);
    assert_eq!(r.search_text(), "");
    assert_eq!(r.replacement_text(), "");
}

#[test]
fn bar_parts() {
    let r = bar("foo/bar/baz");
    assert_eq!(r.search_text(), "foo");
    assert_eq!(r.replacement_text(), "bar");
    let r = bar("plain");
    assert_eq!(r.search_text(), "plain");
    assert_eq!(r.replacement_text(), "");
}

#[test]
fn replacement_uses_second_and_rest() {
    let r = bar("x/a/b/c");
    let t = r.get_replacement().unwrap();
    assert_eq!(t.lines, vec!["x/b/c/b/c".to_string()]);
}

#[test]
fn replacement_needs_a_slash_and_a_search() {
    assert!(bar("nothing").get_replacement().is_none());
    assert!(bar("foo/").get_replacement().is_none());
    assert!(Replace::new().get_replacement().is_none());
}

#[test]
fn replacement_spans_lines() {
    let r = bar("/o/0\nfoo");
    let t = r.get_replacement().unwrap();
    assert_eq!(t.lines, vec!["/0/0".to_string(), "f00".to_string()]);
}
