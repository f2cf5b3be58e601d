use rusty_notes::key::{Key, KeyCode};
use rusty_notes::text::{Cursor, Text};

fn plain(code: KeyCode) -> Key {
    Key { code, ctrl: false, shift: false }
}

#[test]
fn typing_then_backspace_gives_the_line_back() {
    let mut t = Text::from_string("abc\ndef".to_string());
    t.cursor = Cursor(1, 2);
    t.apply_key(&plain(KeyCode::Char('é')));
    assert_eq!(t.lines, vec!["abc".to_string(), "deéf".to_string()]);
    assert_eq!(t.cursor, Cursor(1, 3));
    t.apply_key(&plain(KeyCode::Backspace));
    assert_eq!(t.lines, vec!["abc".to_string(), "def".to_string()]);
    assert_eq!(t.cursor, Cursor(1, 2));
}

#[test]
fn column_past_the_line_end_counts_as_its_end() {
    let mut t = Text::from_string("ab".to_string());
    t.cursor = Cursor(0, 9);
    t.apply_key(&plain(KeyCode::Char('!')));
    assert_eq!(t.lines, vec!["ab!".to_string()]);
    assert_eq!(t.cursor, Cursor(0, 3));
}

#[test]
fn inserting_and_deleting_spans_lines() {
    let mut t = Text::from_string("one\ntwo".to_string());
    t.cursor = Cursor(0, 1);
    t.insert_chars(&"X\nY\nZ".chars().collect());
    assert_eq!(t.lines, vec!["oX".to_string(), "Y".to_string(), "Zne".to_string(), "two".to_string()]);
    assert_eq!(t.cursor, Cursor(2, 1));
    t.delete_between(Cursor(0, 1), Cursor(2, 1));
    assert_eq!(t.lines, vec!["one".to_string(), "two".to_string()]);
    assert_eq!(t.cursor, Cursor(0, 1));
}

#[test]
fn other_keys_leave_the_buffer() {
    let mut t = Text::from_string("x".to_string());
    for code in [KeyCode::Other, KeyCode::Esc, KeyCode::Home, KeyCode::End, KeyCode::PageUp] {
        t.apply_key(&plain(code));
    }
    t.apply_key(&Key { code: KeyCode::Char('q'), ctrl: true, shift: false });
    assert_eq!(t.lines, vec!["x".to_string()]);
    assert_eq!(t.cursor, Cursor(0, 0));
}
