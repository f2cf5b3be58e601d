use rusty_notes::text::{Cursor, Text};
use rusty_notes::undo::{Snapshot, UndoStack};

fn snap(s: &str) -> Snapshot {
    let t = Text::from_string(s.to_string());
    let cursor = t.cursor;
    Snapshot { text: t, cursor }
}

fn lines(s: &Snapshot) -> Vec<String> {
    s.text.lines.clone()
}

#[test]
fn undo_returns_last_pushed() {
    let mut u = UndoStack::new();
    u.push(snap("a"));
    let back = u.undo(snap("b")).unwrap();
    assert_eq!(lines(&back), vec!["a".to_string()]);
}

#[test]
fn undo_on_empty_history_gives_nothing() {
    let mut u = UndoStack::new();
    assert!(u.undo(snap("x")).is_none());
    assert!(u.redo(snap("x")).is_none());
}

#[test]
fn undo_then_redo_hands_back_the_current_state() {
    let mut u = UndoStack::new();
    u.push(snap("one"));
    u.push(snap("two"));
    let back = u.undo(snap("three")).unwrap();
    assert_eq!(lines(&back), vec!["two".to_string()]);
    let fwd = u.redo(back).unwrap();
    assert_eq!(lines(&fwd), vec!["three".to_string()]);
    let again = u.undo(fwd).unwrap();
    assert_eq!(lines(&again), vec!["two".to_string()]);
}

#[test]
fn pushing_the_same_lines_twice_records_once() {
    let mut u = UndoStack::new();
    u.push(snap("same"));
    let mut moved = snap("same");
    moved.cursor = Cursor(0, 3);
    u.push(moved);
    let first = u.undo(snap("now")).unwrap();
    assert_eq!(first.cursor, Cursor(0, 0));
    assert!(u.undo(first).is_none());
}

#[test]
fn push_forgets_what_redo_could_restore() {
    let mut u = UndoStack::new();
    u.push(snap("a"));
    let back = u.undo(snap("b")).unwrap();
    u.push(back);
    assert!(u.redo(snap("c")).is_none());
}

#[test]
fn history_keeps_at_most_a_hundred_snapshots() {
    let mut u = UndoStack::new();
    for i in 0..150 {
        u.push(snap(&format!("line {}", i)));
    }
    let mut count = 0;
    let mut last = String::new();
    while let Some(s) = u.undo(snap("current")) {
        count += 1;
        last = s.text.lines[0].clone();
    }
    assert_eq!(count, 100);
    assert_eq!(last, "line 50");
}
