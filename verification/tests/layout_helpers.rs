use rusty_notes::config::{Config, DbPath};
use rusty_notes::editor::{task_counts, toggle_task_line};
use rusty_notes::layout::{centered_rect, cursor_split, search_highlight, selection_split, task_line, Area, SelectedLine, TaskLine};
use rusty_notes::note::appended_text;
use rusty_notes::text::Cursor;

fn area(width: u16, height: u16) -> Area {
    Area { x: 0, y: 0, width, height }
}

#[test]
fn centered_rect_fits_and_centres() {
    assert_eq!(centered_rect(50, 20, area(100, 40)), Area { x: 25, y: 10, width: 50, height: 20 });
    assert_eq!(centered_rect(50, 20, area(30, 10)), Area { x: 0, y: 0, width: 30, height: 10 });
    assert_eq!(centered_rect(36, 11, area(81, 24)), Area { x: 22, y: 6, width: 36, height: 11 });
}

#[test]
fn task_lines() {
    assert_eq!(task_line("- [ ] buy"), TaskLine::Open { before: String::new(), after: " buy".to_string() });
    assert_eq!(task_line("x - [x] y"), TaskLine::Done { before: "x ".to_string(), after: " y".to_string() });
    assert_eq!(task_line("- [X]"), TaskLine::Done { before: String::new(), after: String::new() });
    assert_eq!(task_line("- [x] a - [ ] b"), TaskLine::Open { before: "- [x] a ".to_string(), after: " b".to_string() });
    assert_eq!(task_line("plain"), TaskLine::Plain);
}

#[test]
fn toggling_task_lines() {
    assert_eq!(toggle_task_line("a - [ ] b"), "a - [x] b");
    assert_eq!(toggle_task_line("a - [x] b"), "a - [ ] b");
    assert_eq!(toggle_task_line("é - [X]"), "é - [ ]");
    assert_eq!(toggle_task_line("- [x] then - [ ]"), "- [x] then - [x]");
    assert_eq!(toggle_task_line("none"), "none");
}

#[test]
fn cursor_splits() {
    assert_eq!(cursor_split("abc ", 1), ("a".to_string(), 'b', "c ".to_string()));
    assert_eq!(cursor_split("abc ", 3), ("abc".to_string(), '_', String::new()));
    assert_eq!(cursor_split("abc", 7), ("abc".to_string(), '_', String::new()));
    assert_eq!(cursor_split("", 0), (String::new(), '_', String::new()));
}

#[test]
fn selection_on_one_line() {
    let lines = vec!["hello world".to_string()];
    let r = selection_split(&lines, Cursor(0, 8), Cursor(0, 2));
    assert_eq!(r, vec![SelectedLine { line: 0, before: "he".to_string(), selected: "llo wor".to_string(), after: "ld".to_string() }]);
    let r = selection_split(&lines, Cursor(0, 20), Cursor(0, 30));
    assert_eq!(r, vec![SelectedLine { line: 0, before: "hello world".to_string(), selected: String::new(), after: String::new() }]);
}

#[test]
fn selection_over_lines() {
    let lines = vec!["abc".to_string(), "def".to_string(), "ghi".to_string(), "jkl".to_string()];
    let r = selection_split(&lines, Cursor(0, 1), Cursor(3, 2));
    assert_eq!(r, vec![
        SelectedLine { line: 0, before: "a".to_string(), selected: "bc".to_string(), after: String::new() },
        SelectedLine { line: 1, before: String::new(), selected: "def".to_string(), after: String::new() },
        SelectedLine { line: 2, before: String::new(), selected: "ghi".to_string(), after: String::new() },
        SelectedLine { line: 3, before: String::new(), selected: "jk".to_string(), after: "l".to_string() },
    ]);
}

#[test]
fn search_highlights() {
    assert_eq!(search_highlight("abcabc", ""), None);
    assert_eq!(search_highlight("abcabc", "x"), None);
    assert_eq!(search_highlight("abcab", "ab"), Some(vec![
        ("ab".to_string(), true),
        ("c".to_string(), false),
        ("ab".to_string(), true),
    ]));
    assert_eq!(search_highlight("aaa", "aa"), Some(vec![("aa".to_string(), true), ("a".to_string(), false)]));
}

#[test]
fn task_counting() {
    let lines = vec!["- [ ] a".to_string(), "- [x] b".to_string(), "- [X] c".to_string(), "d".to_string()];
    assert_eq!(task_counts(&lines), (3, 2));
}

#[test]
fn capture_appends_on_a_new_line() {
    assert_eq!(appended_text("", "new"), "new");
    assert_eq!(appended_text("old", "new"), "old\nnew");
}

#[test]
fn config_defaults_and_path() {
    let c = Config::default();
    assert_eq!(c.database_path, None);
    assert!(c.side_panel_default);
    assert_eq!(c.auto_save_seconds, 30);
    assert_eq!(c.db_path(), DbPath::InDataDir("notes.db".to_string()));
    let c = Config { database_path: Some("/tmp/n.db".to_string()), ..Config::default() };
    assert_eq!(c.db_path(), DbPath::Configured("/tmp/n.db".to_string()));
}
