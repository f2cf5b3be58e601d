use rusty_notes::action::Action;
use rusty_notes::date::{Date, Timestamp};
use rusty_notes::editor::Editor;
use rusty_notes::editor_state::EditorState;
use rusty_notes::key::{Key, KeyCode};
use rusty_notes::note::Note;
use rusty_notes::session::{AppMode, Command, Session};
use rusty_notes::text::Cursor;
use rusty_notes::title_screen::{tag_filter_rows, EntryPicker, TagFilterState, TitleScreenComponent, TitleScreenState};

fn d(year: i32, month: u32, day: u32) -> Date {
    Date { year, month, day }
}

fn key(code: KeyCode) -> Key {
    Key { code, ctrl: false, shift: false }
}

fn ctrl(c: char) -> Key {
    Key { code: KeyCode::Char(c), ctrl: true, shift: false }
}

fn note(text: &str, date: Date) -> Note {
    Note { id: 7, text: text.to_string(), creation_date: date, last_edited: Timestamp { secs: 100, nanos: 5 } }
}

#[test]
fn title_screen_menu() {
    let today = d(2024, 6, 1);
    let mut t = TitleScreenComponent::new();
    assert_eq!(t.handle_event_on(key(KeyCode::Char('t')), &today), Action::OpenTodaysEntry);
    assert_eq!(t.handle_event_on(key(KeyCode::Char('c')), &today), Action::OpenCalendar);
    assert_eq!(t.handle_event_on(key(KeyCode::Char('g')), &today), Action::BrowseByTag);
    assert_eq!(t.handle_event_on(key(KeyCode::Char('q')), &today), Action::Quit);
    assert_eq!(t.handle_event_on(key(KeyCode::Esc), &today), Action::Quit);
    assert_eq!(t.handle_event_on(key(KeyCode::Char('z')), &today), Action::Noop);
    assert!(!t.show_help());
    t.handle_event_on(key(KeyCode::Char('?')), &today);
    assert!(t.show_help());
    assert_eq!(t.handle_event_on(key(KeyCode::Char('s')), &today), Action::Noop);
    assert_eq!(t.state, TitleScreenState::Stats);
    assert_eq!(t.handle_event_on(key(KeyCode::Char('t')), &today), Action::Noop);
    assert_eq!(t.state, TitleScreenState::Stats);
    t.handle_event_on(key(KeyCode::Backspace), &today);
    assert_eq!(t.state, TitleScreenState::Options);
    t.update_stats(3, 42);
    assert_eq!((t.note_count(), t.word_count()), (3, 42));
}

#[test]
fn title_screen_entry_picker() {
    let today = d(2024, 6, 1);
    let mut t = TitleScreenComponent::new();
    t.handle_event_on(key(KeyCode::Char('o')), &today);
    assert_eq!(t.state, TitleScreenState::EntryPicker(EntryPicker { input: "010624".to_string(), cursor: 0 }));
    t.handle_event_on(key(KeyCode::Char('3')), &today);
    t.handle_event_on(key(KeyCode::Char('1')), &today);
    t.handle_event_on(key(KeyCode::Right), &today);
    t.handle_event_on(key(KeyCode::Char('5')), &today);
    assert_eq!(t.state, TitleScreenState::EntryPicker(EntryPicker { input: "310524".to_string(), cursor: 4 }));
    assert_eq!(t.handle_event_on(key(KeyCode::Enter), &today), Action::OpenNote(d(2024, 5, 31)));
    assert_eq!(t.state, TitleScreenState::Options);
    t.handle_event_on(key(KeyCode::Char('o')), &today);
    t.handle_event_on(key(KeyCode::Char('3')), &today);
    assert_eq!(t.handle_event_on(key(KeyCode::Enter), &today), Action::Noop);
    assert!(matches!(t.state, TitleScreenState::EntryPicker(_)));
    t.handle_event_on(key(KeyCode::Esc), &today);
    assert_eq!(t.state, TitleScreenState::Options);
}

#[test]
fn title_screen_tag_browser() {
    let today = d(2024, 6, 1);
    let mut t = TitleScreenComponent::new();
    t.start_tag_filter(vec!["work".to_string(), "home".to_string()]);
    t.handle_event_on(key(KeyCode::Up), &today);
    t.handle_event_on(key(KeyCode::Down), &today);
    t.handle_event_on(key(KeyCode::Down), &today);
    assert_eq!(t.handle_event_on(key(KeyCode::Enter), &today), Action::LoadTagNotes("home".to_string()));
    t.set_filtered_notes(vec![note("a", d(2024, 1, 1)), note("b", d(2024, 2, 2))]);
    t.handle_event_on(key(KeyCode::Down), &today);
    t.handle_event_on(key(KeyCode::Down), &today);
    assert_eq!(t.handle_event_on(key(KeyCode::Enter), &today), Action::OpenNote(d(2024, 2, 2)));
    assert_eq!(t.state, TitleScreenState::Options);
    t.start_tag_filter(vec!["x".to_string()]);
    t.set_filtered_notes(Vec::new());
    assert_eq!(t.handle_event_on(key(KeyCode::Enter), &today), Action::Noop);
    t.handle_event_on(key(KeyCode::Esc), &today);
    match &t.state {
        TitleScreenState::TagFilter(tf) => assert!(!tf.browsing_notes),
        _ => panic!("tag browser closed too early"),
    }
    t.handle_event_on(key(KeyCode::Esc), &today);
    assert_eq!(t.state, TitleScreenState::Options);
    t.set_filtered_notes(vec![note("a", d(2024, 1, 1))]);
    assert_eq!(t.state, TitleScreenState::Options);
}

fn editor_with(text: &str) -> Editor {
    Editor::from_note(note(text, d(2024, 4, 4)))
}

#[test]
fn editor_from_note_and_back() {
    let e = editor_with("one\ntwo");
    assert_eq!(e.text.lines, vec!["one".to_string(), "two".to_string()]);
    assert_eq!(e.current_note_text(), "one\ntwo");
    assert_eq!(e.creation_date, d(2024, 4, 4));
    assert!(!e.write);
    assert!(e.side_panel);
    let fresh = Editor::new();
    assert_eq!(fresh.text.lines, vec![String::new()]);
}

#[test]
fn editor_global_keys() {
    let mut e = editor_with("x");
    assert_eq!(e.handle_event(ctrl('w')), Action::Noop);
    assert!(e.write);
    e.handle_event(ctrl('j'));
    assert!(!e.side_panel);
    e.handle_event(ctrl('?'));
    assert!(e.show_help);
    assert_eq!(e.handle_event(ctrl('q')), Action::BackToTitle);
    assert_eq!(e.state, EditorState::Exit);
    assert_eq!(e.handle_event(key(KeyCode::Char('a'))), Action::BackToTitle);
}

#[test]
fn editor_cursor_keys() {
    let mut e = editor_with("héllo\nb\nc\nd\ne");
    e.handle_event(key(KeyCode::End));
    assert_eq!(e.text.cursor, Cursor(0, 6));
    assert!(e.text.focus);
    e.handle_event(key(KeyCode::Home));
    assert_eq!(e.text.cursor, Cursor(0, 0));
    e.screen_size = (4, 10);
    e.handle_event(key(KeyCode::PageDown));
    assert_eq!(e.text.cursor, Cursor(2, 0));
    e.handle_event(key(KeyCode::PageDown));
    e.handle_event(key(KeyCode::PageDown));
    assert_eq!(e.text.cursor, Cursor(4, 0));
    e.handle_event(key(KeyCode::PageUp));
    assert_eq!(e.text.cursor, Cursor(2, 0));
    e.handle_event(key(KeyCode::PageUp));
    e.handle_event(key(KeyCode::PageUp));
    assert_eq!(e.text.cursor, Cursor(0, 0));
    assert_eq!(e.handle_event(key(KeyCode::Esc)), Action::BackToTitle);
}

#[test]
fn editor_toggles_tasks() {
    let mut e = editor_with("- [ ] buy milk\n- [X] done");
    e.handle_event(ctrl('t'));
    assert_eq!(e.text.lines[0], "- [x] buy milk");
    assert!(e.write);
    e.handle_event(ctrl('t'));
    assert_eq!(e.text.lines[0], "- [ ] buy milk");
    e.text.cursor = Cursor(1, 0);
    e.handle_event(ctrl('t'));
    assert_eq!(e.text.lines[1], "- [ ] done");
    let mut plain = editor_with("no box");
    plain.handle_event(ctrl('t'));
    assert_eq!(plain.text.lines[0], "no box");
}

#[test]
fn editor_undo_and_redo() {
    let mut e = editor_with("- [ ] a");
    e.handle_event(key(KeyCode::Char('z')));
    assert_eq!(e.text.lines[0], "z- [ ] a");
    e.handle_event(ctrl('t'));
    assert_eq!(e.text.lines[0], "z- [x] a");
    e.handle_event(ctrl('z'));
    assert_eq!(e.text.lines[0], "- [ ] a");
    e.handle_event(ctrl('y'));
    assert_eq!(e.text.lines[0], "z- [x] a");
    e.handle_event(ctrl('y'));
    assert_eq!(e.text.lines[0], "z- [x] a");
}

#[test]
fn editor_undo_reverts_each_typed_key() {
    let mut e = editor_with("ab");
    e.handle_event(key(KeyCode::Char('x')));
    e.handle_event(key(KeyCode::Char('y')));
    assert_eq!(e.text.lines, vec!["xyab".to_string()]);
    e.handle_event(ctrl('z'));
    assert_eq!(e.text.lines, vec!["xab".to_string()]);
    e.handle_event(ctrl('z'));
    assert_eq!(e.text.lines, vec!["ab".to_string()]);
    assert!(e.write);
}

fn shifted(code: KeyCode) -> Key {
    Key { code, ctrl: false, shift: true }
}

fn ctrl_key(code: KeyCode) -> Key {
    Key { code, ctrl: true, shift: false }
}

#[test]
fn editor_typing_edits_the_buffer() {
    let mut e = editor_with("ab\ncd");
    assert_eq!(e.handle_event(key(KeyCode::Char('x'))), Action::Noop);
    assert_eq!(e.text.lines, vec!["xab".to_string(), "cd".to_string()]);
    assert_eq!(e.text.cursor, Cursor(0, 1));
    assert!(e.write);
    e.handle_event(key(KeyCode::Enter));
    assert_eq!(e.text.lines, vec!["x".to_string(), "ab".to_string(), "cd".to_string()]);
    assert_eq!(e.text.cursor, Cursor(1, 0));
    e.handle_event(key(KeyCode::Backspace));
    assert_eq!(e.text.lines, vec!["xab".to_string(), "cd".to_string()]);
    assert_eq!(e.text.cursor, Cursor(0, 1));
    e.handle_event(key(KeyCode::Delete));
    assert_eq!(e.text.lines, vec!["xb".to_string(), "cd".to_string()]);
    e.handle_event(key(KeyCode::End));
    e.handle_event(key(KeyCode::Delete));
    assert_eq!(e.text.lines, vec!["xbcd".to_string()]);
    assert_eq!(e.text.cursor, Cursor(0, 2));
    let mut start = editor_with("q");
    start.handle_event(key(KeyCode::Backspace));
    assert_eq!(start.text.lines, vec!["q".to_string()]);
    start.handle_event(key(KeyCode::End));
    start.handle_event(key(KeyCode::Delete));
    assert_eq!(start.text.lines, vec!["q".to_string()]);
}

#[test]
fn editor_arrows_move_and_select() {
    let mut e = editor_with("abc\nd");
    e.handle_event(key(KeyCode::Right));
    e.handle_event(key(KeyCode::Right));
    assert_eq!(e.text.cursor, Cursor(0, 2));
    e.handle_event(key(KeyCode::Down));
    assert_eq!(e.text.cursor, Cursor(1, 2));
    e.handle_event(key(KeyCode::Char('x')));
    assert_eq!(e.text.lines, vec!["abc".to_string(), "dx".to_string()]);
    assert_eq!(e.text.cursor, Cursor(1, 2));
    e.handle_event(key(KeyCode::Up));
    assert_eq!(e.text.cursor, Cursor(0, 2));
    e.handle_event(key(KeyCode::Right));
    e.handle_event(key(KeyCode::Right));
    assert_eq!(e.text.cursor, Cursor(1, 0));
    e.handle_event(key(KeyCode::Left));
    assert_eq!(e.text.cursor, Cursor(0, 3));
    e.handle_event(shifted(KeyCode::Left));
    e.handle_event(shifted(KeyCode::Left));
    assert_eq!(e.text.selection_start, Some(Cursor(0, 3)));
    assert_eq!(e.text.cursor, Cursor(0, 1));
    e.handle_event(key(KeyCode::Left));
    assert_eq!(e.text.selection_start, None);
    assert_eq!(e.text.cursor, Cursor(0, 0));
    e.handle_event(key(KeyCode::Left));
    e.handle_event(key(KeyCode::Up));
    assert_eq!(e.text.cursor, Cursor(0, 0));
}

#[test]
fn editor_copy_cut_and_paste() {
    let mut e = editor_with("hello world");
    for _ in 0..5 {
        e.handle_event(shifted(KeyCode::Right));
    }
    e.handle_event(ctrl('c'));
    assert_eq!(e.text.clipboard, "hello");
    assert_eq!(e.text.lines, vec!["hello world".to_string()]);
    e.handle_event(ctrl('x'));
    assert_eq!(e.text.lines, vec![" world".to_string()]);
    assert_eq!(e.text.cursor, Cursor(0, 0));
    assert_eq!(e.text.selection_start, None);
    e.handle_event(key(KeyCode::End));
    e.handle_event(ctrl('p'));
    assert_eq!(e.text.lines, vec![" worldhello".to_string()]);
    assert_eq!(e.text.cursor, Cursor(0, 11));
    let mut lines = editor_with("ab\ncd\nef");
    lines.handle_event(key(KeyCode::Right));
    for _ in 0..2 {
        lines.handle_event(shifted(KeyCode::Down));
    }
    lines.handle_event(ctrl('x'));
    assert_eq!(lines.text.clipboard, "b\ncd\ne");
    assert_eq!(lines.text.lines, vec!["af".to_string()]);
    lines.handle_event(ctrl('p'));
    assert_eq!(lines.text.lines, vec!["ab".to_string(), "cd".to_string(), "ef".to_string()]);
    assert_eq!(lines.text.cursor, Cursor(2, 1));
    lines.handle_event(ctrl('c'));
    assert_eq!(lines.text.clipboard, "b\ncd\ne");
}

#[test]
fn editor_word_keys() {
    let mut e = editor_with("foo bar baz");
    e.handle_event(key(KeyCode::End));
    e.handle_event(ctrl_key(KeyCode::Backspace));
    assert_eq!(e.text.lines, vec!["foo bar ".to_string()]);
    assert_eq!(e.text.cursor, Cursor(0, 8));
    e.handle_event(ctrl_key(KeyCode::Left));
    assert_eq!(e.text.cursor, Cursor(0, 4));
    e.handle_event(ctrl_key(KeyCode::Delete));
    assert_eq!(e.text.lines, vec!["foo  ".to_string()]);
    e.handle_event(key(KeyCode::Home));
    e.handle_event(ctrl_key(KeyCode::Right));
    assert_eq!(e.text.cursor, Cursor(0, 3));
    let mut two = editor_with("a\nb");
    two.handle_event(key(KeyCode::Down));
    two.handle_event(ctrl_key(KeyCode::Backspace));
    assert_eq!(two.text.lines, vec!["ab".to_string()]);
    two.handle_event(ctrl_key(KeyCode::Delete));
    assert_eq!(two.text.lines, vec!["a".to_string()]);
}

#[test]
fn editor_view_follows_the_cursor_and_scrolls() {
    let mut e = editor_with("a");
    e.screen_size = (2, 10);
    e.handle_event(key(KeyCode::End));
    e.handle_event(key(KeyCode::Enter));
    assert_eq!(e.scroll_offset, (0, 0));
    e.handle_event(key(KeyCode::Enter));
    assert_eq!(e.scroll_offset, (1, 0));
    e.handle_event(key(KeyCode::Enter));
    assert_eq!(e.scroll_offset, (2, 0));
    e.handle_event(ctrl_key(KeyCode::Up));
    e.handle_event(ctrl_key(KeyCode::Up));
    e.handle_event(ctrl_key(KeyCode::Up));
    assert_eq!(e.scroll_offset, (0, 0));
    e.handle_event(ctrl_key(KeyCode::Down));
    assert_eq!(e.scroll_offset, (1, 0));
    assert_eq!(e.text.lines.len(), 4);
    e.handle_event(key(KeyCode::Up));
    e.handle_event(key(KeyCode::Up));
    e.handle_event(key(KeyCode::Up));
    assert_eq!(e.text.cursor, Cursor(0, 0));
    assert_eq!(e.scroll_offset, (0, 0));
}

#[test]
fn editor_search_and_replace_bars() {
    let mut e = editor_with("hello");
    e.handle_event(ctrl('f'));
    assert!(matches!(e.state, EditorState::Search(_)));
    e.handle_event(key(KeyCode::Enter));
    assert_eq!(e.state, EditorState::Edit);
    e.handle_event(ctrl('f'));
    e.handle_event(key(KeyCode::Char('h')));
    e.handle_event(key(KeyCode::Char('i')));
    e.handle_event(key(KeyCode::Backspace));
    match &e.state {
        EditorState::Search(s) => assert_eq!(s.text.lines, vec!["h".to_string()]),
        _ => panic!("search bar not open"),
    }
    assert_eq!(e.text.lines, vec!["hello".to_string()]);
    e.handle_event(key(KeyCode::Esc));
    e.handle_event(ctrl('r'));
    e.handle_event(key(KeyCode::Right));
    for c in ['l', '/', 'L'] {
        e.handle_event(key(KeyCode::Char(c)));
    }
    match &e.state {
        EditorState::Replace(r) => assert_eq!(r.text.lines, vec!["/l/L".to_string()]),
        _ => panic!("replace bar not open"),
    }
    assert!(!e.write);
    e.handle_event(key(KeyCode::Enter));
    assert_eq!(e.state, EditorState::Edit);
    assert_eq!(e.text.lines, vec!["/L/L".to_string()]);
    assert!(e.write);
    e.handle_event(ctrl('r'));
    e.handle_event(key(KeyCode::Esc));
    assert_eq!(e.state, EditorState::Edit);
}

#[test]
fn session_plans_actions() {
    let today = d(2024, 6, 1);
    let now = Timestamp { secs: 1000, nanos: 0 };
    let mut s = Session::new(false, 2, 10);
    assert_eq!(s.mode, AppMode::TitleScreen);
    assert!(!s.editor.side_panel);
    assert_eq!(s.process_action_at(Action::OpenCalendar, today, now), Vec::new());
    assert_eq!(s.mode, AppMode::Calendar);
    assert_eq!(s.process_action_at(Action::OpenTodaysEntry, today, now), vec![Command::FetchNote(today)]);
    s.show_note(note("body", today));
    assert_eq!(s.mode, AppMode::Editor);
    assert!(!s.editor.side_panel);
    assert_eq!(s.process_action_at(Action::BackToTitle, today, now), vec![Command::ShowTitle]);
    assert_eq!(s.mode, AppMode::Editor);
    s.show_title();
    assert_eq!(s.mode, AppMode::TitleScreen);
    s.mode = AppMode::Editor;
    s.editor.handle_event(ctrl('w'));
    let cmds = s.process_action_at(Action::OpenNote(d(2024, 5, 5)), today, now);
    assert_eq!(cmds, vec![
        Command::Upsert(Note { id: 0, text: "body".to_string(), creation_date: today, last_edited: now }),
        Command::FetchNote(d(2024, 5, 5)),
    ]);
    s.mark_saved();
    assert!(!s.editor.write);
    assert_eq!(s.process_action_at(Action::ShowStats, today, now), vec![Command::RefreshStats]);
    assert_eq!(s.process_action_at(Action::BrowseByTag, today, now), vec![Command::LoadTags]);
    assert_eq!(s.process_action_at(Action::FilterByTag("t".to_string()), today, now), vec![Command::OpenFirstTagged("t".to_string())]);
    assert_eq!(s.process_action_at(Action::LoadTagNotes("t".to_string()), today, now), vec![Command::LoadTagNotes("t".to_string())]);
    s.process_action_at(Action::ToggleSidePanel, today, now);
    assert!(s.editor.side_panel);
    let n = note("saved", today);
    assert_eq!(s.process_action_at(Action::SaveNote(n.clone()), today, now), vec![Command::Upsert(n)]);
    assert_eq!(s.process_action_at(Action::Quit, today, now), vec![Command::Quit]);
    assert!(!s.should_quit);
    s.quit();
    assert!(s.should_quit);
}

#[test]
fn session_auto_save_timing() {
    let mut s = Session::new(true, 0, 0);
    assert!(!s.auto_save_due(100, 30));
    s.mode = AppMode::Editor;
    assert!(!s.auto_save_due(100, 30));
    s.editor.handle_event(ctrl('w'));
    assert!(!s.auto_save_due(29, 30));
    assert!(s.auto_save_due(30, 30));
}

#[test]
fn session_routes_keys() {
    let today = d(2024, 6, 1);
    let mut s = Session::new(true, 0, 0);
    assert_eq!(s.handle_key_at(key(KeyCode::Char('t')), &today), Action::OpenTodaysEntry);
    s.mode = AppMode::Calendar;
    assert!(s.accepts(&key(KeyCode::Left)));
    assert_eq!(s.handle_key_at(key(KeyCode::Esc), &today), Action::BackToTitle);
    s.mode = AppMode::Editor;
    assert_eq!(s.handle_key_event(ctrl('q')), Action::BackToTitle);
}

#[test]
fn leaving_the_editor_saves_first() {
    let today = d(2024, 6, 1);
    let now = Timestamp { secs: 5, nanos: 6 };
    for action in [Action::Quit, Action::BackToTitle, Action::OpenTodaysEntry, Action::OpenNote(d(2020, 2, 2))] {
        let mut s = Session::new(true, 0, 0);
        s.show_note(note("kept\ntext", d(2024, 3, 3)));
        s.editor.handle_event(ctrl('w'));
        let cmds = s.process_action_at(action.clone(), today, now);
        assert_eq!(cmds.len(), 2);
        assert_eq!(
            cmds[0],
            Command::Upsert(Note { id: 0, text: "kept\ntext".to_string(), creation_date: d(2024, 3, 3), last_edited: now })
        );
        let last = match action {
            Action::Quit => Command::Quit,
            Action::BackToTitle => Command::ShowTitle,
            Action::OpenTodaysEntry => Command::FetchNote(today),
            _ => Command::FetchNote(d(2020, 2, 2)),
        };
        assert_eq!(cmds[1], last);
        assert_eq!(s.mode, AppMode::Editor);
        assert!(!s.should_quit);
        assert!(s.editor.write);
    }
}

#[test]
fn unchanged_editor_is_not_saved() {
    let mut s = Session::new(true, 0, 0);
    s.show_note(note("x", d(2024, 3, 3)));
    let cmds = s.process_action_at(Action::BackToTitle, d(2024, 6, 1), Timestamp { secs: 0, nanos: 0 });
    assert_eq!(cmds, vec![Command::ShowTitle]);
    assert_eq!(s.mode, AppMode::Editor);
    let cmds = s.process_action_at(Action::Quit, d(2024, 6, 1), Timestamp { secs: 0, nanos: 0 });
    assert_eq!(cmds, vec![Command::Quit]);
}

#[test]
fn tag_browser_rows() {
    let mut tf = TagFilterState {
        tags: vec!["work".to_string(), "home".to_string()],
        selected: 1,
        filtered_notes: Vec::new(),
        note_selected: 0,
        browsing_notes: false,
    };
    assert_eq!(tag_filter_rows(&tf), vec![("#work".to_string(), false), ("#home".to_string(), true)]);
    tf.browsing_notes = true;
    assert_eq!(tag_filter_rows(&tf), vec![("No notes found.".to_string(), false)]);
    tf.filtered_notes = vec![
        note("a", d(2024, 1, 9)),
        note("b", d(5, 12, 31)),
        note("c", d(-1, 3, 4)),
        note("e", d(10000, 7, 1)),
    ];
    tf.note_selected = 2;
    assert_eq!(
        tag_filter_rows(&tf),
        vec![
            ("09/01/2024".to_string(), false),
            ("31/12/0005".to_string(), false),
            ("04/03/-0001".to_string(), true),
            ("01/07/+10000".to_string(), false),
        ]
    );
    tf.browsing_notes = false;
    tf.tags = Vec::new();
    assert_eq!(tag_filter_rows(&tf), vec![("No tags found.".to_string(), false)]);
}

#[test]
fn fresh_screens_start_where_expected() {
    let p = EntryPicker::new();
    assert_eq!(p.cursor, 0);
    assert_eq!(p.input.len(), 6);
    assert!(p.get_date().is_some());
    let e = Editor::new();
    assert_eq!(e.state, EditorState::Edit);
    assert_eq!((e.scroll_offset, e.screen_size), ((0, 0), (0, 0)));
    assert!(!e.write && !e.show_help && e.side_panel);
    let s = Session::new(false, 4, 9);
    assert_eq!(s.title_screen.state, TitleScreenState::Options);
    assert_eq!(s.editor.state, EditorState::Edit);
    assert!(!s.editor.side_panel);
    assert!(!s.calendar.show_help());
}

#[test]
fn shown_note_is_editable() {
    let mut s = Session::new(true, 0, 0);
    s.editor.handle_event(key(KeyCode::Esc));
    s.editor.screen_size = (9, 9);
    s.show_note(note("abc", d(2024, 3, 3)));
    assert_eq!(s.editor.state, EditorState::Edit);
    assert_eq!(s.editor.screen_size, (0, 0));
    s.editor.handle_event(key(KeyCode::Char('x')));
    assert_eq!(s.editor.text.lines, vec!["xabc".to_string()]);
}
