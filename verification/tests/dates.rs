use chrono::Datelike;
use rusty_notes::action::Action;
use rusty_notes::calendar::{month_cells, month_range, year_months, CalendarComponent, CurrentlyEditing, RangeError};
use rusty_notes::date::{today, Date};
use rusty_notes::key::{Key, KeyCode};
use rusty_notes::title_screen::EntryPicker;

fn d(year: i32, month: u32, day: u32) -> Date {
    Date { year, month, day }
}

fn key(code: KeyCode) -> Key {
    Key { code, ctrl: false, shift: false }
}

fn calendar_on(date: Date, editing: CurrentlyEditing) -> CalendarComponent {
    let mut c = CalendarComponent::new();
    c.date = date;
    c.editing = editing;
    c
}

#[test]
fn today_is_a_real_day() {
    let t = today();
    let chrono_today = chrono::Local::now().date_naive();
    assert_eq!(t, d(chrono_today.year(), chrono_today.month(), chrono_today.day()));
}

#[test]
fn month_range_bounds_months() {
    assert_eq!(month_range(2024, 2), Ok((d(2024, 2, 1), d(2024, 2, 29))));
    assert_eq!(month_range(2023, 2), Ok((d(2023, 2, 1), d(2023, 2, 28))));
    assert_eq!(month_range(2023, 12), Ok((d(2023, 12, 1), d(2023, 12, 31))));
    assert_eq!(month_range(2000, 4), Ok((d(2000, 4, 1), d(2000, 4, 30))));
    assert_eq!(month_range(1900, 2), Ok((d(1900, 2, 1), d(1900, 2, 28))));
}

#[test]
fn month_range_errors() {
    assert_eq!(month_range(2024, 13), Err(RangeError::InvalidMonth));
    assert_eq!(month_range(2024, 0), Err(RangeError::InvalidMonth));
    assert_eq!(month_range(400000, 1), Err(RangeError::InvalidMonth));
    assert_eq!(month_range(262142, 12), Err(RangeError::InvalidEnd));
}

#[test]
fn year_months_lists_first_days() {
    let ms = year_months(&d(2021, 7, 19));
    assert_eq!(ms.len(), 12);
    for (i, m) in ms.iter().enumerate() {
        assert_eq!(*m, d(2021, i as u32 + 1, 1));
    }
}

#[test]
fn month_cells_of_january_2024() {
    let (offset, cells) = month_cells(&d(2024, 1, 15), &d(2024, 1, 10), Some(d(2024, 1, 20)), &vec![d(2024, 1, 3), d(2023, 1, 4)]);
    assert_eq!(offset, 0);
    assert_eq!(cells.len(), 31);
    assert!(!cells[0].weekend);
    assert!(cells[5].weekend && cells[6].weekend);
    assert!(cells[9].today);
    assert!(cells[2].noted && !cells[3].noted);
    assert!(cells[19].selected && !cells[18].selected);
    for (i, c) in cells.iter().enumerate() {
        assert_eq!(c.day, i as u32 + 1);
    }
}

#[test]
fn month_cells_offsets_follow_weekdays() {
    let (offset, cells) = month_cells(&d(2024, 2, 29), &d(2000, 1, 1), None, &Vec::new());
    assert_eq!(offset, 9);
    assert_eq!(cells.len(), 29);
    let (offset, _) = month_cells(&d(2023, 10, 1), &d(2000, 1, 1), None, &Vec::new());
    assert_eq!(offset, 18);
    let (offset, _) = month_cells(&d(1970, 1, 1), &d(2000, 1, 1), None, &Vec::new());
    assert_eq!(offset, 9);
    let (offset, _) = month_cells(&d(1600, 3, 31), &d(2000, 1, 1), None, &Vec::new());
    assert_eq!(offset, 6);
}

#[test]
fn calendar_moves_by_month_clamp_days() {
    let mut c = calendar_on(d(2024, 1, 31), CurrentlyEditing::Month);
    assert_eq!(c.handle_event(key(KeyCode::Right)), Action::Noop);
    assert_eq!(c.date, d(2024, 2, 29));
    c.handle_event(key(KeyCode::Char('j')));
    assert_eq!(c.date, d(2024, 6, 29));
    c.handle_event(key(KeyCode::Up));
    assert_eq!(c.date, d(2024, 2, 29));
    c.handle_event(key(KeyCode::Char('h')));
    assert_eq!(c.date, d(2024, 1, 29));
}

#[test]
fn calendar_moves_by_year_and_day() {
    let mut c = calendar_on(d(2024, 2, 29), CurrentlyEditing::Year);
    c.handle_event(key(KeyCode::Right));
    assert_eq!(c.date, d(2025, 2, 28));
    c.handle_event(key(KeyCode::Down));
    assert_eq!(c.date, d(2026, 2, 28));
    let mut c = calendar_on(d(2023, 12, 28), CurrentlyEditing::Day);
    c.handle_event(key(KeyCode::Down));
    assert_eq!(c.date, d(2024, 1, 4));
    c.handle_event(key(KeyCode::Left));
    assert_eq!(c.date, d(2024, 1, 3));
    c.handle_event(key(KeyCode::Char('k')));
    assert_eq!(c.date, d(2023, 12, 27));
    c.handle_event(key(KeyCode::Char('l')));
    assert_eq!(c.date, d(2023, 12, 28));
}

#[test]
fn calendar_drills_down_and_opens() {
    let mut c = calendar_on(d(2024, 5, 6), CurrentlyEditing::Year);
    assert_eq!(c.handle_event(key(KeyCode::Enter)), Action::Noop);
    assert_eq!(c.editing, CurrentlyEditing::Month);
    c.handle_event(key(KeyCode::Enter));
    assert_eq!(c.editing, CurrentlyEditing::Day);
    assert_eq!(c.handle_event(key(KeyCode::Enter)), Action::Noop);
    assert_eq!(c.handle_event(key(KeyCode::Char('x'))), Action::OpenNote(d(2024, 5, 6)));
    assert_eq!(c.handle_event(key(KeyCode::Char('x'))), Action::Noop);
    c.handle_event(key(KeyCode::Backspace));
    assert_eq!(c.editing, CurrentlyEditing::Month);
    c.handle_event(key(KeyCode::Backspace));
    c.handle_event(key(KeyCode::Backspace));
    assert_eq!(c.editing, CurrentlyEditing::Year);
    assert_eq!(c.handle_event(key(KeyCode::Esc)), Action::BackToTitle);
    assert_eq!(c.handle_event(key(KeyCode::Char('q'))), Action::BackToTitle);
    assert!(!c.show_help());
    c.handle_event(key(KeyCode::Char('?')));
    assert!(c.show_help());
}

#[test]
fn calendar_refuses_moves_off_the_calendar() {
    let c = calendar_on(d(262142, 12, 31), CurrentlyEditing::Day);
    assert!(!c.accepts(&key(KeyCode::Right)));
    assert!(c.accepts(&key(KeyCode::Left)));
    assert!(c.accepts(&key(KeyCode::Enter)));
}

#[test]
fn entry_picker_field_and_editing() {
    let mut p = EntryPicker::for_date(&d(2024, 3, 7));
    assert_eq!(p.input, "070324");
    assert_eq!(p.cursor, 0);
    p.insert_char('1');
    assert_eq!(p.input, "170324");
    assert_eq!(p.cursor, 1);
    p.insert_char('a');
    assert_eq!(p.input, "170324");
    p.move_left();
    p.move_left();
    assert_eq!(p.cursor, 0);
    for _ in 0..10 {
        p.move_right();
    }
    assert_eq!(p.cursor, 5);
    p.insert_char('9');
    assert_eq!(p.input, "170329");
    assert_eq!(p.cursor, 5);
    let negative = EntryPicker::for_date(&d(-1, 12, 31));
    assert_eq!(negative.input, "311299");
}

#[test]
fn entry_picker_dates() {
    let p = EntryPicker { input: "290224".to_string(), cursor: 0 };
    assert_eq!(p.get_date_as_of(&d(2024, 3, 1)), Some(d(2024, 2, 29)));
    assert_eq!(p.get_date_as_of(&d(2024, 2, 29)), Some(d(2024, 2, 29)));
    assert_eq!(p.get_date_as_of(&d(2024, 2, 28)), None);
    let bad = EntryPicker { input: "290223".to_string(), cursor: 0 };
    assert_eq!(bad.get_date_as_of(&d(2030, 1, 1)), None);
    let bad_month = EntryPicker { input: "011324".to_string(), cursor: 0 };
    assert_eq!(bad_month.get_date_as_of(&d(2030, 1, 1)), None);
    let old = EntryPicker { input: "010100".to_string(), cursor: 0 };
    assert_eq!(old.get_date(), Some(d(2000, 1, 1)));
}

#[test]
fn entry_picker_reads_signed_parts() {
    let signs = EntryPicker { input: "+5+6-1".to_string(), cursor: 0 };
    assert_eq!(signs.get_date_as_of(&d(2024, 1, 1)), Some(d(1999, 6, 5)));
    let plus_year = EntryPicker { input: "0102+3".to_string(), cursor: 0 };
    assert_eq!(plus_year.get_date_as_of(&d(2024, 1, 1)), Some(d(2003, 2, 1)));
    let minus_day = EntryPicker { input: "-10101".to_string(), cursor: 0 };
    assert_eq!(minus_day.get_date_as_of(&d(2024, 1, 1)), None);
    let letters = EntryPicker { input: "ab0124".to_string(), cursor: 0 };
    assert_eq!(letters.get_date_as_of(&d(2024, 1, 1)), None);
    let space = EntryPicker { input: " 10124".to_string(), cursor: 0 };
    assert_eq!(space.get_date_as_of(&d(2024, 1, 1)), None);
}

#[test]
fn entry_picker_edits_any_ascii_field() {
    let mut p = EntryPicker { input: "ab-c+d".to_string(), cursor: 2 };
    assert_eq!(p.display_parts(), ("ab.".to_string(), '-', "c.+d".to_string()));
    p.insert_char('7');
    assert_eq!(p.input, "ab7c+d");
    assert_eq!(p.cursor, 3);
    p.insert_char('x');
    assert_eq!(p.input, "ab7c+d");
    assert_eq!(p.cursor, 3);
}

#[test]
fn entry_picker_display() {
    let mut p = EntryPicker::for_date(&d(2024, 3, 7));
    assert_eq!(p.display_parts(), (String::new(), '0', "7.03.24".to_string()));
    p.cursor = 3;
    assert_eq!(p.display_parts(), ("07.0".to_string(), '3', ".24".to_string()));
    p.cursor = 5;
    assert_eq!(p.display_parts(), ("07.03.2".to_string(), '4', String::new()));
}

#[test]
fn day_moves_return_to_the_start() {
    for start in [d(2024, 2, 28), d(2023, 12, 31), d(2024, 3, 1), d(2000, 1, 1)] {
        for (there, back) in [
            (KeyCode::Right, KeyCode::Left),
            (KeyCode::Left, KeyCode::Right),
            (KeyCode::Down, KeyCode::Up),
            (KeyCode::Up, KeyCode::Down),
        ] {
            let mut c = calendar_on(start, CurrentlyEditing::Day);
            c.handle_event(key(there));
            assert_ne!(c.date, start);
            c.handle_event(key(back));
            assert_eq!(c.date, start);
        }
    }
}
