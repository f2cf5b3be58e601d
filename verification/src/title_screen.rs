use vstd::prelude::*;

use crate::action::Action;
use crate::date::{date_le, date_text, today, two_digits, valid_ymd, Date};
use crate::key::{Key, KeyCode};
use crate::note::Note;
use crate::strings::{chars_of, push_char, string_of};

verus! {

/// The six-character `ddmmyy` date field of the entry picker and the
/// character the cursor is on.
#[derive(Clone, Debug, PartialEq)]
pub struct EntryPicker {
    pub input: String,
    pub cursor: usize,
}

/// The abstract state of the entry picker.
pub struct PickerView {
    pub input: Seq<char>,
    pub cursor: usize,
}

pub open spec fn is_digit(c: char) -> bool {
    '0' <= c <= '9'
}

pub open spec fn digit_value(c: char) -> int {
    c as int - '0' as int
}

/// The field a picker opened on `d` starts with: day, month and the year
/// modulo a hundred, two digits each.
pub open spec fn picker_field(d: Date) -> Seq<char> {
    two_digits(d.day as int) + two_digits(d.month as int) + two_digits((d.year as int) % 100)
}

/// The field as drawn: `dd.mm.yy`.
pub open spec fn picker_display(input: Seq<char>) -> Seq<char> {
    input.take(2) + seq!['.'] + input.subrange(2, 4) + seq!['.'] + input.skip(4)
}

/// The number that the characters `at` and `at + 1` of the field spell as
/// an unsigned decimal: two digits, or a plus sign and a digit.
pub open spec fn field_unsigned(input: Seq<char>, at: int) -> Option<int> {
    let a = input[at];
    let b = input[at + 1];
    if is_digit(a) && is_digit(b) {
        Some(digit_value(a) * 10 + digit_value(b))
    } else if a == '+' && is_digit(b) {
        Some(digit_value(b))
    } else {
        None
    }
}

/// The number that the characters `at` and `at + 1` of the field spell as a
/// signed decimal: as an unsigned one, or a minus sign and a digit.
pub open spec fn field_signed(input: Seq<char>, at: int) -> Option<int> {
    if input[at] == '-' && is_digit(input[at + 1]) {
        Some(-digit_value(input[at + 1]))
    } else {
        field_unsigned(input, at)
    }
}

impl PickerView {
    /// Six ASCII characters, the cursor on one of them.
    pub open spec fn wf(self) -> bool {
        &&& self.input.len() == 6
        &&& forall|i: int| 0 <= i < 6 ==> (#[trigger] self.input[i] as u32) < 128
        &&& self.cursor <= 5
    }

    pub open spec fn moved_left(self) -> PickerView {
        if self.cursor == 0 {
            self
        } else {
            PickerView { input: self.input, cursor: (self.cursor - 1) as usize }
        }
    }

    pub open spec fn moved_right(self) -> PickerView {
        if self.cursor == 5 {
            self
        } else {
            PickerView { input: self.input, cursor: (self.cursor + 1) as usize }
        }
    }

    /// A digit overwrites the one under the cursor and the cursor moves on;
    /// any other character is ignored.
    pub open spec fn inserted(self, c: char) -> PickerView {
        if !is_digit(c) {
            self
        } else {
            PickerView { input: self.input.update(self.cursor as int, c), cursor: self.cursor }.moved_right()
        }
    }

    /// The date the field names, read as `ddmmyy` with the year counted
    /// from 2000, if each part is a number, the date exists and it is not
    /// after `today`.
    pub open spec fn date_as_of(self, today: Date) -> Option<Date> {
        match (field_unsigned(self.input, 0), field_unsigned(self.input, 2), field_signed(self.input, 4)) {
            (Some(day), Some(month), Some(y)) => {
                let year = 2000 + y;
                if valid_ymd(year, month, day) {
                    let d = Date { year: year as i32, month: month as u32, day: day as u32 };
                    if date_le(d, today) {
                        Some(d)
                    } else {
                        None
                    }
                } else {
                    None
                }
            },
            _ => None,
        }
    }
}

impl View for EntryPicker {
    type V = PickerView;

    open spec fn view(&self) -> PickerView {
        PickerView { input: self.input@, cursor: self.cursor }
    }
}

/// The two digit characters of `n`.
fn push_two_digits(s: &mut String, n: u32)
    requires
        n < 100,
    ensures
        final(s)@ == old(s)@ + two_digits(n as int),
{
    let hi = ((n / 10) as u8 + 48u8) as char;
    let lo = ((n % 10) as u8 + 48u8) as char;
    push_char(s, hi);
    push_char(s, lo);
    assert(final(s)@ =~= old(s)@ + two_digits(n as int));
}

fn is_digit_char(c: char) -> (b: bool)
    ensures
        b == is_digit(c),
{
    '0' <= c && c <= '9'
}

fn digit_of(c: char) -> (n: u32)
    requires
        is_digit(c),
    ensures
        n == digit_value(c),
        n < 10,
{
    (c as u32) - 48
}

/// The unsigned number that `a` and `b` spell.
fn parse_unsigned(a: char, b: char) -> (r: Option<u32>)
    ensures
        r matches Some(n) ==> field_unsigned(seq![a, b], 0) == Some(n as int),
        r is None ==> field_unsigned(seq![a, b], 0) is None,
{
    if !is_digit_char(b) {
        None
    } else if is_digit_char(a) {
        Some(digit_of(a) * 10 + digit_of(b))
    } else if a == '+' {
        Some(digit_of(b))
    } else {
        None
    }
}

/// The signed number that `a` and `b` spell.
fn parse_signed(a: char, b: char) -> (r: Option<i32>)
    ensures
        r matches Some(n) ==> field_signed(seq![a, b], 0) == Some(n as int),
        r is None ==> field_signed(seq![a, b], 0) is None,
{
    if a == '-' && is_digit_char(b) {
        Some(-(digit_of(b) as i32))
    } else {
        match parse_unsigned(a, b) {
            Some(n) => Some(n as i32),
            None => None,
        }
    }
}

proof fn lemma_field_at(input: Seq<char>, at: int)
    requires
        0 <= at,
        at + 1 < input.len(),
    ensures
        field_unsigned(input, at) == field_unsigned(seq![input[at], input[at + 1]], 0),
        field_signed(input, at) == field_signed(seq![input[at], input[at + 1]], 0),
{
}

impl EntryPicker {
    /// A picker on today's date, the cursor on its first digit.
    pub fn new() -> (p: EntryPicker)
        ensures
            p@.wf(),
            p.cursor == 0,
            exists|t: Date| t.wf() && p@.input == picker_field(t),
    {
        EntryPicker::for_date(&today())
    }

    /// A picker on `d`, the cursor on its first digit.
    pub fn for_date(d: &Date) -> (p: EntryPicker)
        requires
            d.wf(),
        ensures
            p@.input == picker_field(*d),
            p.cursor == 0,
            p@.wf(),
    {
        let mut s = String::new();
        push_two_digits(&mut s, d.day);
        push_two_digits(&mut s, d.month);
        let y = d.year % 100;
        let yy: u32 = if y < 0 { (y + 100) as u32 } else { y as u32 };
        assert(yy as int == (d.year as int) % 100);
        push_two_digits(&mut s, yy);
        let p = EntryPicker { input: s, cursor: 0 };
        proof {
            assert(p@.input =~= picker_field(*d));
            assert forall|i: int| 0 <= i < 6 implies (#[trigger] p@.input[i] as u32) < 128 by {
                assert(d.day < 100 && d.month < 100);
            }
        }
        p
    }

    /// Overwrites the character under the cursor with `c` and moves on, if
    /// `c` is a digit.
    pub fn insert_char(&mut self, c: char)
        requires
            old(self)@.wf(),
        ensures
            final(self)@ == old(self)@.inserted(c),
            final(self)@.wf(),
    {
        if !('0' <= c && c <= '9') {
            return;
        }
        let mut cs = chars_of(self.input.as_str());
        cs.set(self.cursor, c);
        self.input = string_of(&cs);
        self.move_right();
    }

    /// Moves the cursor one digit to the left, if it can.
    pub fn move_left(&mut self)
        ensures
            final(self)@ == old(self)@.moved_left(),
    {
        if self.cursor == 0 {
            return;
        }
        self.cursor -= 1;
    }

    /// Moves the cursor one digit to the right, if it can.
    pub fn move_right(&mut self)
        requires
            old(self).cursor <= 5,
        ensures
            final(self)@ == old(self)@.moved_right(),
    {
        if self.cursor == 5 {
            return;
        }
        self.cursor += 1;
    }

    /// The date the field names, if it exists and is not after `today`.
    pub fn get_date_as_of(&self, today: &Date) -> (r: Option<Date>)
        requires
            self@.wf(),
        ensures
            r == self@.date_as_of(*today),
    {
        let cs = chars_of(self.input.as_str());
        proof {
            lemma_field_at(cs@, 0);
            lemma_field_at(cs@, 2);
            lemma_field_at(cs@, 4);
        }
        let day = match parse_unsigned(cs[0], cs[1]) {
            Some(n) => n,
            None => return None,
        };
        let month = match parse_unsigned(cs[2], cs[3]) {
            Some(n) => n,
            None => return None,
        };
        let y = match parse_signed(cs[4], cs[5]) {
            Some(n) => n,
            None => return None,
        };
        let year = 2000 + y;
        match Date::from_ymd(year, month, day) {
            None => None,
            Some(d) => if d.on_or_before(today) {
                Some(d)
            } else {
                None
            },
        }
    }

    /// The field as drawn, `dd.mm.yy`, cut around the digit under the
    /// cursor.
    pub fn display_parts(&self) -> (r: (String, char, String))
        requires
            self@.wf(),
        ensures
            ({
                let d = picker_display(self@.input);
                let k = self.cursor + self.cursor / 2;
                r.0@ == d.take(k) && r.1 == d[k] && r.2@ == d.skip(k + 1)
            }),
    {
        let cs = chars_of(self.input.as_str());
        let mut d: Vec<char> = Vec::new();
        d.push(cs[0]);
        d.push(cs[1]);
        d.push('.');
        d.push(cs[2]);
        d.push(cs[3]);
        d.push('.');
        d.push(cs[4]);
        d.push(cs[5]);
        assert(d@ =~= picker_display(self@.input));
        let k = self.cursor + self.cursor / 2;
        let left = crate::strings::string_of_range(&d, 0, k);
        let right = crate::strings::string_of_range(&d, k + 1, 8);
        assert(d@.subrange(0, k as int) =~= d@.take(k as int));
        assert(d@.subrange(k + 1, 8) =~= d@.skip(k + 1));
        (left, d[k], right)
    }

    /// The date the field names, if it exists and is not after today.
    pub fn get_date(&self) -> (r: Option<Date>)
        requires
            self@.wf(),
        ensures
            exists|t: Date| t.wf() && r == self@.date_as_of(t),
    {
        let t = today();
        self.get_date_as_of(&t)
    }
}

/// The tag browser: the tags, the one selected, and, once a tag is chosen,
/// its notes and the one selected among them.
#[derive(Clone, Debug, PartialEq)]
pub struct TagFilterState {
    pub tags: Vec<String>,
    pub selected: usize,
    pub filtered_notes: Vec<Note>,
    pub note_selected: usize,
    pub browsing_notes: bool,
}

/// What the title screen shows besides its menu.
#[derive(Clone, Debug, PartialEq)]
pub enum TitleScreenState {
    Options,
    Stats,
    EntryPicker(EntryPicker),
    TagFilter(TagFilterState),
}

/// The abstract state of the tag browser.
pub struct TagFilterView {
    pub tags: Seq<String>,
    pub selected: usize,
    pub notes: Seq<Note>,
    pub note_selected: usize,
    pub browsing: bool,
}

/// The abstract state of what the title screen shows.
pub enum ScreenView {
    Options,
    Stats,
    EntryPicker(PickerView),
    TagFilter(TagFilterView),
}

/// The abstract state of the title screen.
pub struct TitleView {
    pub state: ScreenView,
    pub note_count: usize,
    pub word_count: usize,
    pub show_help: bool,
}

impl View for TagFilterState {
    type V = TagFilterView;

    open spec fn view(&self) -> TagFilterView {
        TagFilterView {
            tags: self.tags@,
            selected: self.selected,
            notes: self.filtered_notes@,
            note_selected: self.note_selected,
            browsing: self.browsing_notes,
        }
    }
}

impl View for TitleScreenState {
    type V = ScreenView;

    open spec fn view(&self) -> ScreenView {
        match self {
            TitleScreenState::Options => ScreenView::Options,
            TitleScreenState::Stats => ScreenView::Stats,
            TitleScreenState::EntryPicker(p) => ScreenView::EntryPicker(p@),
            TitleScreenState::TagFilter(t) => ScreenView::TagFilter(t@),
        }
    }
}

impl ScreenView {
    /// An open entry picker holds a well-formed field.
    pub open spec fn wf(self) -> bool {
        self matches ScreenView::EntryPicker(p) ==> p.wf()
    }
}

/// The tag browser after a key press, and the action it asks for; `None`
/// as the browser when the key closes it.
pub open spec fn tag_filter_step(tf: TagFilterView, code: KeyCode) -> (Option<TagFilterView>, Action) {
    match code {
        KeyCode::Esc => if tf.browsing {
            (Some(TagFilterView { browsing: false, notes: Seq::empty(), ..tf }), Action::Noop)
        } else {
            (None, Action::Noop)
        },
        KeyCode::Up => if tf.browsing {
            if tf.note_selected > 0 {
                (Some(TagFilterView { note_selected: (tf.note_selected - 1) as usize, ..tf }), Action::Noop)
            } else {
                (Some(tf), Action::Noop)
            }
        } else if tf.selected > 0 {
            (Some(TagFilterView { selected: (tf.selected - 1) as usize, ..tf }), Action::Noop)
        } else {
            (Some(tf), Action::Noop)
        },
        KeyCode::Down => if tf.browsing {
            if tf.note_selected + 1 < tf.notes.len() {
                (Some(TagFilterView { note_selected: (tf.note_selected + 1) as usize, ..tf }), Action::Noop)
            } else {
                (Some(tf), Action::Noop)
            }
        } else if tf.selected + 1 < tf.tags.len() {
            (Some(TagFilterView { selected: (tf.selected + 1) as usize, ..tf }), Action::Noop)
        } else {
            (Some(tf), Action::Noop)
        },
        KeyCode::Enter => if tf.browsing {
            if tf.note_selected < tf.notes.len() {
                (None, Action::OpenNote(tf.notes[tf.note_selected as int].creation_date))
            } else {
                (Some(tf), Action::Noop)
            }
        } else if tf.selected < tf.tags.len() {
            (Some(tf), Action::LoadTagNotes(tf.tags[tf.selected as int]))
        } else {
            (Some(tf), Action::Noop)
        },
        _ => (Some(tf), Action::Noop),
    }
}

/// The selected tag, and while its notes are shown the selected note, is on
/// the list, or first when the list is empty.
pub open spec fn indices_in_range(tf: TagFilterView) -> bool {
    &&& (tf.selected == 0 || tf.selected < tf.tags.len())
    &&& (tf.browsing ==> tf.note_selected == 0 || tf.note_selected < tf.notes.len())
}

/// Every key keeps the tag browser's selection on its lists. Up and Down
/// move only the selection of the list being browsed, by one place at most,
/// and change nothing else.
pub proof fn law_tag_browser_indices(tf: TagFilterView, code: KeyCode)
    requires
        tf.tags.len() <= usize::MAX,
        tf.notes.len() <= usize::MAX,
        indices_in_range(tf),
    ensures
        tag_filter_step(tf, code).0 matches Some(t) ==> indices_in_range(t) && t.tags == tf.tags,
        (code is Up || code is Down) ==> (tag_filter_step(tf, code).0 matches Some(t) && {
            &&& t.tags == tf.tags
            &&& t.notes == tf.notes
            &&& t.browsing == tf.browsing
            &&& tf.browsing ==> t.selected == tf.selected && -1 <= t.note_selected - tf.note_selected <= 1
            &&& !tf.browsing ==> t.note_selected == tf.note_selected && -1 <= t.selected - tf.selected <= 1
        }),
{
}

/// In the tag browser, Up moves the selection of the list being browsed
/// (the notes while they are shown, else the tags) one place towards the
/// top and Down one place towards the bottom, staying put at either end;
/// nothing else changes, and Up after a Down that moved returns to where
/// the browser started.
pub proof fn law_tag_browser_up_down(tf: TagFilterView)
    requires
        tf.tags.len() <= usize::MAX,
        tf.notes.len() <= usize::MAX,
    ensures
        ({
            let (up, a) = tag_filter_step(tf, KeyCode::Up);
            &&& a == Action::Noop
            &&& up is Some
            &&& !tf.browsing ==> up->0 == TagFilterView {
                selected: if tf.selected > 0 { (tf.selected - 1) as usize } else { tf.selected },
                ..tf
            }
            &&& tf.browsing ==> up->0 == TagFilterView {
                note_selected: if tf.note_selected > 0 { (tf.note_selected - 1) as usize } else { tf.note_selected },
                ..tf
            }
        }),
        ({
            let (down, a) = tag_filter_step(tf, KeyCode::Down);
            &&& a == Action::Noop
            &&& down is Some
            &&& !tf.browsing ==> down->0 == TagFilterView {
                selected: if tf.selected + 1 < tf.tags.len() { (tf.selected + 1) as usize } else { tf.selected },
                ..tf
            }
            &&& tf.browsing ==> down->0 == TagFilterView {
                note_selected: if tf.note_selected + 1 < tf.notes.len() {
                    (tf.note_selected + 1) as usize
                } else {
                    tf.note_selected
                },
                ..tf
            }
            &&& down->0 != tf ==> tag_filter_step(down->0, KeyCode::Up) == (Some(tf), Action::Noop)
        }),
{
}

/// What the tag browser shows when the chosen tag has no notes.
pub open spec fn no_notes_message() -> Seq<char> {
    "No notes found."@
}

/// What the tag browser shows when there are no tags.
pub open spec fn no_tags_message() -> Seq<char> {
    "No tags found."@
}

/// Every note listed in the browser names a day that dates can hold.
pub open spec fn note_dates_wf(tf: TagFilterView) -> bool {
    forall|i: int| 0 <= i < tf.notes.len() ==> (#[trigger] tf.notes[i]).creation_date.wf()
}

/// The rows of the tag browser and whether each is selected: the dates of
/// the chosen tag's notes while they are browsed, else the tags with a `#`
/// before each; a single unselected message row when the list is empty.
pub open spec fn tag_rows(tf: TagFilterView) -> Seq<(Seq<char>, bool)> {
    if tf.browsing {
        if tf.notes.len() == 0 {
            seq![(no_notes_message(), false)]
        } else {
            Seq::new(tf.notes.len(), |i: int| (date_text(tf.notes[i].creation_date), i == tf.note_selected))
        }
    } else {
        if tf.tags.len() == 0 {
            seq![(no_tags_message(), false)]
        } else {
            Seq::new(tf.tags.len(), |i: int| (seq!['#'] + tf.tags[i]@, i == tf.selected))
        }
    }
}

/// The rows that the tag browser shows, each with whether it is selected.
pub fn tag_filter_rows(tf: &TagFilterState) -> (r: Vec<(String, bool)>)
    requires
        tf@.browsing ==> note_dates_wf(tf@),
    ensures
        r@.len() == tag_rows(tf@).len(),
        forall|i: int| 0 <= i < r@.len() ==> (#[trigger] r@[i]).0@ == tag_rows(tf@)[i].0 && r@[i].1 == tag_rows(
            tf@,
        )[i].1,
{
    let mut rows: Vec<(String, bool)> = Vec::new();
    if tf.browsing_notes {
        if tf.filtered_notes.len() == 0 {
            rows.push(("No notes found.".to_owned(), false));
            proof {
                reveal_strlit("No notes found.");
            }
            return rows;
        }
        let mut i: usize = 0;
        while i < tf.filtered_notes.len()
            invariant
                tf@.browsing,
                note_dates_wf(tf@),
                tf.filtered_notes@.len() > 0,
                i <= tf.filtered_notes@.len(),
                rows@.len() == i,
                forall|k: int| 0 <= k < i ==> (#[trigger] rows@[k]).0@ == tag_rows(tf@)[k].0 && rows@[k].1
                    == tag_rows(tf@)[k].1,
            decreases tf.filtered_notes.len() - i,
        {
            assert(tf@.notes[i as int] == tf.filtered_notes@[i as int]);
            let text = tf.filtered_notes[i].creation_date.format_dmy();
            rows.push((text, i == tf.note_selected));
            i = i + 1;
        }
    } else {
        if tf.tags.len() == 0 {
            rows.push(("No tags found.".to_owned(), false));
            proof {
                reveal_strlit("No tags found.");
            }
            return rows;
        }
        let mut i: usize = 0;
        while i < tf.tags.len()
            invariant
                !tf@.browsing,
                tf.tags@.len() > 0,
                i <= tf.tags@.len(),
                rows@.len() == i,
                forall|k: int| 0 <= k < i ==> (#[trigger] rows@[k]).0@ == tag_rows(tf@)[k].0 && rows@[k].1
                    == tag_rows(tf@)[k].1,
            decreases tf.tags.len() - i,
        {
            let mut text = String::new();
            push_char(&mut text, '#');
            let tag = chars_of(tf.tags[i].as_str());
            let mut k: usize = 0;
            while k < tag.len()
                invariant
                    k <= tag.len(),
                    text@ == seq!['#'] + tag@.take(k as int),
                decreases tag.len() - k,
            {
                push_char(&mut text, tag[k]);
                k = k + 1;
                assert(text@ =~= seq!['#'] + tag@.take(k as int));
            }
            assert(tag@.take(tag@.len() as int) =~= tag@);
            rows.push((text, i == tf.selected));
            i = i + 1;
        }
    }
    rows
}

/// The entry picker after a key press, and the action it asks for; `None`
/// as the picker when the key closes it.
pub open spec fn picker_step(p: PickerView, code: KeyCode, today: Date) -> (Option<PickerView>, Action) {
    match code {
        KeyCode::Esc => (None, Action::Noop),
        KeyCode::Enter => match p.date_as_of(today) {
            Some(d) => (None, Action::OpenNote(d)),
            None => (Some(p), Action::Noop),
        },
        KeyCode::Left => (Some(p.moved_left()), Action::Noop),
        KeyCode::Right => (Some(p.moved_right()), Action::Noop),
        KeyCode::Char(c) => (Some(p.inserted(c)), Action::Noop),
        _ => (Some(p), Action::Noop),
    }
}

/// The title screen after a key press on the day `today`, and the action it
/// asks for.
pub open spec fn title_step(v: TitleView, code: KeyCode, today: Date) -> (TitleView, Action) {
    if code == KeyCode::Char('?') {
        (TitleView { show_help: !v.show_help, ..v }, Action::Noop)
    } else {
        match v.state {
            ScreenView::Options => match code {
                KeyCode::Char('t') => (v, Action::OpenTodaysEntry),
                KeyCode::Char('o') => (
                    TitleView {
                        state: ScreenView::EntryPicker(PickerView { input: picker_field(today), cursor: 0 }),
                        ..v
                    },
                    Action::Noop,
                ),
                KeyCode::Char('c') => (v, Action::OpenCalendar),
                KeyCode::Char('s') => (TitleView { state: ScreenView::Stats, ..v }, Action::Noop),
                KeyCode::Char('g') => (v, Action::BrowseByTag),
                KeyCode::Char('q') | KeyCode::Esc => (v, Action::Quit),
                _ => (v, Action::Noop),
            },
            ScreenView::Stats => match code {
                KeyCode::Char('s') | KeyCode::Backspace | KeyCode::Esc => (
                    TitleView { state: ScreenView::Options, ..v },
                    Action::Noop,
                ),
                _ => (v, Action::Noop),
            },
            ScreenView::EntryPicker(p) => {
                let (np, a) = picker_step(p, code, today);
                match np {
                    Some(q) => (TitleView { state: ScreenView::EntryPicker(q), ..v }, a),
                    None => (TitleView { state: ScreenView::Options, ..v }, a),
                }
            },
            ScreenView::TagFilter(tf) => {
                let (nt, a) = tag_filter_step(tf, code);
                match nt {
                    Some(t) => (TitleView { state: ScreenView::TagFilter(t), ..v }, a),
                    None => (TitleView { state: ScreenView::Options, ..v }, a),
                }
            },
        }
    }
}

/// On the menu, `t` asks for today's note, `c` for the calendar, `g` for
/// the tag browser and `q` or Esc to quit, leaving the screen as it is;
/// `o` opens the date picker on `today` with the cursor on its first
/// character and `s` shows the statistics.
pub proof fn law_title_menu(v: TitleView, code: KeyCode, today: Date)
    requires
        v.state is Options,
    ensures
        code == KeyCode::Char('t') ==> title_step(v, code, today) == (v, Action::OpenTodaysEntry),
        code == KeyCode::Char('c') ==> title_step(v, code, today) == (v, Action::OpenCalendar),
        code == KeyCode::Char('g') ==> title_step(v, code, today) == (v, Action::BrowseByTag),
        (code == KeyCode::Char('q') || code is Esc) ==> title_step(v, code, today) == (v, Action::Quit),
        code == KeyCode::Char('o') ==> title_step(v, code, today).1 == Action::Noop && title_step(v, code, today).0
            == (TitleView {
            state: ScreenView::EntryPicker(
                PickerView {
                    input: two_digits(today.day as int) + two_digits(today.month as int) + two_digits(
                        (today.year as int) % 100,
                    ),
                    cursor: 0,
                },
            ),
            ..v
        }),
        code == KeyCode::Char('s') ==> title_step(v, code, today) == (TitleView { state: ScreenView::Stats, ..v }, Action::Noop),
{
}

/// In the date picker, a digit replaces the character under the cursor and
/// the cursor moves one place right unless it is on the last one; any other
/// character changes nothing; Left and Right move the cursor one place,
/// staying within the six characters.
pub proof fn law_picker_editing(p: PickerView, c: char)
    requires
        p.wf(),
    ensures
        ('0' <= c <= '9') ==> {
            &&& p.inserted(c).input.len() == 6
            &&& p.inserted(c).input[p.cursor as int] == c
            &&& forall|i: int| 0 <= i < 6 && i != p.cursor ==> p.inserted(c).input[i] == #[trigger] p.input[i]
            &&& p.inserted(c).cursor == if p.cursor < 5 { p.cursor + 1 } else { 5 }
            &&& p.inserted(c).wf()
        },
        !('0' <= c <= '9') ==> p.inserted(c) == p,
        p.moved_left().input == p.input && p.moved_left().cursor == if p.cursor > 0 { p.cursor - 1 } else { 0 },
        p.moved_right().input == p.input && p.moved_right().cursor == if p.cursor < 5 { p.cursor + 1 } else { 5 },
{
}

/// A field of six digits `ddmmyy` names the day `dd` of month `mm` of the
/// year 2000 + `yy`, when that day exists and is not after `today`, and
/// nothing otherwise.
pub proof fn law_picker_digits(p: PickerView, today: Date)
    requires
        p.wf(),
        forall|i: int| 0 <= i < 6 ==> '0' <= #[trigger] p.input[i] <= '9',
    ensures
        ({
            let n = |i: int| (p.input[i] as int - 48) * 10 + (p.input[i + 1] as int - 48);
            let d = Date { year: (2000 + n(4)) as i32, month: n(2) as u32, day: n(0) as u32 };
            p.date_as_of(today) == if valid_ymd(2000 + n(4), n(2), n(0)) && date_le(d, today) {
                Some(d)
            } else {
                None
            }
        }),
{
    assert('0' <= p.input[0] <= '9' && '0' <= p.input[1] <= '9');
    assert('0' <= p.input[2] <= '9' && '0' <= p.input[3] <= '9');
    assert('0' <= p.input[4] <= '9' && '0' <= p.input[5] <= '9');
}

/// Pressing `?` twice on the title screen leaves it as it was.
pub proof fn law_title_help_toggle(v: TitleView, today: Date)
    ensures
        title_step(title_step(v, KeyCode::Char('?'), today).0, KeyCode::Char('?'), today) == (v, Action::Noop),
{
}

/// The title screen: what it shows, the statistics it displays and whether
/// its help is open.
pub struct TitleScreenComponent {
    pub state: TitleScreenState,
    note_count: usize,
    word_count: usize,
    show_help: bool,
}

impl View for TitleScreenComponent {
    type V = TitleView;

    closed spec fn view(&self) -> TitleView {
        TitleView {
            state: self.state@,
            note_count: self.note_count,
            word_count: self.word_count,
            show_help: self.show_help,
        }
    }
}

impl TagFilterState {
    /// The browser after a key press; `None` when the key closes it.
    fn step(self, code: KeyCode) -> (r: (Option<TagFilterState>, Action))
        ensures
            r.1 == tag_filter_step(self@, code).1,
            r.0 is None <==> tag_filter_step(self@, code).0 is None,
            r.0 matches Some(s) ==> tag_filter_step(self@, code).0 == Some(s@),
    {
        let mut tf = self;
        match code {
            KeyCode::Esc => {
                if tf.browsing_notes {
                    tf.browsing_notes = false;
                    tf.filtered_notes.clear();
                    assert(tf.filtered_notes@ =~= Seq::<Note>::empty());
                    (Some(tf), Action::Noop)
                } else {
                    (None, Action::Noop)
                }
            },
            KeyCode::Up => {
                if tf.browsing_notes {
                    if tf.note_selected > 0 {
                        tf.note_selected -= 1;
                    }
                } else if tf.selected > 0 {
                    tf.selected -= 1;
                }
                (Some(tf), Action::Noop)
            },
            KeyCode::Down => {
                if tf.browsing_notes {
                    if tf.filtered_notes.len() > 0 && tf.note_selected < tf.filtered_notes.len() - 1 {
                        tf.note_selected += 1;
                    }
                } else if tf.tags.len() > 0 && tf.selected < tf.tags.len() - 1 {
                    tf.selected += 1;
                }
                (Some(tf), Action::Noop)
            },
            KeyCode::Enter => {
                if tf.browsing_notes {
                    if tf.note_selected < tf.filtered_notes.len() {
                        let date = tf.filtered_notes[tf.note_selected].creation_date;
                        (None, Action::OpenNote(date))
                    } else {
                        (Some(tf), Action::Noop)
                    }
                } else if tf.selected < tf.tags.len() {
                    let tag = tf.tags[tf.selected].clone();
                    (Some(tf), Action::LoadTagNotes(tag))
                } else {
                    (Some(tf), Action::Noop)
                }
            },
            _ => {
                (Some(tf), Action::Noop)
            },
        }
    }
}

impl TitleScreenComponent {
    /// The title screen showing its menu, with no statistics yet.
    pub fn new() -> (t: Self)
        ensures
            t@.state == ScreenView::Options,
            t@.note_count == 0,
            t@.word_count == 0,
            !t@.show_help,
    {
        TitleScreenComponent { state: TitleScreenState::Options, note_count: 0, word_count: 0, show_help: false }
    }

    /// How many notes the statistics count.
    pub fn note_count(&self) -> (n: usize)
        ensures
            n == self@.note_count,
    {
        self.note_count
    }

    /// How many words the statistics count.
    pub fn word_count(&self) -> (n: usize)
        ensures
            n == self@.word_count,
    {
        self.word_count
    }

    /// Whether the help overlay is open.
    pub fn show_help(&self) -> (b: bool)
        ensures
            b == self@.show_help,
    {
        self.show_help
    }

    /// Sets the statistics to display.
    pub fn update_stats(&mut self, note_count: usize, word_count: usize)
        ensures
            final(self)@ == (TitleView { note_count, word_count, ..old(self)@ }),
    {
        self.note_count = note_count;
        self.word_count = word_count;
    }

    /// Shows `state` besides the menu.
    pub fn set_state(&mut self, state: TitleScreenState)
        ensures
            final(self)@ == (TitleView { state: state@, ..old(self)@ }),
    {
        self.state = state;
    }

    /// Opens the tag browser on `tags`, the first one selected.
    pub fn start_tag_filter(&mut self, tags: Vec<String>)
        ensures
            final(self)@ == (TitleView {
                state: ScreenView::TagFilter(
                    TagFilterView {
                        tags: tags@,
                        selected: 0,
                        notes: Seq::empty(),
                        note_selected: 0,
                        browsing: false,
                    },
                ),
                ..old(self)@
            }),
    {
        self.state = TitleScreenState::TagFilter(
            TagFilterState {
                tags,
                selected: 0,
                filtered_notes: Vec::new(),
                note_selected: 0,
                browsing_notes: false,
            },
        );
        proof {
            assert(self@.state matches ScreenView::TagFilter(t) && t.notes =~= Seq::<Note>::empty());
        }
    }

    /// Shows `notes` in the open tag browser, the first one selected; does
    /// nothing when the browser is not open.
    pub fn set_filtered_notes(&mut self, notes: Vec<Note>)
        ensures
            match old(self)@.state {
                ScreenView::TagFilter(tf) => final(self)@ == (TitleView {
                    state: ScreenView::TagFilter(
                        TagFilterView { notes: notes@, note_selected: 0, browsing: true, ..tf },
                    ),
                    ..old(self)@
                }),
                _ => final(self)@ == old(self)@,
            },
    {
        let mut st = TitleScreenState::Options;
        std::mem::swap(&mut st, &mut self.state);
        match st {
            TitleScreenState::TagFilter(mut tf) => {
                tf.filtered_notes = notes;
                tf.note_selected = 0;
                tf.browsing_notes = true;
                self.state = TitleScreenState::TagFilter(tf);
            },
            other => {
                self.state = other;
            },
        }
    }

    /// Handles a key press on the day `today`.
    pub fn handle_event_on(&mut self, key: Key, today: &Date) -> (a: Action)
        requires
            old(self)@.state.wf(),
            today.wf(),
        ensures
            (final(self)@, a) == title_step(old(self)@, key.code, *today),
            final(self)@.state.wf(),
    {
        if key.code == KeyCode::Char('?') {
            self.show_help = !self.show_help;
            return Action::Noop;
        }
        let mut st = TitleScreenState::Options;
        std::mem::swap(&mut st, &mut self.state);
        match st {
            TitleScreenState::Options => {
                match key.code {
                    KeyCode::Char('t') => Action::OpenTodaysEntry,
                    KeyCode::Char('o') => {
                        self.state = TitleScreenState::EntryPicker(EntryPicker::for_date(today));
                        Action::Noop
                    },
                    KeyCode::Char('c') => Action::OpenCalendar,
                    KeyCode::Char('s') => {
                        self.state = TitleScreenState::Stats;
                        Action::Noop
                    },
                    KeyCode::Char('g') => Action::BrowseByTag,
                    KeyCode::Char('q') | KeyCode::Esc => Action::Quit,
                    _ => Action::Noop,
                }
            },
            TitleScreenState::Stats => {
                match key.code {
                    KeyCode::Char('s') | KeyCode::Backspace | KeyCode::Esc => Action::Noop,
                    _ => {
                        self.state = TitleScreenState::Stats;
                        Action::Noop
                    },
                }
            },
            TitleScreenState::EntryPicker(mut ep) => {
                match key.code {
                    KeyCode::Esc => Action::Noop,
                    KeyCode::Enter => {
                        match ep.get_date_as_of(today) {
                            Some(d) => Action::OpenNote(d),
                            None => {
                                self.state = TitleScreenState::EntryPicker(ep);
                                Action::Noop
                            },
                        }
                    },
                    KeyCode::Left => {
                        ep.move_left();
                        self.state = TitleScreenState::EntryPicker(ep);
                        Action::Noop
                    },
                    KeyCode::Right => {
                        ep.move_right();
                        self.state = TitleScreenState::EntryPicker(ep);
                        Action::Noop
                    },
                    KeyCode::Char(c) => {
                        ep.insert_char(c);
                        self.state = TitleScreenState::EntryPicker(ep);
                        Action::Noop
                    },
                    _ => {
                        self.state = TitleScreenState::EntryPicker(ep);
                        Action::Noop
                    },
                }
            },
            TitleScreenState::TagFilter(tf) => {
                let (nt, a) = tf.step(key.code);
                match nt {
                    Some(t) => {
                        self.state = TitleScreenState::TagFilter(t);
                    },
                    None => {},
                }
                a
            },
        }
    }

    /// Handles a key press; a date typed into the entry picker is accepted
    /// when it is not after the day the key press is handled on.
    pub fn handle_event(&mut self, key: Key) -> (a: Action)
        requires
            old(self)@.state.wf(),
        ensures
            exists|t: Date| t.wf() && (final(self)@, a) == title_step(old(self)@, key.code, t),
            final(self)@.state.wf(),
    {
        let t = today();
        self.handle_event_on(key, &t)
    }
}

} // verus!
