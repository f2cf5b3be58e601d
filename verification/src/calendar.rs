use vstd::prelude::*;

use crate::action::Action;
use crate::date::{
    day_number, days_after, days_before, days_in_month, max_year, months_moved, next_day, prev_day, today,
    valid_ymd, weekday_from_monday, Date,
};
use crate::key::{Key, KeyCode};

verus! {

/// Which part of the date the calendar's arrows change.
#[derive(Clone, Copy, Debug, PartialEq, Eq, Structural)]
pub enum CurrentlyEditing {
    Year,
    Month,
    Day,
}

/// The year calendar: the chosen date, which part of it the arrows change,
/// whether the chosen day is about to open, and whether the help is open.
pub struct CalendarComponent {
    pub date: Date,
    pub editing: CurrentlyEditing,
    open: bool,
    show_help: bool,
}

/// The abstract state of the calendar.
pub struct CalendarView {
    pub date: Date,
    pub editing: CurrentlyEditing,
    pub open: bool,
    pub show_help: bool,
}

impl View for CalendarComponent {
    type V = CalendarView;

    closed spec fn view(&self) -> CalendarView {
        CalendarView {
            date: self.date,
            editing: self.editing,
            open: self.open,
            show_help: self.show_help,
        }
    }
}

/// Where an arrow key (or `h`, `j`, `k`, `l`) moves the date: a year, a
/// month or a day sideways, and a year, four months or a week up and down;
/// `None` for keys that do not move it.
pub open spec fn move_target(d: Date, editing: CurrentlyEditing, code: KeyCode) -> Option<Option<Date>> {
    match code {
        KeyCode::Left | KeyCode::Char('h') => Some(
            match editing {
                CurrentlyEditing::Year => months_moved(d, -12),
                CurrentlyEditing::Month => months_moved(d, -1),
                CurrentlyEditing::Day => days_before(d, 1),
            },
        ),
        KeyCode::Right | KeyCode::Char('l') => Some(
            match editing {
                CurrentlyEditing::Year => months_moved(d, 12),
                CurrentlyEditing::Month => months_moved(d, 1),
                CurrentlyEditing::Day => days_after(d, 1),
            },
        ),
        KeyCode::Up | KeyCode::Char('k') => Some(
            match editing {
                CurrentlyEditing::Year => months_moved(d, -12),
                CurrentlyEditing::Month => months_moved(d, -4),
                CurrentlyEditing::Day => days_before(d, 7),
            },
        ),
        KeyCode::Down | KeyCode::Char('j') => Some(
            match editing {
                CurrentlyEditing::Year => months_moved(d, 12),
                CurrentlyEditing::Month => months_moved(d, 4),
                CurrentlyEditing::Day => days_after(d, 7),
            },
        ),
        _ => None,
    }
}

/// Whether the calendar can take a key press: a move must land on a date
/// that exists.
pub open spec fn calendar_accepts(v: CalendarView, code: KeyCode) -> bool {
    v.open || move_target(v.date, v.editing, code) != Some(None::<Date>)
}

/// The calendar after a key press, and the action it asks for.
pub open spec fn calendar_step(v: CalendarView, code: KeyCode) -> (CalendarView, Action) {
    if v.open {
        (CalendarView { open: false, ..v }, Action::OpenNote(v.date))
    } else if code == KeyCode::Char('?') {
        (CalendarView { show_help: !v.show_help, ..v }, Action::Noop)
    } else if move_target(v.date, v.editing, code) is Some {
        (CalendarView { date: move_target(v.date, v.editing, code)->0->0, ..v }, Action::Noop)
    } else if code == KeyCode::Enter {
        (
            match v.editing {
                CurrentlyEditing::Year => CalendarView { editing: CurrentlyEditing::Month, ..v },
                CurrentlyEditing::Month => CalendarView { editing: CurrentlyEditing::Day, ..v },
                CurrentlyEditing::Day => CalendarView { open: true, ..v },
            },
            Action::Noop,
        )
    } else if code == KeyCode::Backspace {
        (
            match v.editing {
                CurrentlyEditing::Year => v,
                CurrentlyEditing::Month => CalendarView { editing: CurrentlyEditing::Year, ..v },
                CurrentlyEditing::Day => CalendarView { editing: CurrentlyEditing::Month, ..v },
            },
            Action::Noop,
        )
    } else if code == KeyCode::Char('q') || code == KeyCode::Esc {
        (v, Action::BackToTitle)
    } else {
        (v, Action::Noop)
    }
}

pub proof fn lemma_next_day_wf(d: Date)
    requires
        d.wf(),
    ensures
        next_day(d) matches Some(e) ==> e.wf(),
        prev_day(d) matches Some(e) ==> e.wf(),
{
}

pub proof fn lemma_days_after_wf(d: Date, n: nat)
    requires
        d.wf(),
    ensures
        days_after(d, n) matches Some(e) ==> e.wf(),
        days_before(d, n) matches Some(e) ==> e.wf(),
    decreases n,
{
    lemma_next_day_wf(d);
    if n > 0 {
        if let Some(e) = next_day(d) {
            lemma_days_after_wf(e, (n - 1) as nat);
        }
        if let Some(e) = prev_day(d) {
            lemma_days_after_wf(e, (n - 1) as nat);
        }
    }
}

proof fn lemma_prev_next(d: Date)
    requires
        d.wf(),
    ensures
        next_day(d) matches Some(e) ==> prev_day(e) == Some(d),
        prev_day(d) matches Some(e) ==> next_day(e) == Some(d),
{
}

proof fn lemma_days_after_last(d: Date, n: nat)
    ensures
        days_after(d, n + 1) == match days_after(d, n) {
            Some(x) => next_day(x),
            None => None,
        },
        days_before(d, n + 1) == match days_before(d, n) {
            Some(x) => prev_day(x),
            None => None,
        },
    decreases n,
{
    if n > 0 {
        if let Some(e) = next_day(d) {
            lemma_days_after_last(e, (n - 1) as nat);
        }
        if let Some(e) = prev_day(d) {
            lemma_days_after_last(e, (n - 1) as nat);
        }
    } else {
        reveal_with_fuel(days_after, 2);
        reveal_with_fuel(days_before, 2);
    }
}

proof fn lemma_days_round_trip(d: Date, n: nat)
    requires
        d.wf(),
    ensures
        days_after(d, n) matches Some(x) ==> days_before(x, n) == Some(d),
        days_before(d, n) matches Some(x) ==> days_after(x, n) == Some(d),
    decreases n,
{
    if n > 0 {
        let m = (n - 1) as nat;
        lemma_days_round_trip(d, m);
        lemma_days_after_last(d, m);
        lemma_days_after_wf(d, m);
        if let Some(x) = days_after(d, m) {
            lemma_prev_next(x);
            if let Some(y) = next_day(x) {
                assert(days_before(y, n) == match prev_day(y) {
                    Some(z) => days_before(z, m),
                    None => None,
                });
            }
        }
        if let Some(x) = days_before(d, m) {
            lemma_prev_next(x);
            if let Some(y) = prev_day(x) {
                assert(days_after(y, n) == match next_day(y) {
                    Some(z) => days_after(z, m),
                    None => None,
                });
            }
        }
    }
}

/// While the calendar changes days, moving a day or a week one way and then
/// back returns to the day it started from.
pub proof fn law_day_moves_return(v: CalendarView, there: KeyCode, back: KeyCode)
    requires
        v.date.wf(),
        !v.open,
        v.editing == CurrentlyEditing::Day,
        (there == KeyCode::Right && back == KeyCode::Left) || (there == KeyCode::Left && back
            == KeyCode::Right) || (there == KeyCode::Down && back == KeyCode::Up) || (there
            == KeyCode::Up && back == KeyCode::Down),
        calendar_accepts(v, there),
    ensures
        calendar_step(calendar_step(v, there).0, back).0.date == v.date,
{
    lemma_days_round_trip(v.date, 1);
    lemma_days_round_trip(v.date, 7);
}

/// How many months `d` lies after the start of year 0.
pub open spec fn month_index(d: Date) -> int {
    d.year * 12 + d.month - 1
}

/// `e` is `d` moved by `delta` months: the month `delta` months away, with
/// the same day of the month unless that month is shorter.
pub open spec fn is_month_move(d: Date, e: Date, delta: int) -> bool {
    &&& month_index(e) == month_index(d) + delta
    &&& e.day == if d.day <= days_in_month(e.year as int, e.month as int) {
        d.day as int
    } else {
        days_in_month(e.year as int, e.month as int)
    }
}

proof fn lemma_months_moved(d: Date, delta: int)
    requires
        d.wf(),
    ensures
        months_moved(d, delta) matches Some(e) ==> is_month_move(d, e, delta) && e.wf(),
{
    let t = d.year * 12 + (d.month - 1) + delta;
    assert(t == (t / 12) * 12 + t % 12);
}

/// An arrow key (or `h`, `j`, `k`, `l`) that the calendar accepts moves its
/// date: in years, Left and Up go one year back and Right and Down one year
/// on, keeping the month; in months, Left and Right go one month back or on
/// and Up and Down four; in days, Left and Right go to the day before or
/// after and Up and Down a week back or on. Nothing else changes.
pub proof fn law_calendar_moves(v: CalendarView, code: KeyCode)
    requires
        v.date.wf(),
        !v.open,
        code is Left || code is Right || code is Up || code is Down || code == KeyCode::Char('h') || code
            == KeyCode::Char('j') || code == KeyCode::Char('k') || code == KeyCode::Char('l'),
        calendar_accepts(v, code),
    ensures
        ({
            let (w, a) = calendar_step(v, code);
            let d = v.date;
            let e = w.date;
            let back = code is Left || code is Up || code == KeyCode::Char('h') || code == KeyCode::Char('k');
            let side = code is Left || code is Right || code == KeyCode::Char('h') || code == KeyCode::Char('l');
            &&& a == Action::Noop
            &&& w == (CalendarView { date: e, ..v })
            &&& e.wf()
            &&& v.editing == CurrentlyEditing::Year ==> {
                &&& e.year == if back { d.year - 1 } else { d.year + 1 }
                &&& e.month == d.month
                &&& is_month_move(d, e, if back { -12 } else { 12 })
            }
            &&& v.editing == CurrentlyEditing::Month ==> is_month_move(
                d,
                e,
                if side { if back { -1int } else { 1int } } else { if back { -4int } else { 4int } },
            )
            &&& (v.editing == CurrentlyEditing::Day && side) ==> if back {
                prev_day(d) == Some(e)
            } else {
                next_day(d) == Some(e)
            }
            &&& (v.editing == CurrentlyEditing::Day && !side) ==> if back {
                days_before(d, 7) == Some(e)
            } else {
                days_after(d, 7) == Some(e)
            }
        }),
{
    lemma_months_moved(v.date, -12);
    lemma_months_moved(v.date, 12);
    lemma_months_moved(v.date, -4);
    lemma_months_moved(v.date, 4);
    lemma_months_moved(v.date, -1);
    lemma_months_moved(v.date, 1);
    lemma_days_after_wf(v.date, 1);
    lemma_days_after_wf(v.date, 7);
    reveal_with_fuel(days_after, 2);
    reveal_with_fuel(days_before, 2);
}

/// Pressing `?` twice on the calendar leaves it as it was.
pub proof fn law_calendar_help_toggle(v: CalendarView)
    requires
        !v.open,
    ensures
        calendar_step(calendar_step(v, KeyCode::Char('?')).0, KeyCode::Char('?')) == (v, Action::Noop),
{
}

/// Drilling down with Enter from the year or the month and going back with
/// Backspace returns to the same level.
pub proof fn law_drill_down_and_back(v: CalendarView)
    requires
        !v.open,
        v.editing != CurrentlyEditing::Day,
    ensures
        calendar_step(calendar_step(v, KeyCode::Enter).0, KeyCode::Backspace) == (v, Action::Noop),
{
}

impl CalendarComponent {
    /// The calendar on today, changing months.
    pub fn new() -> (c: Self)
        ensures
            c@.date.wf(),
            c@.editing == CurrentlyEditing::Month,
            !c@.open,
            !c@.show_help,
    {
        CalendarComponent {
            date: today(),
            editing: CurrentlyEditing::Month,
            open: false,
            show_help: false,
        }
    }

    /// Chooses the date `d`.
    pub fn set_date(&mut self, d: Date)
        requires
            d.wf(),
        ensures
            final(self)@ == (CalendarView { date: d, ..old(self)@ }),
    {
        self.date = d;
    }

    /// Makes the arrows change the part `editing` of the date.
    pub fn set_editing(&mut self, editing: CurrentlyEditing)
        ensures
            final(self)@ == (CalendarView { editing, ..old(self)@ }),
    {
        self.editing = editing;
    }

    /// Whether the help overlay is open.
    pub fn show_help(&self) -> (b: bool)
        ensures
            b == self@.show_help,
    {
        self.show_help
    }

    /// Whether the calendar can take `key`: a move must land on a date that
    /// exists.
    pub fn accepts(&self, key: &Key) -> (b: bool)
        requires
            self@.date.wf(),
        ensures
            b == calendar_accepts(self@, key.code),
    {
        if self.open {
            return true;
        }
        match self.target(key.code) {
            Some(None) => false,
            _ => true,
        }
    }

    fn target(&self, code: KeyCode) -> (r: Option<Option<Date>>)
        requires
            self.date.wf(),
        ensures
            r == move_target(self.date, self.editing, code),
    {
        let d = self.date;
        match code {
            KeyCode::Left | KeyCode::Char('h') => Some(
                match self.editing {
                    CurrentlyEditing::Year => d.checked_sub_months(12),
                    CurrentlyEditing::Month => d.checked_sub_months(1),
                    CurrentlyEditing::Day => d.checked_sub_days(1),
                },
            ),
            KeyCode::Right | KeyCode::Char('l') => Some(
                match self.editing {
                    CurrentlyEditing::Year => d.checked_add_months(12),
                    CurrentlyEditing::Month => d.checked_add_months(1),
                    CurrentlyEditing::Day => d.checked_add_days(1),
                },
            ),
            KeyCode::Up | KeyCode::Char('k') => Some(
                match self.editing {
                    CurrentlyEditing::Year => d.checked_sub_months(12),
                    CurrentlyEditing::Month => d.checked_sub_months(4),
                    CurrentlyEditing::Day => d.checked_sub_days(7),
                },
            ),
            KeyCode::Down | KeyCode::Char('j') => Some(
                match self.editing {
                    CurrentlyEditing::Year => d.checked_add_months(12),
                    CurrentlyEditing::Month => d.checked_add_months(4),
                    CurrentlyEditing::Day => d.checked_add_days(7),
                },
            ),
            _ => None,
        }
    }

    /// Sets the date to where `code` moves it.
    fn move_to(&mut self, code: KeyCode, target: Option<Date>)
        requires
            old(self).date.wf(),
            move_target(old(self).date, old(self).editing, code) == Some(target),
            target is Some,
        ensures
            final(self)@ == (CalendarView { date: target->0, ..old(self)@ }),
            final(self).date.wf(),
    {
        proof {
            lemma_days_after_wf(self.date, 1);
            lemma_days_after_wf(self.date, 7);
        }
        match target {
            Some(t) => self.date = t,
            None => {},
        }
    }

    fn move_left(&mut self)
        requires
            old(self).date.wf(),
            move_target(old(self).date, old(self).editing, KeyCode::Left) != Some(None::<Date>),
        ensures
            final(self)@ == (CalendarView {
                date: move_target(old(self).date, old(self).editing, KeyCode::Left)->0->0,
                ..old(self)@
            }),
            final(self).date.wf(),
    {
        let t = match self.editing {
            CurrentlyEditing::Year => self.date.checked_sub_months(12),
            CurrentlyEditing::Month => self.date.checked_sub_months(1),
            CurrentlyEditing::Day => self.date.checked_sub_days(1),
        };
        self.move_to(KeyCode::Left, t);
    }

    fn move_right(&mut self)
        requires
            old(self).date.wf(),
            move_target(old(self).date, old(self).editing, KeyCode::Right) != Some(None::<Date>),
        ensures
            final(self)@ == (CalendarView {
                date: move_target(old(self).date, old(self).editing, KeyCode::Right)->0->0,
                ..old(self)@
            }),
            final(self).date.wf(),
    {
        let t = match self.editing {
            CurrentlyEditing::Year => self.date.checked_add_months(12),
            CurrentlyEditing::Month => self.date.checked_add_months(1),
            CurrentlyEditing::Day => self.date.checked_add_days(1),
        };
        self.move_to(KeyCode::Right, t);
    }

    fn move_up(&mut self)
        requires
            old(self).date.wf(),
            move_target(old(self).date, old(self).editing, KeyCode::Up) != Some(None::<Date>),
        ensures
            final(self)@ == (CalendarView {
                date: move_target(old(self).date, old(self).editing, KeyCode::Up)->0->0,
                ..old(self)@
            }),
            final(self).date.wf(),
    {
        let t = match self.editing {
            CurrentlyEditing::Year => self.date.checked_sub_months(12),
            CurrentlyEditing::Month => self.date.checked_sub_months(4),
            CurrentlyEditing::Day => self.date.checked_sub_days(7),
        };
        self.move_to(KeyCode::Up, t);
    }

    fn move_down(&mut self)
        requires
            old(self).date.wf(),
            move_target(old(self).date, old(self).editing, KeyCode::Down) != Some(None::<Date>),
        ensures
            final(self)@ == (CalendarView {
                date: move_target(old(self).date, old(self).editing, KeyCode::Down)->0->0,
                ..old(self)@
            }),
            final(self).date.wf(),
    {
        let t = match self.editing {
            CurrentlyEditing::Year => self.date.checked_add_months(12),
            CurrentlyEditing::Month => self.date.checked_add_months(4),
            CurrentlyEditing::Day => self.date.checked_add_days(7),
        };
        self.move_to(KeyCode::Down, t);
    }

    /// Enter drills down: from the year to the month, from the month to the
    /// day, and from the day to opening it.
    fn choose_selection(&mut self)
        ensures
            !old(self)@.open ==> final(self)@ == calendar_step(old(self)@, KeyCode::Enter).0,
            final(self).date == old(self).date,
    {
        match self.editing {
            CurrentlyEditing::Year => self.editing = CurrentlyEditing::Month,
            CurrentlyEditing::Month => self.editing = CurrentlyEditing::Day,
            CurrentlyEditing::Day => self.open = true,
        }
    }

    /// Backspace goes back up: from the day to the month and from the month
    /// to the year.
    fn backtrace_selection(&mut self)
        ensures
            !old(self)@.open ==> final(self)@ == calendar_step(old(self)@, KeyCode::Backspace).0,
            final(self).date == old(self).date,
    {
        match self.editing {
            CurrentlyEditing::Year => {},
            CurrentlyEditing::Month => self.editing = CurrentlyEditing::Year,
            CurrentlyEditing::Day => self.editing = CurrentlyEditing::Month,
        }
    }

    /// Handles a key press.
    pub fn handle_event(&mut self, key: Key) -> (a: Action)
        requires
            old(self)@.date.wf(),
            calendar_accepts(old(self)@, key.code),
        ensures
            (final(self)@, a) == calendar_step(old(self)@, key.code),
            final(self)@.date.wf(),
    {
        if self.open {
            self.open = false;
            return Action::OpenNote(self.date);
        }
        if key.code == KeyCode::Char('?') {
            self.show_help = !self.show_help;
            return Action::Noop;
        }
        match key.code {
            KeyCode::Left | KeyCode::Char('h') => {
                self.move_left();
                return Action::Noop;
            },
            KeyCode::Right | KeyCode::Char('l') => {
                self.move_right();
                return Action::Noop;
            },
            KeyCode::Up | KeyCode::Char('k') => {
                self.move_up();
                return Action::Noop;
            },
            KeyCode::Down | KeyCode::Char('j') => {
                self.move_down();
                return Action::Noop;
            },
            _ => {},
        }
        if key.code == KeyCode::Enter {
            self.choose_selection();
            Action::Noop
        } else if key.code == KeyCode::Backspace {
            self.backtrace_selection();
            Action::Noop
        } else if key.code == KeyCode::Char('q') || key.code == KeyCode::Esc {
            Action::BackToTitle
        } else {
            Action::Noop
        }
    }
}

/// One day of a month as the calendar draws it.
#[derive(Clone, Copy, Debug, PartialEq, Eq, Structural)]
pub struct DayCell {
    pub day: u32,
    pub weekend: bool,
    pub today: bool,
    pub noted: bool,
    pub selected: bool,
}

/// The day `day` of the month of `d`.
pub open spec fn day_of(d: Date, day: int) -> Date {
    Date { year: d.year, month: d.month, day: day as u32 }
}

/// Whether some date of `dates` is the day `day` of the month of `d`.
pub open spec fn has_note_on(dates: Seq<Date>, d: Date, day: int) -> bool {
    exists|k: int| 0 <= k < dates.len() && #[trigger] dates[k] == day_of(d, day)
}

/// The cell the calendar draws for the day `day` of the month of `d`.
pub open spec fn cell_of(d: Date, day: int, today: Date, cursor: Option<Date>, dates: Seq<Date>) -> DayCell {
    DayCell {
        day: day as u32,
        weekend: weekday_from_monday(day_of(d, day)) >= 5,
        today: day_of(d, day) == today,
        noted: has_note_on(dates, d, day),
        selected: cursor matches Some(c) && c.month == d.month && c.day == day,
    }
}

/// How many columns of blanks precede the first day of the month of `d`,
/// three per weekday before it.
pub open spec fn month_offset(d: Date) -> int {
    ((7 + weekday_from_monday(d) - (d.day - 1) % 7) % 7) * 3
}

/// Within a month, the day number grows by one per day.
proof fn lemma_day_number_in_month(d: Date)
    requires
        d.wf(),
    ensures
        day_number(d) == day_number(Date { year: d.year, month: d.month, day: 1 }) + d.day - 1,
{
}

/// The offset of a month is three columns per weekday before its first day.
proof fn lemma_month_offset(d: Date)
    requires
        d.wf(),
    ensures
        month_offset(d) == 3 * weekday_from_monday(Date { year: d.year, month: d.month, day: 1 }),
        0 <= weekday_from_monday(d) < 7,
{
    let first = Date { year: d.year, month: d.month, day: 1 };
    lemma_day_number_in_month(d);
    let n = day_number(first) + 3;
    let k = d.day - 1;
    assert(weekday_from_monday(d) == (n + k) % 7);
    assert(weekday_from_monday(first) == n % 7);
    assert(((7 + (n + k) % 7 - k % 7) % 7) == n % 7) by (nonlinear_arith)
        requires
            k >= 0,
    ;
}

fn has_note(dates: &Vec<Date>, d: &Date) -> (b: bool)
    ensures
        b == exists|k: int| 0 <= k < dates@.len() && #[trigger] dates@[k] == *d,
{
    let mut i: usize = 0;
    while i < dates.len()
        invariant
            i <= dates.len(),
            forall|k: int| 0 <= k < i ==> #[trigger] dates@[k] != *d,
        decreases dates.len() - i,
    {
        if dates[i].year == d.year && dates[i].month == d.month && dates[i].day == d.day {
            return true;
        }
        i = i + 1;
    }
    false
}

/// The month of `d` as the calendar draws it: the columns of blanks before
/// its first day, then one cell per day marking weekends, `today`, the days
/// in `dates` and the day of `cursor`.
pub fn month_cells(d: &Date, today: &Date, cursor: Option<Date>, dates: &Vec<Date>) -> (r: (usize, Vec<DayCell>))
    requires
        d.wf(),
        !(d.year == max_year() && d.month == 12),
    ensures
        r.0 == month_offset(*d),
        r.0 == 3 * weekday_from_monday(Date { year: d.year, month: d.month, day: 1 }),
        r.1@.len() == days_in_month(d.year as int, d.month as int),
        forall|i: int| 0 <= i < r.1@.len() ==> #[trigger] r.1@[i] == cell_of(*d, i + 1, *today, cursor, dates@),
        forall|i: int| 0 <= i < r.1@.len() ==> {
            let day = Date { year: d.year, month: d.month, day: (i + 1) as u32 };
            &&& (#[trigger] r.1@[i]).day == i + 1
            &&& r.1@[i].weekend == (weekday_from_monday(day) == 5 || weekday_from_monday(day) == 6)
            &&& r.1@[i].today == (day == *today)
            &&& r.1@[i].noted == exists|k: int| 0 <= k < dates@.len() && dates@[k] == day
            &&& r.1@[i].selected == (cursor matches Some(c) && c.month == d.month && c.day == i + 1)
        },
{
    proof {
        lemma_month_offset(*d);
    }
    let wd = d.weekday();
    let offset: usize = (((7 + wd - (d.day - 1) % 7) % 7) * 3) as usize;
    let mut current = match Date::from_ymd(d.year, d.month, 1) {
        Some(c) => c,
        None => {
            assert(false);
            Date { year: d.year, month: d.month, day: 1 }
        },
    };
    let ghost dim = days_in_month(d.year as int, d.month as int);
    let mut cells: Vec<DayCell> = Vec::new();
    while current.month == d.month
        invariant
            d.wf(),
            !(d.year == max_year() && d.month == 12),
            dim == days_in_month(d.year as int, d.month as int),
            cells@.len() <= dim,
            cells@.len() < dim ==> current == day_of(*d, cells@.len() as int + 1),
            cells@.len() == dim ==> current.month != d.month,
            current.wf(),
            forall|i: int| 0 <= i < cells@.len() ==> #[trigger] cells@[i] == cell_of(*d, i + 1, *today, cursor, dates@),
        decreases dim - cells@.len(),
    {
        let weekend = current.weekday() >= 5;
        let is_today = current.year == today.year && current.month == today.month && current.day == today.day;
        let noted = has_note(dates, &current);
        let selected = match cursor {
            Some(c) => c.month == d.month && c.day == current.day,
            None => false,
        };
        cells.push(DayCell { day: current.day, weekend, today: is_today, noted, selected });
        proof {
            lemma_next_day_wf(current);
            reveal_with_fuel(days_after, 2);
            assert(days_after(current, 1) == next_day(current));
            assert(current == day_of(*d, cells@.len() as int));
        }
        current = match current.checked_add_days(1) {
            Some(n) => n,
            None => {
                assert(false);
                current
            },
        };
    }
    (offset, cells)
}

/// The first days of the twelve months of the year of `d`, as the year
/// view lays them out.
pub fn year_months(d: &Date) -> (r: Vec<Date>)
    requires
        d.wf(),
        d.year < max_year(),
    ensures
        r@.len() == 12,
        forall|i: int| 0 <= i < 12 ==> #[trigger] r@[i] == (Date { year: d.year, month: (i + 1) as u32, day: 1 }),
{
    let mut start = match Date::from_ymd(d.year, 1, 1) {
        Some(s) => s,
        None => {
            assert(false);
            *d
        },
    };
    let mut r: Vec<Date> = Vec::new();
    let mut m: u32 = 0;
    while m < 12
        invariant
            m <= 12,
            d.wf(),
            d.year < max_year(),
            r@.len() == m,
            m < 12 ==> start == (Date { year: d.year, month: (m + 1) as u32, day: 1 }),
            start.wf(),
            forall|i: int| 0 <= i < m ==> #[trigger] r@[i] == (Date { year: d.year, month: (i + 1) as u32, day: 1 }),
        decreases 12 - m,
    {
        r.push(start);
        start = match start.checked_add_months(1) {
            Some(n) => n,
            None => {
                assert(false);
                start
            },
        };
        m = m + 1;
    }
    r
}

/// Why the days of a month cannot be bounded.
#[derive(Clone, Copy, Debug, PartialEq, Eq, Structural)]
pub enum RangeError {
    InvalidMonth,
    InvalidEnd,
    InvalidRange,
}

/// The first and the last day of the month `month` of `year`.
pub open spec fn month_range_spec(year: int, month: int) -> Result<(Date, Date), RangeError> {
    if !valid_ymd(year, month, 1) {
        Err(RangeError::InvalidMonth)
    } else {
        let (ny, nm) = if month == 12 { (year + 1, 1) } else { (year, month + 1) };
        if !valid_ymd(ny, nm, 1) {
            Err(RangeError::InvalidEnd)
        } else {
            Ok((
                Date { year: year as i32, month: month as u32, day: 1 },
                Date { year: year as i32, month: month as u32, day: days_in_month(year, month) as u32 },
            ))
        }
    }
}

/// The first and the last day of a month, the range whose notes the
/// calendar marks.
pub fn month_range(year: i32, month: u32) -> (r: Result<(Date, Date), RangeError>)
    ensures
        r == month_range_spec(year as int, month as int),
{
    let start = match Date::from_ymd(year, month, 1) {
        Some(s) => s,
        None => return Err(RangeError::InvalidMonth),
    };
    let next = if month == 12 {
        Date::from_ymd(year + 1, 1, 1)
    } else {
        Date::from_ymd(year, month + 1, 1)
    };
    let next = match next {
        Some(n) => n,
        None => return Err(RangeError::InvalidEnd),
    };
    match next.pred() {
        Some(end) => Ok((start, end)),
        None => Err(RangeError::InvalidRange),
    }
}

} // verus!
