use vstd::prelude::*;

use chrono::Datelike;

verus! {

/// A calendar day of the proleptic Gregorian calendar.
#[derive(Clone, Copy, Debug, PartialEq, Eq, Structural)]
pub struct Date {
    pub year: i32,
    pub month: u32,
    pub day: u32,
}

/// A moment in time: seconds since the Unix epoch and the nanoseconds
/// within that second (a leap second may push them past a billion).
#[derive(Clone, Copy, Debug, PartialEq, Eq, Structural)]
pub struct Timestamp {
    pub secs: i64,
    pub nanos: u32,
}

/// The earliest year that dates may have.
pub open spec fn min_year() -> int {
    -262143
}

/// The latest year that dates may have.
pub open spec fn max_year() -> int {
    262142
}

pub open spec fn is_leap_year(y: int) -> bool {
    (y % 4 == 0 && y % 100 != 0) || y % 400 == 0
}

pub open spec fn days_in_month(y: int, m: int) -> int {
    if m == 2 {
        if is_leap_year(y) { 29 } else { 28 }
    } else if m == 4 || m == 6 || m == 9 || m == 11 {
        30
    } else {
        31
    }
}

/// The year, month and day name a day that dates can hold.
pub open spec fn valid_ymd(y: int, m: int, d: int) -> bool {
    &&& min_year() <= y <= max_year()
    &&& 1 <= m <= 12
    &&& 1 <= d <= days_in_month(y, m)
}

/// The two decimal digits of `n` (which is below a hundred).
pub open spec fn two_digits(n: int) -> Seq<char> {
    seq![(n / 10 + 48) as char, (n % 10 + 48) as char]
}

/// The decimal digits of `n`, without leading zeros.
pub open spec fn decimal(n: nat) -> Seq<char>
    decreases n,
{
    if n < 10 {
        seq![(n + 48) as char]
    } else {
        decimal(n / 10).push((n % 10 + 48) as char)
    }
}

/// `s` with zeros put in front up to `width` characters.
pub open spec fn zero_padded(s: Seq<char>, width: nat) -> Seq<char> {
    if s.len() >= width {
        s
    } else {
        Seq::new((width - s.len()) as nat, |i: int| '0') + s
    }
}

/// The year as a date shows it: at least four digits, with a sign before
/// years below 0 or above 9999.
pub open spec fn year_text(y: int) -> Seq<char> {
    let sign = if y < 0 {
        seq!['-']
    } else if y > 9999 {
        seq!['+']
    } else {
        Seq::<char>::empty()
    };
    sign + zero_padded(decimal((if y < 0 { -y } else { y }) as nat), 4)
}

/// The date as `dd/mm/yyyy`.
pub open spec fn date_text(d: Date) -> Seq<char> {
    two_digits(d.day as int) + seq!['/'] + two_digits(d.month as int) + seq!['/'] + year_text(d.year as int)
}

/// Lexicographic order on dates.
pub open spec fn date_le(a: Date, b: Date) -> bool {
    a.year < b.year || (a.year == b.year && (a.month < b.month || (a.month == b.month && a.day
        <= b.day)))
}

/// The day after `d`, unless `d` is the last day that dates can hold.
pub open spec fn next_day(d: Date) -> Option<Date> {
    if d.day < days_in_month(d.year as int, d.month as int) {
        Some(Date { year: d.year, month: d.month, day: (d.day + 1) as u32 })
    } else if d.month < 12 {
        Some(Date { year: d.year, month: (d.month + 1) as u32, day: 1 })
    } else if d.year < max_year() {
        Some(Date { year: (d.year + 1) as i32, month: 1, day: 1 })
    } else {
        None
    }
}

/// The day before `d`, unless `d` is the first day that dates can hold.
pub open spec fn prev_day(d: Date) -> Option<Date> {
    if d.day > 1 {
        Some(Date { year: d.year, month: d.month, day: (d.day - 1) as u32 })
    } else if d.month > 1 {
        Some(
            Date {
                year: d.year,
                month: (d.month - 1) as u32,
                day: days_in_month(d.year as int, d.month - 1) as u32,
            },
        )
    } else if d.year > min_year() {
        Some(Date { year: (d.year - 1) as i32, month: 12, day: 31 })
    } else {
        None
    }
}

/// `n` days after `d`, if every day on the way exists.
pub open spec fn days_after(d: Date, n: nat) -> Option<Date>
    decreases n,
{
    if n == 0 {
        Some(d)
    } else {
        match next_day(d) {
            None => None,
            Some(e) => days_after(e, (n - 1) as nat),
        }
    }
}

/// `n` days before `d`, if every day on the way exists.
pub open spec fn days_before(d: Date, n: nat) -> Option<Date>
    decreases n,
{
    if n == 0 {
        Some(d)
    } else {
        match prev_day(d) {
            None => None,
            Some(e) => days_before(e, (n - 1) as nat),
        }
    }
}

/// `d` moved by `delta` months, keeping the day but clamping it to the
/// length of the target month; `None` when the result is out of range.
pub open spec fn months_moved(d: Date, delta: int) -> Option<Date> {
    let t = d.year * 12 + (d.month - 1) + delta;
    let y = t / 12;
    let m = t % 12 + 1;
    let dd = if d.day > days_in_month(y, m) { days_in_month(y, m) } else { d.day as int };
    if valid_ymd(y, m, dd) {
        Some(Date { year: y as i32, month: m as u32, day: dd as u32 })
    } else {
        None
    }
}

/// Days since 1970-01-01 (negative before it).
pub open spec fn day_number(d: Date) -> int {
    let y = if d.month <= 2 { d.year - 1 } else { d.year as int };
    let era = y / 400;
    let yoe = y - era * 400;
    let mp = if d.month > 2 { d.month - 3 } else { d.month + 9 };
    let doy = (153 * mp + 2) / 5 + d.day - 1;
    let doe = yoe * 365 + yoe / 4 - yoe / 100 + doy;
    era * 146097 + doe - 719468
}

/// The day of the week counted from Monday as 0 to Sunday as 6.
pub open spec fn weekday_from_monday(d: Date) -> int {
    (day_number(d) + 3) % 7
}

impl Date {
    /// The date names a day that dates can hold.
    pub open spec fn wf(&self) -> bool {
        valid_ymd(self.year as int, self.month as int, self.day as int)
    }

    /// Whether `self` falls on or before `other`.
    pub fn on_or_before(&self, other: &Date) -> (r: bool)
        ensures
            r == date_le(*self, *other),
    {
        self.year < other.year || (self.year == other.year && (self.month < other.month || (
        self.month == other.month && self.day <= other.day)))
    }

    /// `NaiveDate::from_ymd_opt`: the day with this year, month and day, if
    /// it exists and lies within the supported years.
    #[verifier::external_body]
    pub(crate) fn from_ymd(year: i32, month: u32, day: u32) -> (r: Option<Date>)
        ensures
            r is Some <==> valid_ymd(year as int, month as int, day as int),
            r matches Some(d) ==> d == (Date { year, month, day }),
    {
        chrono::NaiveDate::from_ymd_opt(year, month, day).map(
            |d| Date { year: d.year(), month: d.month(), day: d.day() },
        )
    }

    /// `NaiveDate::format` with `%d/%m/%Y`, turned into a string: the day
    /// and the month in two digits, then the year in at least four, signed
    /// when it lies outside 0 to 9999.
    #[verifier::external_body]
    pub(crate) fn format_dmy(&self) -> (s: String)
        requires
            self.wf(),
        ensures
            s@ == date_text(*self),
    {
        let d = chrono::NaiveDate::from_ymd_opt(self.year, self.month, self.day).unwrap();
        d.format("%d/%m/%Y").to_string()
    }

    /// `NaiveDate::checked_add_months`: the same day `n` months later,
    /// clamped to the end of a shorter month; `None` when out of range.
    #[verifier::external_body]
    pub(crate) fn checked_add_months(&self, n: u32) -> (r: Option<Date>)
        requires
            self.wf(),
        ensures
            r == months_moved(*self, n as int),
    {
        let d = chrono::NaiveDate::from_ymd_opt(self.year, self.month, self.day).unwrap();
        d.checked_add_months(chrono::Months::new(n)).map(
            |e| Date { year: e.year(), month: e.month(), day: e.day() },
        )
    }

    /// `NaiveDate::checked_sub_months`: the same day `n` months earlier,
    /// clamped to the end of a shorter month; `None` when out of range.
    #[verifier::external_body]
    pub(crate) fn checked_sub_months(&self, n: u32) -> (r: Option<Date>)
        requires
            self.wf(),
        ensures
            r == months_moved(*self, -(n as int)),
    {
        let d = chrono::NaiveDate::from_ymd_opt(self.year, self.month, self.day).unwrap();
        d.checked_sub_months(chrono::Months::new(n)).map(
            |e| Date { year: e.year(), month: e.month(), day: e.day() },
        )
    }

    /// `NaiveDate::checked_add_days`: the day `n` days later; `None` when
    /// out of range.
    #[verifier::external_body]
    pub(crate) fn checked_add_days(&self, n: u64) -> (r: Option<Date>)
        requires
            self.wf(),
        ensures
            r == days_after(*self, n as nat),
    {
        let d = chrono::NaiveDate::from_ymd_opt(self.year, self.month, self.day).unwrap();
        d.checked_add_days(chrono::Days::new(n)).map(
            |e| Date { year: e.year(), month: e.month(), day: e.day() },
        )
    }

    /// `NaiveDate::checked_sub_days`: the day `n` days earlier; `None` when
    /// out of range.
    #[verifier::external_body]
    pub(crate) fn checked_sub_days(&self, n: u64) -> (r: Option<Date>)
        requires
            self.wf(),
        ensures
            r == days_before(*self, n as nat),
    {
        let d = chrono::NaiveDate::from_ymd_opt(self.year, self.month, self.day).unwrap();
        d.checked_sub_days(chrono::Days::new(n)).map(
            |e| Date { year: e.year(), month: e.month(), day: e.day() },
        )
    }

    /// `NaiveDate::pred_opt`: the previous day; `None` for the first day
    /// that dates can hold.
    #[verifier::external_body]
    pub(crate) fn pred(&self) -> (r: Option<Date>)
        requires
            self.wf(),
        ensures
            r == prev_day(*self),
    {
        let d = chrono::NaiveDate::from_ymd_opt(self.year, self.month, self.day).unwrap();
        d.pred_opt().map(|e| Date { year: e.year(), month: e.month(), day: e.day() })
    }

    /// `Weekday::num_days_from_monday` of the date's weekday: Monday is 0,
    /// Sunday 6.
    #[verifier::external_body]
    pub(crate) fn weekday(&self) -> (r: u32)
        requires
            self.wf(),
        ensures
            r == weekday_from_monday(*self),
    {
        let d = chrono::NaiveDate::from_ymd_opt(self.year, self.month, self.day).unwrap();
        d.weekday().num_days_from_monday()
    }
}

/// `Local::now`: the current local date and the current moment. Nothing
/// is promised of which day or moment it is, only that the day exists.
#[verifier::external_body]
pub(crate) fn local_now() -> (r: (Date, Timestamp))
    ensures
        r.0.wf(),
        r.1.nanos < 2_000_000_000,
{
    let now = chrono::Local::now();
    let d = now.date_naive();
    (
        Date { year: d.year(), month: d.month(), day: d.day() },
        Timestamp { secs: now.timestamp(), nanos: now.timestamp_subsec_nanos() },
    )
}

/// Today's local date.
pub fn today() -> (d: Date)
    ensures
        d.wf(),
{
    local_now().0
}

} // verus!
