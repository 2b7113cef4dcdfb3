//! Calendar dates of the proleptic Gregorian calendar, their ISO 8601 text,
//! and the day on which an instant falls in UTC.

use crate::text::single_line;
use chrono::DateTime;
use chrono::Datelike;
use chrono::NaiveDate;
use vstd::prelude::*;

verus! {

/// The first year that a date can have.
pub const MIN_YEAR: i32 = -262_143;

/// The last year that a date can have.
pub const MAX_YEAR: i32 = 262_142;

/// The first day that a date can be, the first of January of `MIN_YEAR`,
/// counted in days from the first of January of 1970.
pub const FIRST_DAY: i64 = -96_465_292;

/// The last day that a date can be, the last of December of `MAX_YEAR`,
/// counted in days from the first of January of 1970.
pub const LAST_DAY: i64 = 95_026_236;

/// The first second of `FIRST_DAY` in UTC, counted in seconds from the start
/// of 1970.
pub const FIRST_SECOND: i64 = FIRST_DAY * 86_400;

/// The last second of `LAST_DAY` in UTC, counted in seconds from the start of
/// 1970.
pub const LAST_SECOND: i64 = LAST_DAY * 86_400 + 86_399;

/// The number of days from the first of January of the year 1 to the first
/// of January of `year`: 365 for each year between them and one more for
/// each leap year.
pub open spec fn days_before_year(year: int) -> int {
    365 * (year - 1) + (year - 1) / 4 - (year - 1) / 100 + (year - 1) / 400
}

/// `FIRST_DAY` and `LAST_DAY` are the first day of `MIN_YEAR` and the day
/// before the first day of the year after `MAX_YEAR`, counted from the first
/// day of 1970.
pub proof fn lemma_day_range()
    ensures
        FIRST_DAY == days_before_year(MIN_YEAR as int) - days_before_year(1970),
        LAST_DAY == days_before_year(MAX_YEAR + 1) - 1 - days_before_year(1970),
        FIRST_SECOND == -8_334_601_228_800,
        LAST_SECOND == 8_210_266_876_799,
{
}

/// Whether `year` has a 29th of February.
pub open spec fn is_leap_year(year: int) -> bool {
    year % 4 == 0 && (year % 100 != 0 || year % 400 == 0)
}

/// The number of days of `month` in `year`.
pub open spec fn days_in_month(year: int, month: int) -> int {
    if month == 2 {
        if is_leap_year(year) {
            29
        } else {
            28
        }
    } else if month == 4 || month == 6 || month == 9 || month == 11 {
        30
    } else {
        31
    }
}

/// The character for a digit `n` from 0 to 9.
pub open spec fn digit(n: int) -> char {
    seq!['0', '1', '2', '3', '4', '5', '6', '7', '8', '9'][n]
}

/// `n` below 100 in two digits.
pub open spec fn two_digits(n: int) -> Seq<char> {
    seq![digit(n / 10), digit(n % 10)]
}

/// `n` in decimal digits, without leading zeros.
pub open spec fn decimal(n: nat) -> Seq<char>
    decreases n,
{
    if n < 10 {
        seq![digit(n as int)]
    } else {
        decimal(n / 10).push(digit(n as int % 10))
    }
}

/// A year as ISO 8601 writes it: four digits for the years 0 to 9999;
/// otherwise a sign, then the year's distance from 0 in at least four digits.
pub open spec fn year_text(year: int) -> Seq<char> {
    if 0 <= year <= 9999 {
        two_digits(year / 100) + two_digits(year % 100)
    } else if -9999 <= year < 0 {
        seq!['-'] + two_digits(-year / 100) + two_digits(-year % 100)
    } else if year < 0 {
        seq!['-'] + decimal((-year) as nat)
    } else {
        seq!['+'] + decimal(year as nat)
    }
}

/// A day of the calendar: the mathematical model of a [`Date`].
pub struct CalendarDate {
    pub year: int,
    pub month: int,
    pub day: int,
}

impl CalendarDate {
    /// Whether the calendar has this day, in a year that a date can have.
    pub open spec fn valid(self) -> bool {
        &&& MIN_YEAR <= self.year <= MAX_YEAR
        &&& 1 <= self.month <= 12
        &&& 1 <= self.day <= days_in_month(self.year, self.month)
    }

    /// The date as ISO 8601 writes it: year, month and day of the month, with
    /// a hyphen between them.
    pub open spec fn iso_text(self) -> Seq<char> {
        year_text(self.year) + seq!['-'] + two_digits(self.month) + seq!['-'] + two_digits(
            self.day,
        )
    }
}

/// The calendar day with the given year, month and day of the month.
pub open spec fn calendar_date(year: int, month: int, day: int) -> CalendarDate {
    CalendarDate { year, month, day }
}

/// Decimal digits hold no line feed.
pub proof fn lemma_decimal_single_line(n: nat)
    ensures
        single_line(decimal(n)),
    decreases n,
{
    if n >= 10 {
        lemma_decimal_single_line(n / 10);
    }
}

/// The text of a valid date holds no line feed.
pub proof fn lemma_iso_text_single_line(date: CalendarDate)
    requires
        date.valid(),
    ensures
        single_line(date.iso_text()),
{
    if date.year < 0 {
        lemma_decimal_single_line((-date.year) as nat);
    } else {
        lemma_decimal_single_line(date.year as nat);
    }
}

/// The day on which the instant `secs` seconds after the start of 1970 in
/// UTC falls there (before it, where `secs` is negative); `None` for an
/// instant before the first or after the last day that a date can be.
pub uninterp spec fn utc_date_of(secs: i64) -> Option<CalendarDate>;

/// Whether the instant `secs` seconds after the start of 1970 in UTC falls
/// on a day that a date can be.
pub open spec fn in_range(secs: i64) -> bool {
    FIRST_SECOND <= secs <= LAST_SECOND
}

/// Whether an instant that may be missing is there and falls on a day that a
/// date can be.
pub open spec fn has_day(secs: Option<i64>) -> bool {
    match secs {
        Some(s) => in_range(s),
        None => false,
    }
}

/// The day in UTC of an instant that may be missing, `secs` seconds after
/// the start of 1970.
pub open spec fn utc_day(secs: Option<i64>) -> Option<CalendarDate> {
    match secs {
        Some(s) => utc_date_of(s),
        None => None,
    }
}

/// A day of the calendar. Every value is valid: see [`CalendarDate::valid`].
#[derive(Clone, Copy, Debug, PartialEq, Eq)]
pub struct Date {
    year: i32,
    month: u32,
    day: u32,
}

impl View for Date {
    type V = CalendarDate;

    closed spec fn view(&self) -> CalendarDate {
        calendar_date(self.year as int, self.month as int, self.day as int)
    }
}

/// `DateTime::<Utc>::from_timestamp_secs` of chrono, then `date_naive` and
/// the date's `year`, `month` and `day`: the result is the day that
/// `utc_date_of` names, which is a valid date, and `None` where it names
/// none. There is a day for the seconds from the first of the first day to
/// the last of the last day that a `NaiveDate` can be, and for no others.
#[verifier::external_body]
fn utc_date(secs: i64) -> (date: Option<(i32, u32, u32)>)
    ensures
        date is Some <==> in_range(secs),
        date is None <==> utc_date_of(secs) is None,
        date matches Some(d) ==> utc_date_of(secs) == Some(
            calendar_date(d.0 as int, d.1 as int, d.2 as int),
        ) && calendar_date(d.0 as int, d.1 as int, d.2 as int).valid(),
{
    match DateTime::from_timestamp_secs(secs) {
        Some(instant) => {
            let d = instant.date_naive();
            Some((d.year(), d.month(), d.day()))
        },
        None => None,
    }
}

/// `NaiveDate::from_ymd_opt` of chrono, then the date's `Display`: a valid
/// date has a text, and the text is the date's ISO 8601 form.
#[verifier::external_body]
fn iso_date(year: i32, month: u32, day: u32) -> (text: Option<String>)
    ensures
        calendar_date(year as int, month as int, day as int).valid() ==> text is Some,
        text matches Some(t) ==> t@ == calendar_date(
            year as int,
            month as int,
            day as int,
        ).iso_text(),
{
    match NaiveDate::from_ymd_opt(year, month, day) {
        Some(d) => Some(d.to_string()),
        None => None,
    }
}

impl Date {
    /// Every date is a day that the calendar has.
    #[verifier::type_invariant]
    pub open spec fn wf(&self) -> bool {
        self@.valid()
    }

    /// The date with the given year, month and day of the month, if the
    /// calendar has that day.
    pub fn from_ymd_opt(year: i32, month: u32, day: u32) -> (date: Option<Date>)
        ensures
            date is Some <==> calendar_date(year as int, month as int, day as int).valid(),
            date matches Some(d) ==> d@ == calendar_date(year as int, month as int, day as int),
            date matches Some(d) ==> d@.valid(),
    {
        if year < MIN_YEAR || year > MAX_YEAR || month < 1 || month > 12 || day < 1 {
            return None;
        }
        // 400_000 years are a whole number of leap year cycles
        let shifted: i32 = year + 400_000;
        let leap = shifted % 4 == 0 && (shifted % 100 != 0 || shifted % 400 == 0);
        let last: u32 = if month == 2 {
            if leap {
                29
            } else {
                28
            }
        } else if month == 4 || month == 6 || month == 9 || month == 11 {
            30
        } else {
            31
        };
        if day > last {
            return None;
        }
        Some(Date { year, month, day })
    }

    /// The day on which the instant `secs` seconds after the start of 1970
    /// in UTC falls there, if it is a day that a date can be.
    pub fn from_timestamp(secs: i64) -> (date: Option<Date>)
        ensures
            view_of(date) == utc_date_of(secs),
            date is Some <==> in_range(secs),
            date matches Some(d) ==> d@.valid(),
    {
        match utc_date(secs) {
            Some((year, month, day)) => Some(Date { year, month, day }),
            None => None,
        }
    }

    /// The year.
    pub fn year(&self) -> (year: i32)
        ensures
            year == self@.year,
    {
        self.year
    }

    /// The month, from 1 to 12.
    pub fn month(&self) -> (month: u32)
        ensures
            month == self@.month,
    {
        self.month
    }

    /// The day of the month, from 1.
    pub fn day(&self) -> (day: u32)
        ensures
            day == self@.day,
    {
        self.day
    }

    /// The date as ISO 8601 writes it.
    pub fn to_iso_string(&self) -> (text: String)
        ensures
            text@ == self@.iso_text(),
    {
        proof {
            use_type_invariant(self);
        }
        iso_date(self.year, self.month, self.day).unwrap()
    }
}

/// The model of a date that may be missing.
pub open spec fn view_of(date: Option<Date>) -> Option<CalendarDate> {
    match date {
        Some(d) => Some(d@),
        None => None,
    }
}

} // verus!
