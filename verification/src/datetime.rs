//! Calendar parsing (through chrono) and the display formats used by the
//! chat, history and inventory pages.
use vstd::prelude::*;
use crate::text::{int_decimal, nat_decimal, push_char, push_int, push_nat, push_two_digits, two_digits};
use chrono::{Datelike, Timelike};

verus! {

/// A calendar date and wall-clock time with its Unix timestamp.
#[derive(Debug, Clone, Copy, PartialEq, Eq)]
pub struct CivilTime {
    pub year: i32,
    pub month: u32,
    pub day: u32,
    pub hour: u32,
    pub minute: u32,
    pub second: u32,
    pub unix_secs: i64,
}

/// A calendar date.
#[derive(Debug, Clone, Copy, PartialEq, Eq)]
pub struct CivilDate {
    pub year: i32,
    pub month: u32,
    pub day: u32,
}

/// What `chrono::NaiveDateTime::parse_from_str(s, fmt)` yields, as
/// (year, month, day, hour, minute, second, Unix seconds read as UTC),
/// or `None` where chrono rejects the input.
pub uninterp spec fn naive_datetime_parse(s: Seq<char>, fmt: Seq<char>) -> Option<(int, int, int, int, int, int, int)>;

/// What `chrono::DateTime::parse_from_rfc3339(s)` yields, as
/// (year, month, day, hour, minute, second, Unix seconds), the calendar
/// fields read in the timestamp's own offset, or `None` where chrono rejects it.
pub uninterp spec fn rfc3339_parse(s: Seq<char>) -> Option<(int, int, int, int, int, int, int)>;

/// What `chrono::NaiveDate::parse_from_str(s, fmt)` yields, as
/// (year, month, day), or `None` where chrono rejects the input.
pub uninterp spec fn naive_date_parse(s: Seq<char>, fmt: Seq<char>) -> Option<(int, int, int)>;

impl CivilTime {
    pub open spec fn fields(self) -> (int, int, int, int, int, int, int) {
        (
            self.year as int,
            self.month as int,
            self.day as int,
            self.hour as int,
            self.minute as int,
            self.second as int,
            self.unix_secs as int,
        )
    }

    /// The ranges chrono documents for its calendar accessors.
    pub open spec fn in_range(self) -> bool {
        &&& 1 <= self.month <= 12
        &&& 1 <= self.day <= 31
        &&& self.hour <= 23
        &&& self.minute <= 59
        &&& self.second <= 59
    }
}

impl CivilDate {
    pub open spec fn fields(self) -> (int, int, int) {
        (self.year as int, self.month as int, self.day as int)
    }

    /// Calendar order: by year, then month, then day.
    pub open spec fn before(self, other: CivilDate) -> bool {
        ||| self.year < other.year
        ||| (self.year == other.year && self.month < other.month)
        ||| (self.year == other.year && self.month == other.month && self.day < other.day)
    }

    pub fn is_before(&self, other: &CivilDate) -> (r: bool)
        ensures
            r == self.before(*other),
    {
        self.year < other.year || (self.year == other.year && self.month < other.month) || (
        self.year == other.year && self.month == other.month && self.day < other.day)
    }
}

/// Parses a date and time in the format `fmt` with chrono.
/// Trusted: `chrono::NaiveDateTime::parse_from_str`; the result is named by
/// `naive_datetime_parse`, and its fields lie in the ranges chrono's
/// `Datelike`/`Timelike` accessors document.
#[verifier::external_body]
pub(crate) fn parse_naive_datetime(s: &str, fmt: &str) -> (r: Option<CivilTime>)
    ensures
        match r {
            Some(t) => naive_datetime_parse(s@, fmt@) == Some(t.fields()) && t.in_range(),
            None => naive_datetime_parse(s@, fmt@) is None,
        },
{
    match chrono::NaiveDateTime::parse_from_str(s, fmt) {
        Ok(dt) => Some(CivilTime {
            year: dt.year(),
            month: dt.month(),
            day: dt.day(),
            hour: dt.hour(),
            minute: dt.minute(),
            second: dt.second(),
            unix_secs: dt.and_utc().timestamp(),
        }),
        Err(_) => None,
    }
}

/// Parses an RFC 3339 timestamp with chrono.
/// Trusted: `chrono::DateTime::parse_from_rfc3339`; the result is named by
/// `rfc3339_parse`, and its fields lie in the documented ranges.
#[verifier::external_body]
pub(crate) fn parse_rfc3339(s: &str) -> (r: Option<CivilTime>)
    ensures
        match r {
            Some(t) => rfc3339_parse(s@) == Some(t.fields()) && t.in_range(),
            None => rfc3339_parse(s@) is None,
        },
{
    match chrono::DateTime::parse_from_rfc3339(s) {
        Ok(dt) => Some(CivilTime {
            year: dt.year(),
            month: dt.month(),
            day: dt.day(),
            hour: dt.hour(),
            minute: dt.minute(),
            second: dt.second(),
            unix_secs: dt.timestamp(),
        }),
        Err(_) => None,
    }
}

/// Parses a date in the format `fmt` with chrono.
/// Trusted: `chrono::NaiveDate::parse_from_str`; the result is named by
/// `naive_date_parse`.
#[verifier::external_body]
pub(crate) fn parse_naive_date(s: &str, fmt: &str) -> (r: Option<CivilDate>)
    ensures
        match r {
            Some(d) => naive_date_parse(s@, fmt@) == Some(d.fields()),
            None => naive_date_parse(s@, fmt@) is None,
        },
{
    match chrono::NaiveDate::parse_from_str(s, fmt) {
        Ok(d) => Some(CivilDate { year: d.year(), month: d.month(), day: d.day() }),
        Err(_) => None,
    }
}

/// SQLite's `datetime()` text format.
pub open spec fn sqlite_format() -> Seq<char> {
    "%Y-%m-%d %H:%M:%S"@
}

/// The format of the dates in chat log file names.
pub open spec fn day_format() -> Seq<char> {
    "%Y-%m-%d"@
}

/// A SQLite `datetime()` text, parsed.
pub open spec fn sqlite_datetime(s: Seq<char>) -> Option<(int, int, int, int, int, int, int)> {
    naive_datetime_parse(s, sqlite_format())
}

pub fn parse_sqlite_datetime(s: &str) -> (r: Option<CivilTime>)
    ensures
        match r {
            Some(t) => sqlite_datetime(s@) == Some(t.fields()) && t.in_range(),
            None => sqlite_datetime(s@) is None,
        },
{
    parse_naive_datetime(s, "%Y-%m-%d %H:%M:%S")
}

/// Three-letter English month name.
pub open spec fn month_abbrev(m: int) -> Seq<char> {
    if m == 1 {
        "Jan"@
    } else if m == 2 {
        "Feb"@
    } else if m == 3 {
        "Mar"@
    } else if m == 4 {
        "Apr"@
    } else if m == 5 {
        "May"@
    } else if m == 6 {
        "Jun"@
    } else if m == 7 {
        "Jul"@
    } else if m == 8 {
        "Aug"@
    } else if m == 9 {
        "Sep"@
    } else if m == 10 {
        "Oct"@
    } else if m == 11 {
        "Nov"@
    } else {
        "Dec"@
    }
}

/// 12-hour clock text, e.g. "2:30 PM".
pub open spec fn clock_text(hour: int, minute: int) -> Seq<char> {
    let h12: int = if hour % 12 == 0 {
        12
    } else {
        hour % 12
    };
    nat_decimal(h12 as nat) + seq![':'] + two_digits(minute as nat) + seq![' '] + (if hour >= 12 {
        "PM"@
    } else {
        "AM"@
    })
}

/// Date text, e.g. "Mar 31, 2026".
pub open spec fn date_text(year: int, month: int, day: int) -> Seq<char> {
    month_abbrev(month) + seq![' '] + nat_decimal(day as nat) + ", "@ + int_decimal(year)
}

/// The text shown where a timestamp cannot be read.
pub open spec fn placeholder() -> Seq<char> {
    "—"@
}

fn month_name(m: u32) -> (r: &'static str)
    ensures
        r@ == month_abbrev(m as int),
{
    if m == 1 {
        "Jan"
    } else if m == 2 {
        "Feb"
    } else if m == 3 {
        "Mar"
    } else if m == 4 {
        "Apr"
    } else if m == 5 {
        "May"
    } else if m == 6 {
        "Jun"
    } else if m == 7 {
        "Jul"
    } else if m == 8 {
        "Aug"
    } else if m == 9 {
        "Sep"
    } else if m == 10 {
        "Oct"
    } else if m == 11 {
        "Nov"
    } else {
        "Dec"
    }
}

/// Formats the time of day on a 12-hour clock.
pub fn format_clock(hour: u32, minute: u32) -> (r: String)
    requires
        minute < 100,
    ensures
        r@ == clock_text(hour as int, minute as int),
{
    let h: u32 = hour % 12;
    let h12: u32 = if h == 0 {
        12
    } else {
        h
    };
    let mut s = String::new();
    push_nat(&mut s, h12 as u64);
    push_char(&mut s, ':');
    push_two_digits(&mut s, minute as u64);
    push_char(&mut s, ' ');
    if hour >= 12 {
        s.append("PM");
    } else {
        s.append("AM");
    }
    assert(s@ =~= clock_text(hour as int, minute as int));
    s
}

/// Formats a calendar date as "Mon d, yyyy".
pub fn format_date(year: i32, month: u32, day: u32) -> (r: String)
    ensures
        r@ == date_text(year as int, month as int, day as int),
{
    let mut s = String::new();
    s.append(month_name(month));
    push_char(&mut s, ' ');
    push_nat(&mut s, day as u64);
    s.append(", ");
    push_int(&mut s, year as i64);
    assert(s@ =~= date_text(year as int, month as int, day as int));
    s
}

/// The placeholder text.
pub fn placeholder_text() -> (r: String)
    ensures
        r@ == placeholder(),
{
    crate::text::owned("—")
}

/// The (time, date) texts of a parsed timestamp.
pub open spec fn clock_and_date(f: (int, int, int, int, int, int, int)) -> (Seq<char>, Seq<char>) {
    (clock_text(f.3, f.4), date_text(f.0, f.1, f.2))
}

pub fn format_clock_and_date(t: &CivilTime) -> (r: (String, String))
    requires
        t.in_range(),
    ensures
        (r.0@, r.1@) == clock_and_date(t.fields()),
{
    (format_clock(t.hour, t.minute), format_date(t.year, t.month, t.day))
}

/// `n` in at least four decimal digits, zero-padded.
pub open spec fn four_digits(n: nat) -> Seq<char> {
    if n < 10 {
        "000"@ + nat_decimal(n)
    } else if n < 100 {
        "00"@ + nat_decimal(n)
    } else if n < 1000 {
        "0"@ + nat_decimal(n)
    } else {
        nat_decimal(n)
    }
}

/// A year as `%Y` writes it: four digits for years 0 to 9999, otherwise a
/// sign before at least four digits.
pub open spec fn year_text(y: int) -> Seq<char> {
    if 0 <= y <= 9999 {
        four_digits(y as nat)
    } else if y < 0 {
        "-"@ + four_digits((-y) as nat)
    } else {
        "+"@ + four_digits(y as nat)
    }
}

/// A date written `YYYY-MM-DD`.
pub open spec fn ymd_text(y: int, m: int, d: int) -> Seq<char> {
    year_text(y) + "-"@ + two_digits(m as nat) + "-"@ + two_digits(d as nat)
}

/// Whether `t` is some calendar day written `YYYY-MM-DD`.
pub open spec fn is_day_text(t: Seq<char>) -> bool {
    exists|y: int, m: int, d: int| 1 <= m <= 12 && 1 <= d <= 31 && #[trigger] ymd_text(y, m, d) == t
}

/// The date `days` days before now, in UTC, written `YYYY-MM-DD`.
/// Trusted: `chrono::Utc::now() - chrono::Duration::days(days)`, formatted
/// with `%Y-%m-%d`. Which day it is depends on the clock, so only the shape
/// of the text is claimed: a year as `%Y` writes it, then the month and the
/// day in two digits each, in the ranges chrono documents. `Duration::days`
/// panics past about 10^14 days; the bound keeps far from that and from the
/// end of chrono's calendar.
#[verifier::external_body]
pub(crate) fn utc_date_days_ago(days: i64) -> (r: String)
    requires
        0 <= days <= 36500,
    ensures
        is_day_text(r@),
{
    (chrono::Utc::now() - chrono::Duration::days(days)).format("%Y-%m-%d").to_string()
}

/// The calendar date `days` days before now, in UTC.
/// Trusted: `(chrono::Utc::now() - chrono::Duration::days(days)).date_naive()`;
/// the date depends on the clock, so only the ranges chrono's `Datelike`
/// accessors document are claimed.
#[verifier::external_body]
pub(crate) fn utc_civil_date_days_ago(days: i64) -> (d: CivilDate)
    requires
        0 <= days <= 36500,
    ensures
        1 <= d.month <= 12,
        1 <= d.day <= 31,
{
    let date = (chrono::Utc::now() - chrono::Duration::days(days)).date_naive();
    CivilDate { year: date.year(), month: date.month(), day: date.day() }
}

/// The current instant in UTC as RFC 3339 text.
/// Trusted: `chrono::Utc::now().to_rfc3339()`; it depends on the clock, so
/// nothing is claimed of the text.
#[verifier::external_body]
pub(crate) fn utc_now_rfc3339() -> String {
    chrono::Utc::now().to_rfc3339()
}

/// The current instant as Unix seconds and the nanoseconds past that second.
/// Trusted: `chrono::Utc::now()` with `timestamp()` and
/// `timestamp_subsec_nanos()`. The instant depends on the clock; chrono
/// documents the nanoseconds as below 2,000,000,000 (above 999,999,999 only
/// within a leap second).
#[verifier::external_body]
pub(crate) fn utc_now_parts() -> (r: (i64, u32))
    ensures
        r.1 < 2_000_000_000,
{
    let now = chrono::Utc::now();
    (now.timestamp(), now.timestamp_subsec_nanos())
}

/// The current instant as Unix seconds and nanoseconds, a leap second's
/// extra nanoseconds folded into the last nanosecond of the second.
pub fn now_parts() -> (r: (i64, u32))
    ensures
        r.1 < 1_000_000_000,
{
    let (secs, nanos) = utc_now_parts();
    if nanos >= 1_000_000_000 {
        (secs, 999_999_999)
    } else {
        (secs, nanos)
    }
}

} // verus!
