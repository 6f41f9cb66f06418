//! Calendar dates, points in time, and the time bounds of a commit search.

use chrono::{DateTime, Datelike, NaiveDate, NaiveDateTime, NaiveTime, Timelike, Utc};
use vstd::prelude::*;
use crate::text::{decimal_text, zero_padded};

verus! {

/// Leap years of the proleptic Gregorian calendar.
pub open spec fn is_leap_year(y: int) -> bool {
    (y % 4 == 0 && y % 100 != 0) || y % 400 == 0
}

/// The number of days of month `m` (1 to 12) of year `y`.
pub open spec fn days_in_month(y: int, m: int) -> int {
    if m == 2 {
        if is_leap_year(y) {
            29
        } else {
            28
        }
    } else if m == 4 || m == 6 || m == 9 || m == 11 {
        30
    } else {
        31
    }
}

/// A date that exists in the calendar and in chrono's range of years.
pub open spec fn is_calendar_date(y: int, m: int, d: int) -> bool {
    &&& -262143 <= y <= 262142
    &&& 1 <= m <= 12
    &&& 1 <= d <= days_in_month(y, m)
}

/// The number of leap years among the years 1 to `y - 1` (counted the same
/// way for years before 1).
pub open spec fn leap_years_before(y: int) -> int {
    (y - 1) / 4 - (y - 1) / 100 + (y - 1) / 400
}

/// The number of days of year `y` before the first day of month `m`.
pub open spec fn days_before_month(y: int, m: int) -> int {
    let base: int = if m == 1 {
        0
    } else if m == 2 {
        31
    } else if m == 3 {
        59
    } else if m == 4 {
        90
    } else if m == 5 {
        120
    } else if m == 6 {
        151
    } else if m == 7 {
        181
    } else if m == 8 {
        212
    } else if m == 9 {
        243
    } else if m == 10 {
        273
    } else if m == 11 {
        304
    } else {
        334
    };
    let extra: int = if m > 2 && is_leap_year(y) {
        1
    } else {
        0
    };
    base + extra
}

/// The number of days from 1970-01-01 to the given date (negative before).
pub open spec fn days_from_epoch(y: int, m: int, d: int) -> int {
    365 * (y - 1970) + leap_years_before(y) - leap_years_before(1970) + days_before_month(y, m)
        + d - 1
}

/// A year as chrono's `%Y` writes it: four digits at least, and a sign
/// outside the years 0 to 9999.
pub open spec fn year_text(y: int) -> Seq<char> {
    if 0 <= y <= 9999 {
        zero_padded(decimal_text(y as nat), 4)
    } else if y < 0 {
        seq!['-'] + zero_padded(decimal_text((-y) as nat), 4)
    } else {
        seq!['+'] + zero_padded(decimal_text(y as nat), 4)
    }
}

/// A date as chrono's `%Y-%m-%d` writes it.
pub open spec fn ymd_text(y: int, m: int, d: int) -> Seq<char> {
    year_text(y) + seq!['-'] + zero_padded(decimal_text(m as nat), 2) + seq!['-'] + zero_padded(
        decimal_text(d as nat),
        2,
    )
}

/// The date (year, month, day) that chrono's `NaiveDate::parse_from_str`
/// reads from a text with the format `%Y-%m-%d`, if it reads one.
pub uninterp spec fn ymd_parse(s: Seq<char>) -> Option<(i32, u32, u32)>;

/// Reads a `%Y-%m-%d` date with `chrono::NaiveDate::parse_from_str`.
/// The contract names the result (chrono's parser rules are not restated)
/// and states that a date read is a date of the calendar within chrono's
/// range of years, as every `NaiveDate` is.
#[verifier::external_body]
fn parse_ymd(input: &str) -> (r: Option<(i32, u32, u32)>)
    ensures
        r == ymd_parse(input@),
        r matches Some(t) ==> is_calendar_date(t.0 as int, t.1 as int, t.2 as int),
{
    match NaiveDate::parse_from_str(input, "%Y-%m-%d") {
        Ok(date) => Some((date.year(), date.month(), date.day())),
        Err(_) => None,
    }
}

/// Writes a date with chrono's `format("%Y-%m-%d")` (the date built with
/// `NaiveDate::from_ymd_opt`, which accepts every calendar date in range):
/// the year as `%Y` writes it, then month and day with two digits each.
#[verifier::external_body]
fn format_ymd(year: i32, month: u32, day: u32) -> (r: String)
    requires
        is_calendar_date(year as int, month as int, day as int),
    ensures
        r@ == ymd_text(year as int, month as int, day as int),
{
    NaiveDate::from_ymd_opt(year, month, day).unwrap().format("%Y-%m-%d").to_string()
}

/// chrono's `NaiveTime::from_hms_opt`, read back as seconds from midnight:
/// `None` on an hour, minute or second out of range.
#[verifier::external_body]
fn time_of_day(hour: u32, min: u32, sec: u32) -> (r: Option<u32>)
    ensures
        hour < 24 && min < 60 && sec < 60 ==> r == Some((hour * 3600 + min * 60 + sec) as u32),
        !(hour < 24 && min < 60 && sec < 60) ==> r is None,
{
    match NaiveTime::from_hms_opt(hour, min, sec) {
        Some(time) => Some(time.num_seconds_from_midnight()),
        None => None,
    }
}

/// chrono's UTC timestamp (`DateTime<Utc>::timestamp`) of a date and a time
/// of day (built with `NaiveDate::from_ymd_opt` and
/// `NaiveTime::from_num_seconds_from_midnight_opt`, which accept them): the
/// non-leap seconds since 1970-01-01 00:00:00 UTC.
#[verifier::external_body]
fn utc_timestamp(year: i32, month: u32, day: u32, seconds_of_day: u32) -> (r: i64)
    requires
        is_calendar_date(year as int, month as int, day as int),
        seconds_of_day < 86400,
    ensures
        r == days_from_epoch(year as int, month as int, day as int) * 86400 + seconds_of_day,
{
    let date = NaiveDate::from_ymd_opt(year, month, day).unwrap();
    let time = NaiveTime::from_num_seconds_from_midnight_opt(seconds_of_day, 0).unwrap();
    DateTime::<Utc>::from_naive_utc_and_offset(NaiveDateTime::new(date, time), Utc).timestamp()
}

/// The instant (seconds since 1970-01-01 00:00:00 UTC, and nanoseconds)
/// that chrono's `DateTime::parse_from_rfc3339` reads from a text, if any.
pub uninterp spec fn rfc3339_parse(s: Seq<char>) -> Option<(i64, u32)>;

/// Reads an RFC 3339 date and time with `chrono::DateTime::parse_from_rfc3339`
/// and keeps its instant: `timestamp()` and `timestamp_subsec_nanos()`.
/// The contract names the result; chrono's grammar is not restated.
#[verifier::external_body]
fn parse_rfc3339(input: &str) -> (r: Option<(i64, u32)>)
    ensures
        r == rfc3339_parse(input@),
{
    match DateTime::parse_from_rfc3339(input) {
        Ok(moment) => Some((moment.timestamp(), moment.timestamp_subsec_nanos())),
        Err(_) => None,
    }
}

/// A point in time: seconds since 1970-01-01 00:00:00 UTC and the
/// nanoseconds within that second (at least 10^9 during a leap second).
#[derive(Clone, Copy, Debug, PartialEq, Eq, Structural)]
pub struct Instant {
    pub secs: i64,
    pub nanos: u32,
}

/// `a` is not later than `b`.
pub open spec fn instant_le(a: Instant, b: Instant) -> bool {
    a.secs < b.secs || (a.secs == b.secs && a.nanos <= b.nanos)
}

/// `t` lies between `start` and `end`, both included.
pub open spec fn within(t: Instant, start: Instant, end: Instant) -> bool {
    instant_le(start, t) && instant_le(t, end)
}

/// Whether a commit made at `commit_secs` (whole seconds since the epoch)
/// lies between `start` and `end`, both included.
pub fn commit_in_time_window(commit_secs: i64, start: Instant, end: Instant) -> (r: bool)
    ensures
        r == within(Instant { secs: commit_secs, nanos: 0 }, start, end),
{
    let t = Instant { secs: commit_secs, nanos: 0 };
    let after_start = start.secs < t.secs || (start.secs == t.secs && start.nanos <= t.nanos);
    let before_end = t.secs < end.secs || (t.secs == end.secs && t.nanos <= end.nanos);
    after_start && before_end
}

/// The text is a date written exactly as `%Y-%m-%d` writes it.
pub open spec fn is_canonical_date(s: Seq<char>) -> bool {
    &&& ymd_parse(s) matches Some(t)
    &&& is_calendar_date(t.0 as int, t.1 as int, t.2 as int)
    &&& ymd_text(t.0 as int, t.1 as int, t.2 as int) == s
}

/// Whether `input` is a date written as `YYYY-MM-DD`: chrono reads a date
/// from it and writes that date back as the same text.
pub fn is_valid_date_format(input: &str) -> (r: bool)
    ensures
        r == is_canonical_date(input@),
{
    match parse_ymd(input) {
        Some((year, month, day)) => {
            let formatted = format_ymd(year, month, day);
            formatted == input.to_owned()
        },
        None => false,
    }
}

/// Why a day could not be turned into a time bound.
#[derive(Clone, Copy, Debug, PartialEq, Eq, Structural)]
pub enum DateBoundError {
    InvalidDateFormat,
    InvalidTimeFormat,
}

impl DateBoundError {
    /// The message shown for the error.
    pub fn message(&self) -> (r: &'static str)
        ensures
            *self == DateBoundError::InvalidDateFormat ==> r@ == "Invalid date format"@,
            *self == DateBoundError::InvalidTimeFormat ==> r@ == "Invalid time format"@,
    {
        match self {
            DateBoundError::InvalidDateFormat => "Invalid date format",
            DateBoundError::InvalidTimeFormat => "Invalid time format",
        }
    }
}

/// The first (`kind` is `"start"`) or last second of the UTC day that
/// chrono reads from `input` as `%Y-%m-%d`.
pub open spec fn day_bound(input: Seq<char>, kind: Seq<char>) -> Result<Instant, DateBoundError> {
    match ymd_parse(input) {
        Some(t) => Ok(
            Instant {
                secs: (days_from_epoch(t.0 as int, t.1 as int, t.2 as int) * 86400 + if kind
                    == "start"@ {
                    0int
                } else {
                    86399int
                }) as i64,
                nanos: 0,
            },
        ),
        None => Err(DateBoundError::InvalidDateFormat),
    }
}

/// The instant that starts (`mytype` is `"start"`) or ends (any other
/// `mytype`) the UTC day written in `input` as `%Y-%m-%d`: 00:00:00 or
/// 23:59:59 of that day.
pub fn parse_start_date_to_datetime(input: &str, mytype: &str) -> (r: Result<
    Instant,
    DateBoundError,
>)
    ensures
        r == day_bound(input@, mytype@),
        r is Ok ==> reads_calendar_date(input@),
{
    let (year, month, day) = match parse_ymd(input) {
        Some(t) => t,
        None => return Err(DateBoundError::InvalidDateFormat),
    };
    let is_start = mytype.to_owned() == "start".to_owned();
    let time = if is_start {
        time_of_day(0, 0, 0)
    } else {
        time_of_day(23, 59, 59)
    };
    let seconds_of_day = match time {
        Some(s) => s,
        None => return Err(DateBoundError::InvalidTimeFormat),
    };
    let secs = utc_timestamp(year, month, day, seconds_of_day);
    Ok(Instant { secs, nanos: 0 })
}

/// Why the two texts given as search bounds could not be read.
#[derive(Clone, Copy, Debug, PartialEq, Eq, Structural)]
pub enum TimeRangeError {
    /// The two texts are neither both `YYYY-MM-DD` dates nor both RFC 3339.
    UnknownFormat,
    /// A `YYYY-MM-DD` bound could not be turned into an instant.
    InvalidBound(DateBoundError),
}

/// The instant of an RFC 3339 reading.
pub open spec fn rfc_instant(p: (i64, u32)) -> Instant {
    Instant { secs: p.0, nanos: p.1 }
}

/// The search window given by two texts: whole UTC days when both are
/// `YYYY-MM-DD` dates, else the two instants when both are RFC 3339.
pub open spec fn time_range(since: Seq<char>, until: Seq<char>) -> Result<
    (Instant, Instant),
    TimeRangeError,
> {
    if is_canonical_date(since) && is_canonical_date(until) {
        Ok((day_bound(since, "start"@)->Ok_0, day_bound(until, "until"@)->Ok_0))
    } else if rfc3339_parse(since) is Some && rfc3339_parse(until) is Some {
        Ok((rfc_instant(rfc3339_parse(since)->0), rfc_instant(rfc3339_parse(until)->0)))
    } else {
        Err(TimeRangeError::UnknownFormat)
    }
}

/// Reads the bounds of a search by commit time. Two `YYYY-MM-DD` dates give
/// the start of the first day and the last second of the second day (UTC);
/// otherwise two RFC 3339 texts give their instants; anything else is
/// `UnknownFormat`.
pub fn commit_time_range(since: &str, until: &str) -> (r: Result<(Instant, Instant), TimeRangeError>)
    ensures
        r == time_range(since@, until@),
{
    let since_rfc = parse_rfc3339(since);
    let until_rfc = parse_rfc3339(until);
    let since_is_date = is_valid_date_format(since);
    let until_is_date = is_valid_date_format(until);
    if since_is_date && until_is_date {
        proof {
            law_canonical_date_has_bounds(since@, "start"@);
            law_canonical_date_has_bounds(until@, "until"@);
        }
        let start = match parse_start_date_to_datetime(since, "start") {
            Ok(t) => t,
            Err(e) => return Err(TimeRangeError::InvalidBound(e)),
        };
        let end = match parse_start_date_to_datetime(until, "until") {
            Ok(t) => t,
            Err(e) => return Err(TimeRangeError::InvalidBound(e)),
        };
        Ok((start, end))
    } else {
        match (since_rfc, until_rfc) {
            (Some(a), Some(b)) => Ok(
                (Instant { secs: a.0, nanos: a.1 }, Instant { secs: b.0, nanos: b.1 }),
            ),
            _ => Err(TimeRangeError::UnknownFormat),
        }
    }
}

/// A text that `is_valid_date_format` accepts always gives a day bound.
pub proof fn law_canonical_date_has_bounds(s: Seq<char>, kind: Seq<char>)
    requires
        is_canonical_date(s),
    ensures
        day_bound(s, kind) is Ok,
{
}

proof fn lemma_days_from_epoch_bounds(y: int, m: int, d: int)
    requires
        is_calendar_date(y, m, d),
    ensures
        -100_000_000 < days_from_epoch(y, m, d) < 100_000_000,
{
}

/// The days from 1970-01-01 to the date that chrono reads from `s`.
pub open spec fn date_days(s: Seq<char>) -> int {
    let t = ymd_parse(s)->0;
    days_from_epoch(t.0 as int, t.1 as int, t.2 as int)
}

/// chrono reads from `s` a date of the calendar (as every date it reads is).
pub open spec fn reads_calendar_date(s: Seq<char>) -> bool {
    ymd_parse(s) matches Some(t) && is_calendar_date(t.0 as int, t.1 as int, t.2 as int)
}

/// The bounds of one day: the start is a midnight UTC, and the end bound
/// is the last second of the same UTC day.
pub proof fn law_day_bounds_span_one_day(s: Seq<char>, kind: Seq<char>)
    requires
        reads_calendar_date(s),
        kind != "start"@,
    ensures
        day_bound(s, "start"@) is Ok,
        day_bound(s, kind) is Ok,
        day_bound(s, "start"@)->Ok_0.secs % 86400 == 0,
        day_bound(s, kind)->Ok_0.secs == day_bound(s, "start"@)->Ok_0.secs + 86399,
        day_bound(s, kind)->Ok_0.secs / 86400 == day_bound(s, "start"@)->Ok_0.secs / 86400,
        day_bound(s, "start"@)->Ok_0.nanos == 0,
        day_bound(s, kind)->Ok_0.nanos == 0,
{
    let t = ymd_parse(s)->0;
    let days = days_from_epoch(t.0 as int, t.1 as int, t.2 as int);
    lemma_days_from_epoch_bounds(t.0 as int, t.1 as int, t.2 as int);
    assert(-9_000_000_000_000 < days * 86400 < 9_000_000_000_000) by (nonlinear_arith)
        requires
            -100_000_000 < days < 100_000_000,
    ;
    assert((days * 86400) % 86400 == 0) by (nonlinear_arith);
    assert((days * 86400) / 86400 == days) by (nonlinear_arith);
    assert((days * 86400 + 86399) / 86400 == days) by (nonlinear_arith);
}

/// The date `a` comes before the date `b` (year, then month, then day).
pub open spec fn date_before(a: (i32, u32, u32), b: (i32, u32, u32)) -> bool {
    a.0 < b.0 || (a.0 == b.0 && (a.1 < b.1 || (a.1 == b.1 && a.2 < b.2)))
}

/// The days from 1970-01-01 to the first day of year `y`.
pub open spec fn year_start(y: int) -> int {
    365 * (y - 1970) + leap_years_before(y) - leap_years_before(1970)
}

proof fn lemma_year_step(y: int)
    ensures
        year_start(y + 1) == year_start(y) + 365 + if is_leap_year(y) {
            1int
        } else {
            0int
        },
{
    assert(y / 4 - (y - 1) / 4 == if y % 4 == 0 {
        1int
    } else {
        0int
    });
    assert(y / 100 - (y - 1) / 100 == if y % 100 == 0 {
        1int
    } else {
        0int
    });
    assert(y / 400 - (y - 1) / 400 == if y % 400 == 0 {
        1int
    } else {
        0int
    });
    assert(y % 400 == 0 ==> y % 100 == 0 && y % 4 == 0);
    assert(y % 100 == 0 ==> y % 4 == 0);
}

proof fn lemma_year_start_grows(y1: int, y2: int)
    requires
        y1 < y2,
    ensures
        year_start(y2) >= year_start(y1) + 365 + if is_leap_year(y1) {
            1int
        } else {
            0int
        },
    decreases y2 - y1,
{
    lemma_year_step(y1);
    if y2 > y1 + 1 {
        lemma_year_start_grows(y1 + 1, y2);
    }
}

proof fn lemma_days_increase(a: (i32, u32, u32), b: (i32, u32, u32))
    requires
        is_calendar_date(a.0 as int, a.1 as int, a.2 as int),
        is_calendar_date(b.0 as int, b.1 as int, b.2 as int),
        date_before(a, b),
    ensures
        days_from_epoch(a.0 as int, a.1 as int, a.2 as int) < days_from_epoch(
            b.0 as int,
            b.1 as int,
            b.2 as int,
        ),
{
    let (ya, ma, da) = (a.0 as int, a.1 as int, a.2 as int);
    let (yb, mb, db) = (b.0 as int, b.1 as int, b.2 as int);
    assert(days_from_epoch(ya, ma, da) == year_start(ya) + days_before_month(ya, ma) + da - 1);
    assert(days_from_epoch(yb, mb, db) == year_start(yb) + days_before_month(yb, mb) + db - 1);
    if ya < yb {
        lemma_year_start_grows(ya, yb);
        assert(days_before_month(ya, ma) + da - 1 < 365 + if is_leap_year(ya) {
            1int
        } else {
            0int
        });
    } else if ma < mb {
        assert(days_before_month(ya, ma) + days_in_month(ya, ma) <= days_before_month(ya, mb));
    }
}

/// Later dates give later bounds, whatever the kind of bound.
pub proof fn law_day_bounds_order(s1: Seq<char>, s2: Seq<char>, kind: Seq<char>)
    requires
        reads_calendar_date(s1),
        reads_calendar_date(s2),
        date_before(ymd_parse(s1)->0, ymd_parse(s2)->0),
    ensures
        day_bound(s1, kind) is Ok,
        day_bound(s2, kind) is Ok,
        day_bound(s1, kind)->Ok_0.secs < day_bound(s2, kind)->Ok_0.secs,
{
    let a = ymd_parse(s1)->0;
    let b = ymd_parse(s2)->0;
    lemma_days_increase(a, b);
    let da = days_from_epoch(a.0 as int, a.1 as int, a.2 as int);
    let db = days_from_epoch(b.0 as int, b.1 as int, b.2 as int);
    lemma_days_from_epoch_bounds(a.0 as int, a.1 as int, a.2 as int);
    lemma_days_from_epoch_bounds(b.0 as int, b.1 as int, b.2 as int);
    assert(-9_000_000_000_000 < da * 86400 < 9_000_000_000_000) by (nonlinear_arith)
        requires
            -100_000_000 < da < 100_000_000,
    ;
    assert(-9_000_000_000_000 < db * 86400 < 9_000_000_000_000) by (nonlinear_arith)
        requires
            -100_000_000 < db < 100_000_000,
    ;
    assert(da * 86400 + 86399 < db * 86400) by (nonlinear_arith)
        requires
            da < db,
    ;
}

/// Searching from a date to the same date selects exactly the commits made
/// on that day (UTC).
pub proof fn law_one_day_window(s: Seq<char>, commit_secs: i64)
    requires
        is_canonical_date(s),
    ensures
        time_range(s, s) is Ok,
        within(
            Instant { secs: commit_secs, nanos: 0 },
            (time_range(s, s)->Ok_0).0,
            (time_range(s, s)->Ok_0).1,
        ) <==> commit_secs / 86400 == date_days(s),
{
    reveal_strlit("start");
    reveal_strlit("until");
    let t = ymd_parse(s)->0;
    let days = days_from_epoch(t.0 as int, t.1 as int, t.2 as int);
    lemma_days_from_epoch_bounds(t.0 as int, t.1 as int, t.2 as int);
    let c = commit_secs as int;
    assert(-9_000_000_000_000 < days * 86400 < 9_000_000_000_000) by (nonlinear_arith)
        requires
            -100_000_000 < days < 100_000_000,
    ;
    assert("until"@ != "start"@) by {
        assert("until"@[0] != "start"@[0]);
    }
    assert(day_bound(s, "start"@)->Ok_0.secs == days * 86400);
    assert(day_bound(s, "until"@)->Ok_0.secs == days * 86400 + 86399);
    assert(days * 86400 <= c <= days * 86400 + 86399 <==> c / 86400 == days) by (nonlinear_arith);
}

/// A search between two `YYYY-MM-DD` dates holds some instant exactly when
/// the first date is not after the second.
pub proof fn law_date_range_order(since: Seq<char>, until: Seq<char>)
    requires
        is_canonical_date(since),
        is_canonical_date(until),
    ensures
        time_range(since, until) is Ok,
        instant_le((time_range(since, until)->Ok_0).0, (time_range(since, until)->Ok_0).1)
            <==> date_days(since) <= date_days(until),
{
    reveal_strlit("start");
    reveal_strlit("until");
    assert("until"@ != "start"@) by {
        assert("until"@[0] != "start"@[0]);
    }
    let ts = ymd_parse(since)->0;
    let tu = ymd_parse(until)->0;
    lemma_days_from_epoch_bounds(ts.0 as int, ts.1 as int, ts.2 as int);
    lemma_days_from_epoch_bounds(tu.0 as int, tu.1 as int, tu.2 as int);
    let ds = date_days(since);
    let du = date_days(until);
    assert(day_bound(since, "start"@)->Ok_0.secs == ds * 86400);
    assert(day_bound(until, "until"@)->Ok_0.secs == du * 86400 + 86399);
}

/// A window whose start is later than its end holds no instant.
pub proof fn law_inverted_window_is_empty(t: Instant, start: Instant, end: Instant)
    requires
        !instant_le(start, end),
    ensures
        !within(t, start, end),
{
}

} // verus!
