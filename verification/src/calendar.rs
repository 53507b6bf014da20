//! The proleptic Gregorian calendar as the rest of the library sees it, and
//! the calls into `chrono` that turn dates into timestamps and back.

#![allow(deprecated)]

use crate::text::{digits, zero_pad};
use chrono::Datelike;
use chrono::TimeZone;
use chrono::Timelike;
use vstd::prelude::*;

verus! {

/// The first year that `chrono` can represent as a date.
pub const MIN_YEAR: i32 = -262143;

/// The last year that `chrono` can represent as a date.
pub const MAX_YEAR: i32 = 262142;

/// Seconds in a day.
pub const SECONDS_PER_DAY: i64 = 86400;

/// Leap years of the Gregorian calendar.
pub open spec fn is_leap_year(year: int) -> bool {
    year % 4 == 0 && (year % 100 != 0 || year % 400 == 0)
}

/// Number of days of `month` (1 to 12) in `year`.
pub open spec fn month_length(year: int, month: int) -> int {
    if month == 2 {
        if is_leap_year(year) { 29 } else { 28 }
    } else if month == 4 || month == 6 || month == 9 || month == 11 {
        30
    } else {
        31
    }
}

/// Days of `year` that come before the first day of `month`.
pub open spec fn days_before_month(year: int, month: int) -> int {
    let base: int = if month <= 1 {
        0
    } else if month == 2 {
        31
    } else if month == 3 {
        59
    } else if month == 4 {
        90
    } else if month == 5 {
        120
    } else if month == 6 {
        151
    } else if month == 7 {
        181
    } else if month == 8 {
        212
    } else if month == 9 {
        243
    } else if month == 10 {
        273
    } else if month == 11 {
        304
    } else {
        334
    };
    if month > 2 && is_leap_year(year) { base + 1 } else { base }
}

/// Number of leap years in the years before `year`, counted from a fixed origin.
pub open spec fn leap_years_before(year: int) -> int {
    let p = year - 1;
    p / 4 - p / 100 + p / 400
}

/// Days from 1970-01-01 to the given date (negative before it).
pub open spec fn day_number(year: int, month: int, day: int) -> int {
    365 * (year - 1970) + leap_years_before(year) - leap_years_before(1970)
        + days_before_month(year, month) + day - 1
}

/// A month and a day that exist in the given year.
pub open spec fn is_calendar_date(year: int, month: int, day: int) -> bool {
    1 <= month <= 12 && 1 <= day <= month_length(year, month)
}

/// A date that `chrono` can represent.
pub open spec fn in_chrono_range(year: int, month: int, day: int) -> bool {
    is_calendar_date(year, month, day) && MIN_YEAR <= year <= MAX_YEAR
}

/// Seconds since 1970-01-01 00:00:00 UTC of a date and a time of day.
pub open spec fn seconds_of(year: int, month: int, day: int, hour: int, minute: int, second: int) -> int {
    day_number(year, month, day) * 86400 + hour * 3600 + minute * 60 + second
}

/// A timestamp whose date `chrono` can represent.
pub open spec fn timestamp_in_range(secs: int) -> bool {
    day_number(MIN_YEAR as int, 1, 1) * 86400 <= secs < day_number(MAX_YEAR + 1, 1, 1) * 86400
}

/// Lengths of consecutive years.
pub proof fn lemma_year_step(year: int)
    ensures
        day_number(year + 1, 1, 1) == day_number(year, 1, 1) + 365 + (if is_leap_year(year) { 1int } else { 0int }),
{
    let p = year - 1;
    assert((p + 1) / 4 == p / 4 + (if year % 4 == 0 { 1int } else { 0int }));
    assert((p + 1) / 100 == p / 100 + (if year % 100 == 0 { 1int } else { 0int }));
    assert((p + 1) / 400 == p / 400 + (if year % 400 == 0 { 1int } else { 0int }));
    assert(year % 400 == 0 ==> year % 100 == 0 && year % 4 == 0);
    assert(year % 100 == 0 ==> year % 4 == 0);
}

/// The first day of the month after `month` comes `month_length` days after
/// the first day of `month`.
pub proof fn lemma_month_step(year: int, month: int)
    requires
        1 <= month <= 12,
    ensures
        month < 12 ==> day_number(year, month + 1, 1) == day_number(year, month, 1) + month_length(year, month),
        month == 12 ==> day_number(year + 1, 1, 1) == day_number(year, month, 1) + month_length(year, month),
{
    lemma_year_step(year);
}

/// A date of the calendar.
#[derive(Clone, Copy, Debug, PartialEq, Eq, Structural)]
pub struct CalDate {
    pub year: i32,
    pub month: u32,
    pub day: u32,
}

impl CalDate {
    pub open spec fn number(self) -> int {
        day_number(self.year as int, self.month as int, self.day as int)
    }

    pub open spec fn in_range(self) -> bool {
        in_chrono_range(self.year as int, self.month as int, self.day as int)
    }
}

/// A moment of local time: its date and the seconds since its midnight.
#[derive(Clone, Copy, Debug, PartialEq, Eq, Structural)]
pub struct LocalDateTime {
    pub date: CalDate,
    pub seconds_of_day: u32,
}

/// The date and time of day (year, month, day, hour, minute, second) of a timestamp.
pub open spec fn civil_of(secs: int) -> (int, int, int, int, int, int) {
    choose|c: (int, int, int, int, int, int)| is_civil(c) && seconds_of(c.0, c.1, c.2, c.3, c.4, c.5) == secs
}

/// The year as "%Y" writes it: four digits within 0 to 9999, else signed.
pub open spec fn year_text(year: int) -> Seq<char> {
    if 0 <= year <= 9999 {
        zero_pad(digits(year as nat), 4)
    } else if year < 0 {
        seq!['-'] + zero_pad(digits((-year) as nat), 4)
    } else {
        seq!['+'] + zero_pad(digits(year as nat), 4)
    }
}

/// A number of at most two digits, written with two digits.
pub open spec fn two_digits(n: int) -> Seq<char> {
    zero_pad(digits(n as nat), 2)
}

/// "%Y-%m-%d %H:%M:%S" of a date and time.
pub open spec fn civil_text(c: (int, int, int, int, int, int)) -> Seq<char> {
    year_text(c.0) + seq!['-'] + two_digits(c.1) + seq!['-'] + two_digits(c.2) + seq![' ']
        + two_digits(c.3) + seq![':'] + two_digits(c.4) + seq![':'] + two_digits(c.5)
}

/// Calls `chrono`'s `Utc.ymd(year, month, day).and_hms_milli(hour, minute, 0, 0).timestamp()`.
/// Claimed: on a date that `chrono` represents and a valid time, the result is the
/// number of non-leap seconds from 1970-01-01 00:00:00 UTC to that moment of the
/// proleptic Gregorian calendar, as `chrono` documents.
#[verifier::external_body]
pub(crate) fn utc_timestamp(year: i32, month: u32, day: u32, hour: u32, minute: u32) -> (ts: i64)
    requires
        in_chrono_range(year as int, month as int, day as int),
        hour < 24,
        minute < 60,
    ensures
        ts == seconds_of(year as int, month as int, day as int, hour as int, minute as int, 0),
{
    chrono::Utc.ymd(year, month, day).and_hms_milli(hour, minute, 0, 0).timestamp()
}

/// Calls `chrono`'s `NaiveDateTime::from_timestamp(secs, 0)` and reads its year, month,
/// day, hour and minute. Claimed: these are the UTC date and time of day of the
/// timestamp in the proleptic Gregorian calendar.
#[verifier::external_body]
pub(crate) fn civil_from_timestamp(secs: i64) -> (r: (i32, u32, u32, u32, u32))
    requires
        timestamp_in_range(secs as int),
    ensures
        in_chrono_range(r.0 as int, r.1 as int, r.2 as int),
        r.3 < 24,
        r.4 < 60,
        seconds_of(r.0 as int, r.1 as int, r.2 as int, r.3 as int, r.4 as int, 0) <= secs
            < seconds_of(r.0 as int, r.1 as int, r.2 as int, r.3 as int, r.4 as int, 60),
{
    let dt = chrono::NaiveDateTime::from_timestamp(secs, 0);
    (dt.year(), dt.month(), dt.day(), dt.hour(), dt.minute())
}

/// Calls `chrono`'s `NaiveDateTime::from_timestamp(secs, 0).to_string()`.
/// Claimed: the text is "%Y-%m-%d %H:%M:%S" of the UTC date and time of the timestamp,
/// the year written as `chrono`'s `Display` writes it.
#[verifier::external_body]
pub(crate) fn timestamp_text(secs: i64) -> (s: String)
    requires
        timestamp_in_range(secs as int),
    ensures
        s@ == civil_text(civil_of(secs as int)),
{
    chrono::NaiveDateTime::from_timestamp(secs, 0).to_string()
}

/// Calls `chrono`'s `NaiveDate::from_ymd(year, month, day).weekday().num_days_from_sunday()`.
/// Claimed: the days since the last Sunday; 1970-01-01 was a Thursday.
#[verifier::external_body]
pub(crate) fn weekday_from_sunday(date: CalDate) -> (w: u32)
    requires
        date.in_range(),
    ensures
        w as int == (date.number() + 4) % 7,
{
    chrono::NaiveDate::from_ymd(date.year, date.month, date.day).weekday().num_days_from_sunday()
}

/// Calls `chrono`'s `NaiveDate::from_ymd(..) + Duration::days(days)`.
/// Claimed: the date `days` days after the given one (before it when negative).
#[verifier::external_body]
pub(crate) fn shift_date(date: CalDate, days: i64) -> (r: CalDate)
    requires
        date.in_range(),
        day_number(MIN_YEAR as int, 1, 1) <= date.number() + days <= day_number(MAX_YEAR as int, 12, 31),
    ensures
        r.in_range(),
        r.number() == date.number() + days,
{
    let d = chrono::NaiveDate::from_ymd(date.year, date.month, date.day) + chrono::Duration::days(days);
    CalDate { year: d.year(), month: d.month(), day: d.day() }
}

/// Calls `chrono`'s `Local.from_local_datetime(..)` on the given local date and time
/// and reads the timestamp of the single moment it gives. Claimed: `None` when the
/// machine's time zone gives that local time no single moment (it is skipped or
/// repeated); otherwise a moment less than a day away from the same reading in UTC, as
/// a time zone's offset is less than a day (`FixedOffset`). Which moment, and when it
/// is `None`, depends on the time zone and is left unsaid.
#[verifier::external_body]
pub(crate) fn local_timestamp(date: CalDate, hour: u32, minute: u32, second: u32) -> (r: Option<i64>)
    requires
        date.in_range(),
        hour < 24,
        minute < 60,
        second < 60,
    ensures
        r matches Some(t) ==> seconds_of(
            date.year as int,
            date.month as int,
            date.day as int,
            hour as int,
            minute as int,
            second as int,
        ) - 86400 < t < seconds_of(
            date.year as int,
            date.month as int,
            date.day as int,
            hour as int,
            minute as int,
            second as int,
        ) + 86400,
{
    let local = chrono::NaiveDate::from_ymd(date.year, date.month, date.day).and_hms(hour, minute, second);
    match chrono::Local.from_local_datetime(&local).single() {
        Some(t) => Some(t.timestamp()),
        None => None,
    }
}

/// Calls `chrono`'s `Local::now().timestamp()`.
/// Claimed: a timestamp not before 1970 whose date `chrono` can represent (the clock is
/// read through `Utc::now`, which builds it with `DateTime::from_timestamp`); which one
/// depends on the clock and is left unsaid. Like the original's own call, it panics
/// when the system clock reads before 1970 or past the last date `chrono` represents;
/// no `requires` can rule that out, as it depends on the clock alone.
#[verifier::external_body]
pub(crate) fn now_timestamp() -> (ts: i64)
    ensures
        0 <= ts,
        timestamp_in_range(ts as int),
{
    chrono::Local::now().timestamp()
}

/// Calls `chrono`'s `Local::now()` and reads its local date and the seconds since its
/// local midnight. Claimed: a calendar date from 1969 on, no later than the year after
/// the last one `chrono` represents, and a second of the day; which one depends on the
/// clock and the machine's time zone and is left unsaid. Like the original's own call,
/// it panics when the system clock reads before 1970 or past the last date `chrono`
/// represents; no `requires` can rule that out, as it depends on the clock alone.
#[verifier::external_body]
pub(crate) fn local_now() -> (now: LocalDateTime)
    ensures
        is_calendar_date(now.date.year as int, now.date.month as int, now.date.day as int),
        1969 <= now.date.year <= MAX_YEAR + 1,
        now.seconds_of_day < 86400,
{
    let now = chrono::Local::now();
    let d = now.date_naive();
    LocalDateTime {
        date: CalDate { year: d.year(), month: d.month(), day: d.day() },
        seconds_of_day: now.num_seconds_from_midnight(),
    }
}

/// The first days of later years have larger day numbers.
pub proof fn lemma_year_start_monotonic(y1: int, y2: int)
    requires
        y1 <= y2,
    ensures
        day_number(y1, 1, 1) <= day_number(y2, 1, 1),
        y1 < y2 ==> day_number(y1 + 1, 1, 1) <= day_number(y2, 1, 1),
    decreases y2 - y1,
{
    if y1 < y2 {
        lemma_year_step(y2 - 1);
        lemma_year_start_monotonic(y1, y2 - 1);
    }
}

/// A date lies within its year, and later months of a year start later.
pub proof fn lemma_date_within_year(year: int, month: int, day: int)
    requires
        is_calendar_date(year, month, day),
    ensures
        day_number(year, 1, 1) <= day_number(year, month, day) < day_number(year + 1, 1, 1),
        forall|m2: int, d2: int|
            is_calendar_date(year, m2, d2) && month < m2 ==> day_number(year, month, day) < #[trigger] day_number(
                year,
                m2,
                d2,
            ),
{
    lemma_year_step(year);
}

/// Distinct calendar dates have distinct day numbers.
pub proof fn lemma_day_number_injective(y1: int, m1: int, d1: int, y2: int, m2: int, d2: int)
    requires
        is_calendar_date(y1, m1, d1),
        is_calendar_date(y2, m2, d2),
        day_number(y1, m1, d1) == day_number(y2, m2, d2),
    ensures
        y1 == y2 && m1 == m2 && d1 == d2,
{
    lemma_date_within_year(y1, m1, d1);
    lemma_date_within_year(y2, m2, d2);
    if y1 < y2 {
        lemma_year_start_monotonic(y1, y2);
    } else if y2 < y1 {
        lemma_year_start_monotonic(y2, y1);
    }
}

/// A date and time of day, in the calendar.
pub open spec fn is_civil(c: (int, int, int, int, int, int)) -> bool {
    is_calendar_date(c.0, c.1, c.2) && 0 <= c.3 < 24 && 0 <= c.4 < 60 && 0 <= c.5 < 60
}

/// The date and time of day of the timestamp of a date and time of day are that date
/// and time of day.
pub proof fn lemma_civil_of_seconds(c: (int, int, int, int, int, int))
    requires
        is_civil(c),
    ensures
        civil_of(seconds_of(c.0, c.1, c.2, c.3, c.4, c.5)) == c,
{
    let secs = seconds_of(c.0, c.1, c.2, c.3, c.4, c.5);
    assert(is_civil(c) && seconds_of(c.0, c.1, c.2, c.3, c.4, c.5) == secs);
    let e = civil_of(secs);
    assert(is_civil(e) && seconds_of(e.0, e.1, e.2, e.3, e.4, e.5) == secs);
    let n1 = day_number(c.0, c.1, c.2);
    let n2 = day_number(e.0, e.1, e.2);
    let t1 = c.3 * 3600 + c.4 * 60 + c.5;
    let t2 = e.3 * 3600 + e.4 * 60 + e.5;
    assert(n1 * 86400 + t1 == n2 * 86400 + t2);
    assert(n1 == n2) by (nonlinear_arith)
        requires
            n1 * 86400 + t1 == n2 * 86400 + t2,
            0 <= t1 < 86400,
            0 <= t2 < 86400,
    ;
    lemma_day_number_injective(c.0, c.1, c.2, e.0, e.1, e.2);
}

/// Every day number is the day number of a calendar date.
pub proof fn lemma_date_exists(n: int)
    ensures
        exists|y: int, m: int, d: int| is_calendar_date(y, m, d) && #[trigger] day_number(y, m, d) == n,
    decreases (if n < 0 { -n } else { n }),
{
    if n == 0 {
        assert(is_calendar_date(1970, 1, 1) && day_number(1970, 1, 1) == 0);
    } else if n > 0 {
        lemma_date_exists(n - 1);
        let (y, m, d) = choose|y: int, m: int, d: int|
            is_calendar_date(y, m, d) && #[trigger] day_number(y, m, d) == n - 1;
        lemma_month_step(y, m);
        if d < month_length(y, m) {
            assert(is_calendar_date(y, m, d + 1) && day_number(y, m, d + 1) == n);
        } else if m < 12 {
            assert(is_calendar_date(y, m + 1, 1) && day_number(y, m + 1, 1) == n);
        } else {
            assert(is_calendar_date(y + 1, 1, 1) && day_number(y + 1, 1, 1) == n);
        }
    } else {
        lemma_date_exists(n + 1);
        let (y, m, d) = choose|y: int, m: int, d: int|
            is_calendar_date(y, m, d) && #[trigger] day_number(y, m, d) == n + 1;
        if d > 1 {
            assert(is_calendar_date(y, m, d - 1) && day_number(y, m, d - 1) == n);
        } else if m > 1 {
            lemma_month_step(y, m - 1);
            let len = month_length(y, m - 1);
            assert(is_calendar_date(y, m - 1, len) && day_number(y, m - 1, len) == n);
        } else {
            lemma_month_step(y - 1, 12);
            assert(is_calendar_date(y - 1, 12, 31) && day_number(y - 1, 12, 31) == n);
        }
    }
}

/// Every timestamp has a date and time of day: `civil_of` gives them.
pub proof fn lemma_civil_of_exists(secs: int)
    ensures
        ({
            let c = civil_of(secs);
            is_civil(c) && seconds_of(c.0, c.1, c.2, c.3, c.4, c.5) == secs
        }),
{
    let n = secs / 86400;
    let t = secs % 86400;
    lemma_date_exists(n);
    let (y, m, d) = choose|y: int, m: int, d: int| is_calendar_date(y, m, d) && #[trigger] day_number(y, m, d) == n;
    let c = (y, m, d, t / 3600, (t % 3600) / 60, t % 60);
    assert(is_civil(c) && seconds_of(c.0, c.1, c.2, c.3, c.4, c.5) == secs);
}

/// Day numbers of the dates that `chrono` represents stay far inside `i64`.
pub proof fn lemma_day_number_bounds(year: int, month: int, day: int)
    requires
        MIN_YEAR - 1 <= year <= MAX_YEAR + 1,
        1 <= month <= 12,
        1 <= day <= 31,
    ensures
        -100000000 < day_number(year, month, day) < 100000000,
{
}

/// Whether `chrono` represents the date of the timestamp.
pub fn timestamp_is_in_range(secs: i64) -> (b: bool)
    ensures
        b == timestamp_in_range(secs as int),
{
    proof {
        assert(day_number(MIN_YEAR as int, 1, 1) == -96465292);
        assert(day_number(MAX_YEAR + 1, 1, 1) == 95026237);
    }
    -8334601228800 <= secs && secs < 8210266876800
}

/// Whether a date is one that `chrono` represents.
pub fn date_is_in_range(year: i32, month: u32, day: u32) -> (b: bool)
    ensures
        b == in_chrono_range(year as int, month as int, day as int),
{
    if month < 1 || month > 12 || day < 1 || year < MIN_YEAR || year > MAX_YEAR {
        return false;
    }
    let leap = year % 4 == 0 && (year % 100 != 0 || year % 400 == 0);
    let length: u32 = if month == 2 {
        if leap { 29 } else { 28 }
    } else if month == 4 || month == 6 || month == 9 || month == 11 {
        30
    } else {
        31
    };
    day <= length
}

/// Days of a year before a date.
pub proof fn lemma_day_of_year(year: int, month: int, day: int)
    ensures
        day_number(year, month, day) - day_number(year, 1, 1) == days_before_month(year, month) + day - 1,
{
}

/// Days of `year` before the given date.
pub fn day_of_year(year: i32, month: u32, day: u32) -> (n: u32)
    requires
        is_calendar_date(year as int, month as int, day as int),
    ensures
        n == days_before_month(year as int, month as int) + day - 1,
{
    let base: u32 = if month == 1 {
        0
    } else if month == 2 {
        31
    } else if month == 3 {
        59
    } else if month == 4 {
        90
    } else if month == 5 {
        120
    } else if month == 6 {
        151
    } else if month == 7 {
        181
    } else if month == 8 {
        212
    } else if month == 9 {
        243
    } else if month == 10 {
        273
    } else if month == 11 {
        304
    } else {
        334
    };
    let leap = year % 4 == 0 && (year % 100 != 0 || year % 400 == 0);
    let before = if month > 2 && leap { base + 1 } else { base };
    proof {
        assert(leap == is_leap_year(year as int));
        assert(before == days_before_month(year as int, month as int));
    }
    before + day - 1
}

/// Number of days of a month, read off the difference between the first of the
/// next month and the first of this one.
pub fn days_from_month(year: i32, month: u32) -> (days: u32)
    requires
        1 <= month <= 12,
        MIN_YEAR <= year,
        year < MAX_YEAR || (year == MAX_YEAR && month < 12),
    ensures
        days == month_length(year as int, month as int),
{
    proof {
        lemma_month_step(year as int, month as int);
        lemma_day_number_bounds(year as int, month as int, 1);
        lemma_day_number_bounds(year + 1, 1, 1);
        if month < 12 {
            lemma_day_number_bounds(year as int, month + 1, 1);
        }
    }
    let firstday = utc_timestamp(year, month, 1, 0, 0);
    let is_december = month == 12;
    let year = if is_december { year + 1 } else { year };
    let month = if is_december { 1 } else { month + 1 };
    let firstday_nextmonth = utc_timestamp(year, month, 1, 0, 0);
    let num_days = (firstday_nextmonth - firstday) / SECONDS_PER_DAY;
    let magnitude = if num_days < 0 { -num_days } else { num_days };
    magnitude as u32
}

} // verus!
