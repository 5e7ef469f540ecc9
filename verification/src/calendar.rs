//! Dates and times of day in the proleptic Gregorian calendar, with the
//! range and arithmetic of chrono's naive types.
use vstd::prelude::*;
use chrono::{Datelike, Timelike};
use crate::text::{decimal, lemma_decimal_digits, lemma_digit_ends_untrimmed, trim};

verus! {

/// The earliest year that a date can have.
pub const MIN_YEAR: i32 = -262143;

/// The latest year that a date can have.
pub const MAX_YEAR: i32 = 262142;

/// The largest number of whole seconds that a duration can hold, either way.
pub const MAX_DELTA_SECS: i64 = 9_223_372_036_854_775;

/// A calendar date: year, month (1 to 12) and day of the month (from 1).
#[derive(Clone, Copy, Debug, PartialEq, Eq, Structural)]
pub struct Date {
    pub year: i32,
    pub month: u32,
    pub day: u32,
}

/// A time of day: hour (0 to 23), minute and second (0 to 59), and the
/// nanoseconds into the second. A leap second is second 59 with a
/// nanosecond count of a billion or more.
#[derive(Clone, Copy, Debug, PartialEq, Eq, Structural)]
pub struct Time {
    pub hour: u32,
    pub minute: u32,
    pub second: u32,
    pub nanosecond: u32,
}

/// A date together with a time of day, without a time zone.
#[derive(Clone, Copy, Debug, PartialEq, Eq, Structural)]
pub struct DateTime {
    pub date: Date,
    pub time: Time,
}

pub open spec fn is_leap_year(y: int) -> bool {
    y % 4 == 0 && (y % 100 != 0 || y % 400 == 0)
}

pub open spec fn days_in_month(y: int, m: int) -> int {
    if m == 2 {
        if is_leap_year(y) {
            29
        } else {
            28
        }
    } else if m == 4 || m == 6 || m == 9 || m == 11 {
        30
    } else {
        31
    }
}

/// The number of days of year `y` that come before the first of month `m`.
pub open spec fn days_before_month(y: int, m: int) -> int {
    let base: int = if m == 1 {
        0
    } else if m == 2 {
        31
    } else if m == 3 {
        59
    } else if m == 4 {
        90
    } else if m == 5 {
        120
    } else if m == 6 {
        151
    } else if m == 7 {
        181
    } else if m == 8 {
        212
    } else if m == 9 {
        243
    } else if m == 10 {
        273
    } else if m == 11 {
        304
    } else if m == 12 {
        334
    } else {
        0
    };
    if m > 2 && m <= 12 && is_leap_year(y) {
        base + 1
    } else {
        base
    }
}

/// The number of days in the years before year `y`, counted from year 1.
pub open spec fn days_before_year(y: int) -> int {
    let p = y - 1;
    365 * p + p / 4 - p / 100 + p / 400
}

impl Date {
    pub open spec fn valid(self) -> bool {
        &&& MIN_YEAR <= self.year <= MAX_YEAR
        &&& 1 <= self.month <= 12
        &&& 1 <= self.day <= days_in_month(self.year as int, self.month as int)
    }

    /// The day number of this date, January 1 of year 1 being day 1.
    pub open spec fn day_number(self) -> int {
        days_before_year(self.year as int) + days_before_month(self.year as int, self.month as int)
            + self.day
    }
}

impl Time {
    pub open spec fn valid(self) -> bool {
        &&& self.hour < 24 && self.minute < 60 && self.second < 60
        &&& self.nanosecond < 2_000_000_000
        &&& self.nanosecond >= 1_000_000_000 ==> self.second == 59
    }

    /// Seconds since midnight.
    pub open spec fn second_of_day(self) -> int {
        self.hour * 3600 + self.minute * 60 + self.second
    }
}

impl DateTime {
    pub open spec fn valid(self) -> bool {
        self.date.valid() && self.time.valid()
    }

    /// Seconds since midnight before January 1 of year 1: the position of
    /// this instant on the time line, in whole seconds.
    pub open spec fn instant(self) -> int {
        self.date.day_number() * 86400 + self.time.second_of_day()
    }
}

/// Whether `a` is at or after `b`: by the whole second first, then by the
/// nanoseconds into it.
pub open spec fn at_or_after(a: DateTime, b: DateTime) -> bool {
    a.instant() > b.instant() || (a.instant() == b.instant() && a.time.nanosecond
        >= b.time.nanosecond)
}

/// The whole second that lies `secs` seconds after `dt`. Moving back from
/// within a leap second counts from the second that follows it.
pub open spec fn shifted_instant(dt: DateTime, secs: int) -> int {
    if dt.time.nanosecond >= 1_000_000_000 && secs < 0 {
        dt.instant() + 1 + secs
    } else {
        dt.instant() + secs
    }
}

/// The nanoseconds into the second of `dt` moved by `secs` seconds: kept,
/// except that moving out of a leap second drops its extra second.
pub open spec fn shifted_nanosecond(dt: DateTime, secs: int) -> int {
    if dt.time.nanosecond >= 1_000_000_000 && secs != 0 {
        dt.time.nanosecond - 1_000_000_000
    } else {
        dt.time.nanosecond as int
    }
}

/// Whether `x` is `dt` moved by `secs` whole seconds.
pub open spec fn shifted_by(dt: DateTime, secs: int, x: DateTime) -> bool {
    &&& x.valid()
    &&& x.instant() == shifted_instant(dt, secs)
    &&& x.time.nanosecond == shifted_nanosecond(dt, secs)
}

pub open spec fn first_date() -> Date {
    Date { year: MIN_YEAR, month: 1, day: 1 }
}

pub open spec fn last_date() -> Date {
    Date { year: MAX_YEAR, month: 12, day: 31 }
}

/// Whether an instant lies between the first second of the first date and
/// the last second of the last date.
pub open spec fn in_calendar(k: int) -> bool {
    first_date().day_number() * 86400 <= k <= last_date().day_number() * 86400 + 86399
}

#[verifier::spinoff_prover]
#[verifier::rlimit(30)]
fn days_before_month_exec(y: i32, m: u32) -> (r: i64)
    ensures
        r == days_before_month(y as int, m as int),
{
    let base: i64 = if m == 1 {
        0
    } else if m == 2 {
        31
    } else if m == 3 {
        59
    } else if m == 4 {
        90
    } else if m == 5 {
        120
    } else if m == 6 {
        151
    } else if m == 7 {
        181
    } else if m == 8 {
        212
    } else if m == 9 {
        243
    } else if m == 10 {
        273
    } else if m == 11 {
        304
    } else if m == 12 {
        334
    } else {
        0
    };
    let leap = y % 4 == 0 && (y % 100 != 0 || y % 400 == 0);
    assert(leap == is_leap_year(y as int)) by {
        assert((y as int) % 4 == 0 <==> y % 4 == 0);
    }
    if m > 2 && m <= 12 && leap {
        base + 1
    } else {
        base
    }
}

impl Date {
    /// The date with the given year, month and day, where there is one.
    pub fn from_ymd_opt(year: i32, month: u32, day: u32) -> (r: Option<Date>)
        ensures
            r matches Some(d) ==> d == (Date { year, month, day }),
            r is Some <==> (Date { year, month, day }).valid(),
    {
        if year < MIN_YEAR || year > MAX_YEAR || month < 1 || month > 12 || day < 1 {
            return None;
        }
        let leap = year % 4 == 0 && (year % 100 != 0 || year % 400 == 0);
        let dim: u32 = if month == 2 {
            if leap {
                29
            } else {
                28
            }
        } else if month == 4 || month == 6 || month == 9 || month == 11 {
            30
        } else {
            31
        };
        if day > dim {
            None
        } else {
            Some(Date { year, month, day })
        }
    }

    /// The day number of this date, January 1 of year 1 being day 1.
    pub fn num_days_from_ce(&self) -> (r: i64)
        ensures
            r == self.day_number(),
    {
        // Shifting by whole 400-year cycles keeps the divisions on
        // non-negative numbers.
        let p: i64 = self.year as i64 - 1 + 2_160_000_000;
        let before: i64 = 365 * p + p / 4 - p / 100 + p / 400 - 5_400_000 * 146_097;
        proof {
            let q = self.year as int - 1;
            vstd::arithmetic::div_mod::lemma_hoist_over_denominator(q, 540_000_000, 4);
            vstd::arithmetic::div_mod::lemma_hoist_over_denominator(q, 21_600_000, 100);
            vstd::arithmetic::div_mod::lemma_hoist_over_denominator(q, 5_400_000, 400);
            assert(before == days_before_year(self.year as int));
        }
        before + days_before_month_exec(self.year, self.month) + self.day as i64
    }
}

impl Time {
    /// The time of day with the given hour, minute and second, at the start
    /// of the second, where there is one.
    pub fn from_hms_opt(hour: u32, minute: u32, second: u32) -> (r: Option<Time>)
        ensures
            r matches Some(t) ==> t == (Time { hour, minute, second, nanosecond: 0 }),
            r is Some <==> (Time { hour, minute, second, nanosecond: 0 }).valid(),
    {
        if hour < 24 && minute < 60 && second < 60 {
            Some(Time { hour, minute, second, nanosecond: 0 })
        } else {
            None
        }
    }

    /// Seconds since midnight.
    pub fn num_seconds_from_midnight(&self) -> (r: i64)
        ensures
            r == self.second_of_day(),
    {
        self.hour as i64 * 3600 + self.minute as i64 * 60 + self.second as i64
    }
}

/// The day number of a valid date lies within a hundred million days of
/// the start of the count.
pub proof fn lemma_day_number_bounds(d: Date)
    requires
        d.valid(),
    ensures
        -100_000_000 <= d.day_number() <= 100_000_000,
{
}

/// The instant of a valid date and time lies within ten thousand billion
/// seconds of the start of the count.
pub proof fn lemma_instant_bounds(dt: DateTime)
    requires
        dt.valid(),
    ensures
        -10_000_000_000_000 <= dt.instant() <= 10_000_000_000_000,
{
    lemma_day_number_bounds(dt.date);
}

/// Whether the instant `k` lies within the calendar.
pub fn in_calendar_exec(k: i64) -> (r: bool)
    ensures
        r == in_calendar(k as int),
{
    let lo = Date { year: MIN_YEAR, month: 1, day: 1 }.num_days_from_ce();
    let hi = Date { year: MAX_YEAR, month: 12, day: 31 }.num_days_from_ce();
    proof {
        lemma_day_number_bounds(first_date());
        lemma_day_number_bounds(last_date());
    }
    lo * 86400 <= k && k <= hi * 86400 + 86399
}

impl DateTime {
    /// The position of this instant on the time line, in seconds.
    pub fn instant_secs(&self) -> (r: i64)
        ensures
            r == self.instant(),
    {
        let days = self.date.num_days_from_ce();
        days * 86400 + self.time.num_seconds_from_midnight()
    }
}


/// `s` preceded by as many `0` as make it `w` characters long.
pub open spec fn zero_pad(s: Seq<char>, w: nat) -> Seq<char> {
    if s.len() >= w {
        s
    } else {
        Seq::new((w - s.len()) as nat, |i: int| '0') + s
    }
}

/// `n` in decimal, zero-padded to at least `w` digits.
pub open spec fn padded(n: nat, w: nat) -> Seq<char> {
    zero_pad(decimal(n), w)
}

/// A year as the `%Y` field writes it: four digits or more, with a sign
/// outside the years 0 to 9999.
pub open spec fn year_text(y: int) -> Seq<char> {
    if 0 <= y <= 9999 {
        padded(y as nat, 4)
    } else if y < 0 {
        seq!['-'] + padded((-y) as nat, 4)
    } else {
        seq!['+'] + padded(y as nat, 4)
    }
}

/// A date written as `%Y-%m-%d`.
pub open spec fn date_text(d: Date) -> Seq<char> {
    year_text(d.year as int) + seq!['-'] + padded(d.month as nat, 2) + seq!['-'] + padded(
        d.day as nat,
        2,
    )
}

/// A time of day written as `%H:%M`.
pub open spec fn hour_minute_text(t: Time) -> Seq<char> {
    padded(t.hour as nat, 2) + seq![':'] + padded(t.minute as nat, 2)
}

/// A time of day written as `%H:%M:%S`.
pub open spec fn hms_text(t: Time) -> Seq<char> {
    hour_minute_text(t) + seq![':'] + padded(t.second as nat, 2)
}

/// A date and time written as `%Y-%m-%d %H:%M:%S`.
pub open spec fn datetime_text(x: DateTime) -> Seq<char> {
    date_text(x.date) + seq![' '] + hms_text(x.time)
}

/// A date and time written as `%Y-%m-%d %H:%M`.
pub open spec fn datetime_minute_text(x: DateTime) -> Seq<char> {
    date_text(x.date) + seq![' '] + hour_minute_text(x.time)
}

/// Whether the year of `d` is written with four digits and no sign.
pub open spec fn plain_year(d: Date) -> bool {
    0 <= d.year <= 9999
}

/// The time of day `t` at the start of its minute.
pub open spec fn start_of_minute(t: Time) -> Time {
    Time { second: 0, nanosecond: 0, ..t }
}

/// "At or after" orders date-times: it is reflexive, total and transitive,
/// two date-times each at or after the other are the same second and
/// nanosecond, and between times with the same nanosecond it is the order of
/// their whole seconds.
pub proof fn law_at_or_after_orders(a: DateTime, b: DateTime, c: DateTime)
    ensures
        at_or_after(a, a),
        at_or_after(a, b) || at_or_after(b, a),
        at_or_after(a, b) && at_or_after(b, c) ==> at_or_after(a, c),
        at_or_after(a, b) && at_or_after(b, a) ==> a.instant() == b.instant() && a.time.nanosecond
            == b.time.nanosecond,
        a.time.nanosecond == b.time.nanosecond ==> (at_or_after(a, b) <==> a.instant()
            >= b.instant()),
        a.instant() > b.instant() ==> at_or_after(a, b) && !at_or_after(b, a),
{
}

/// Moving a date-time forward by `secs` seconds lands `secs` seconds later,
/// in the same fraction of a second unless it leaves a leap second; moving
/// by nothing keeps it.
pub proof fn law_shift_forward(dt: DateTime, secs: int, x: DateTime)
    requires
        dt.valid(),
        secs >= 0,
        shifted_by(dt, secs, x),
    ensures
        x.instant() == dt.instant() + secs,
        dt.time.nanosecond < 1_000_000_000 ==> x.time.nanosecond == dt.time.nanosecond,
        secs > 0 ==> at_or_after(x, dt) && !at_or_after(dt, x),
        secs == 0 ==> x.instant() == dt.instant() && x.time.nanosecond == dt.time.nanosecond,
{
}

/// A padded number is at least `w` digits long, and starts and ends with a
/// digit.
pub proof fn lemma_padded_digits(n: nat, w: nat)
    ensures
        padded(n, w).len() > 0,
        padded(n, w).len() >= w,
        '0' <= padded(n, w)[0] <= '9',
        '0' <= padded(n, w).last() <= '9',
{
    lemma_decimal_digits(n);
    let d = decimal(n);
    assert(crate::text::is_digit(d[0]));
    assert(crate::text::is_digit(d[d.len() - 1]));
    if d.len() < w {
        let z = Seq::new((w - d.len()) as nat, |i: int| '0');
        assert(padded(n, w) == z + d);
        assert((z + d)[0] == '0');
        assert((z + d).last() == d[d.len() - 1]);
    }
}

/// A date with a four-digit year is written without surrounding
/// whitespace.
pub proof fn lemma_date_text_untrimmed(d: Date)
    requires
        plain_year(d),
    ensures
        trim(date_text(d)) == date_text(d),
{
    lemma_padded_digits(d.year as nat, 4);
    lemma_padded_digits(d.month as nat, 2);
    lemma_padded_digits(d.day as nat, 2);
    let s = date_text(d);
    assert(s[0] == padded(d.year as nat, 4)[0]);
    assert(s.last() == padded(d.day as nat, 2).last());
    lemma_digit_ends_untrimmed(s);
}

/// A time of day is written without surrounding whitespace.
pub proof fn lemma_hour_minute_text_untrimmed(t: Time)
    ensures
        trim(hour_minute_text(t)) == hour_minute_text(t),
{
    lemma_padded_digits(t.hour as nat, 2);
    lemma_padded_digits(t.minute as nat, 2);
    let s = hour_minute_text(t);
    assert(s[0] == padded(t.hour as nat, 2)[0]);
    assert(s.last() == padded(t.minute as nat, 2).last());
    lemma_digit_ends_untrimmed(s);
}

/// A date and time with a four-digit year is written without surrounding
/// whitespace, with seconds or without.
pub proof fn lemma_datetime_texts_untrimmed(x: DateTime)
    requires
        plain_year(x.date),
    ensures
        trim(datetime_text(x)) == datetime_text(x),
        trim(datetime_minute_text(x)) == datetime_minute_text(x),
{
    lemma_padded_digits(x.date.year as nat, 4);
    lemma_padded_digits(x.time.minute as nat, 2);
    lemma_padded_digits(x.time.second as nat, 2);
    let s = datetime_text(x);
    let m = datetime_minute_text(x);
    assert(s[0] == padded(x.date.year as nat, 4)[0]);
    assert(s.last() == padded(x.time.second as nat, 2).last());
    assert(m[0] == padded(x.date.year as nat, 4)[0]);
    assert(m.last() == padded(x.time.minute as nat, 2).last());
    lemma_digit_ends_untrimmed(s);
    lemma_digit_ends_untrimmed(m);
}

/// What `chrono::NaiveDateTime::parse_from_str(s, fmt)` gives.
pub uninterp spec fn parsed_datetime(s: Seq<char>, fmt: Seq<char>) -> Option<DateTime>;

/// What `chrono::NaiveDate::parse_from_str(s, fmt)` gives.
pub uninterp spec fn parsed_date(s: Seq<char>, fmt: Seq<char>) -> Option<Date>;

/// What `chrono::NaiveTime::parse_from_str(s, fmt)` gives.
pub uninterp spec fn parsed_time(s: Seq<char>, fmt: Seq<char>) -> Option<Time>;

/// Calls `chrono::NaiveDateTime::checked_add_signed` with a whole number of
/// seconds. chrono's arithmetic on naive date-times is exact: the result is
/// `dt` moved by `secs` seconds, nanoseconds kept (a leap second is left as
/// `shifted_by` says), and there is none when that second falls outside
/// chrono's range of dates.
#[verifier::external_body]
pub(crate) fn checked_add_seconds(dt: DateTime, secs: i64) -> (r: Option<DateTime>)
    requires
        dt.valid(),
        -MAX_DELTA_SECS <= secs <= MAX_DELTA_SECS,
    ensures
        r matches Some(x) ==> shifted_by(dt, secs as int, x),
        r is None <==> !in_calendar(shifted_instant(dt, secs as int)),
{
    let (d, t) = (dt.date, dt.time);
    let n = chrono::NaiveDate::from_ymd_opt(d.year, d.month, d.day).unwrap()
        .and_hms_nano_opt(t.hour, t.minute, t.second, t.nanosecond).unwrap();
    match n.checked_add_signed(chrono::TimeDelta::try_seconds(secs).unwrap()) {
        Some(x) => Some(DateTime {
            date: Date { year: x.year(), month: x.month(), day: x.day() },
            time: Time { hour: x.hour(), minute: x.minute(), second: x.second(), nanosecond: x.nanosecond() },
        }),
        None => None,
    }
}

/// Calls `chrono::Local::now().naive_local()`: the local wall-clock time,
/// to the nanosecond. Nothing is claimed of it but that it is a valid date
/// and time of day.
#[verifier::external_body]
pub(crate) fn local_now() -> (r: DateTime)
    ensures
        r.valid(),
{
    let x = chrono::Local::now().naive_local();
    DateTime {
        date: Date { year: x.year(), month: x.month(), day: x.day() },
        time: Time { hour: x.hour(), minute: x.minute(), second: x.second(), nanosecond: x.nanosecond() },
    }
}

/// Calls `chrono::NaiveDateTime::parse_from_str`. Its result is named;
/// chrono only produces valid dates and times. What chrono's parser does
/// with its own output is stated for years of four digits: `%S` reads the
/// two digits of a second, at its start; `%H:%M` leaves the seconds at 0;
/// and text without seconds runs short of `%S`.
#[verifier::external_body]
pub(crate) fn parse_datetime(s: &str, fmt: &str) -> (r: Option<DateTime>)
    ensures
        r == parsed_datetime(s@, fmt@),
        r matches Some(x) ==> x.valid(),
        forall|x: DateTime|
            #![trigger datetime_text(x)]
            x.valid() && plain_year(x.date) && x.time.nanosecond == 0 && s@ == datetime_text(x)
                && fmt@ == "%Y-%m-%d %H:%M:%S"@ ==> r == Some(x),
        forall|x: DateTime|
            #![trigger datetime_minute_text(x)]
            x.valid() && plain_year(x.date) && s@ == datetime_minute_text(x) && fmt@
                == "%Y-%m-%d %H:%M"@ ==> r == Some(
                DateTime { date: x.date, time: start_of_minute(x.time) },
            ),
        forall|x: DateTime|
            #![trigger datetime_minute_text(x)]
            x.valid() && plain_year(x.date) && s@ == datetime_minute_text(x) && fmt@
                == "%Y-%m-%d %H:%M:%S"@ ==> r is None,
{
    match chrono::NaiveDateTime::parse_from_str(s, fmt) {
        Ok(x) => Some(DateTime {
            date: Date { year: x.year(), month: x.month(), day: x.day() },
            time: Time { hour: x.hour(), minute: x.minute(), second: x.second(), nanosecond: x.nanosecond() },
        }),
        Err(_) => None,
    }
}

/// Calls `chrono::NaiveDate::parse_from_str`. Its result is named; chrono
/// only produces valid dates, and reads back a `%Y-%m-%d` date of its own
/// whose year has four digits.
#[verifier::external_body]
pub(crate) fn parse_date(s: &str, fmt: &str) -> (r: Option<Date>)
    ensures
        r == parsed_date(s@, fmt@),
        r matches Some(d) ==> d.valid(),
        forall|d: Date|
            #![trigger date_text(d)]
            d.valid() && plain_year(d) && s@ == date_text(d) && fmt@ == "%Y-%m-%d"@ ==> r == Some(
                d,
            ),
{
    match chrono::NaiveDate::parse_from_str(s, fmt) {
        Ok(x) => Some(Date { year: x.year(), month: x.month(), day: x.day() }),
        Err(_) => None,
    }
}

/// Calls `chrono::NaiveTime::parse_from_str`. Its result is named; chrono
/// only produces valid times of day, and reads a `%H:%M` time of its own
/// back as the start of that minute.
#[verifier::external_body]
pub(crate) fn parse_time(s: &str, fmt: &str) -> (r: Option<Time>)
    ensures
        r == parsed_time(s@, fmt@),
        r matches Some(t) ==> t.valid(),
        forall|t: Time|
            #![trigger hour_minute_text(t)]
            t.valid() && s@ == hour_minute_text(t) && fmt@ == "%H:%M"@ ==> r == Some(
                start_of_minute(t),
            ),
{
    match chrono::NaiveTime::parse_from_str(s, fmt) {
        Ok(x) => Some(Time { hour: x.hour(), minute: x.minute(), second: x.second(), nanosecond: x.nanosecond() }),
        Err(_) => None,
    }
}

/// Calls `chrono::NaiveDate::format` with `%Y-%m-%d`: the year as `%Y`
/// writes it, then month and day with two digits each.
#[verifier::external_body]
pub(crate) fn format_ymd(d: Date) -> (r: String)
    requires
        d.valid(),
    ensures
        r@ == date_text(d),
{
    chrono::NaiveDate::from_ymd_opt(d.year, d.month, d.day).unwrap().format("%Y-%m-%d").to_string()
}

/// Calls `chrono::NaiveTime::format` with `%H:%M`: hour and minute with two
/// digits each.
#[verifier::external_body]
pub(crate) fn format_hm(t: Time) -> (r: String)
    requires
        t.valid(),
    ensures
        r@ == hour_minute_text(t),
{
    let n = chrono::NaiveTime::from_hms_nano_opt(t.hour, t.minute, t.second, t.nanosecond).unwrap();
    n.format("%H:%M").to_string()
}

} // verus!
