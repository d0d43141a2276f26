//! Dates, times and durations of the proleptic Gregorian calendar.
//!
//! The types here hold, as plain integers, what the calendar logic reads
//! of a date or a date-time. Their meaning is given by a mathematical model:
//! every valid date has a day number (days since 0001-01-01), and every
//! date-time a timestamp (nanoseconds since 0001-01-01T00:00:00).
//! The calendar arithmetic itself is done by `chrono`, behind the trusted
//! items at the end of this file, whose contracts are stated over that model.

use vstd::prelude::*;
use chrono::{Datelike, Timelike};

use crate::calendar::{hour12, month_name_spec};
use crate::text::padded_decimal;

verus! {

/// Earliest year that a `Date` can hold (the range of `chrono::NaiveDate`).
pub const MIN_YEAR: i32 = -262143;

/// Latest year that a `Date` can hold (the range of `chrono::NaiveDate`).
pub const MAX_YEAR: i32 = 262142;

/// Nanoseconds in one second.
pub const NANOS_PER_SEC: i64 = 1_000_000_000;

/// Seconds in one day.
pub const SECS_PER_DAY: i64 = 86_400;

// ---------------------------------------------------------------------------
// The calendar model
// ---------------------------------------------------------------------------

pub open spec fn is_leap_year(y: int) -> bool {
    y % 4 == 0 && (y % 100 != 0 || y % 400 == 0)
}

pub open spec fn leap_bonus(y: int) -> int {
    if is_leap_year(y) { 1 } else { 0 }
}

/// Number of days in month `m` (1..=12) of year `y`.
pub open spec fn days_in_month(y: int, m: int) -> int {
    if m == 2 {
        28 + leap_bonus(y)
    } else if m == 4 || m == 6 || m == 9 || m == 11 {
        30
    } else {
        31
    }
}

/// Days of year `y` that come before the first of month `m` (1..=13).
pub open spec fn days_before_month(y: int, m: int) -> int {
    if m <= 1 {
        0
    } else if m == 2 {
        31
    } else if m == 3 {
        59 + leap_bonus(y)
    } else if m == 4 {
        90 + leap_bonus(y)
    } else if m == 5 {
        120 + leap_bonus(y)
    } else if m == 6 {
        151 + leap_bonus(y)
    } else if m == 7 {
        181 + leap_bonus(y)
    } else if m == 8 {
        212 + leap_bonus(y)
    } else if m == 9 {
        243 + leap_bonus(y)
    } else if m == 10 {
        273 + leap_bonus(y)
    } else if m == 11 {
        304 + leap_bonus(y)
    } else if m == 12 {
        334 + leap_bonus(y)
    } else {
        365 + leap_bonus(y)
    }
}

/// Days from 0001-01-01 to the first of January of year `y`.
pub open spec fn days_before_year(y: int) -> int {
    365 * (y - 1) + (y - 1) / 4 - (y - 1) / 100 + (y - 1) / 400
}

/// Day number of a calendar date: 0 for 0001-01-01, counting up by one per day.
#[verifier::opaque]
pub open spec fn day_number(y: int, m: int, d: int) -> int {
    days_before_year(y) + days_before_month(y, m) + d - 1
}

/// Whether `(y, m, d)` is a date of the calendar within the supported years.
pub open spec fn valid_ymd(y: int, m: int, d: int) -> bool {
    &&& MIN_YEAR <= y <= MAX_YEAR
    &&& 1 <= m <= 12
    &&& 1 <= d <= days_in_month(y, m)
}

/// Day number of the earliest supported date.
pub open spec fn min_day_number() -> int {
    day_number(MIN_YEAR as int, 1, 1)
}

/// Day number of the latest supported date.
pub open spec fn max_day_number() -> int {
    day_number(MAX_YEAR as int, 12, 31)
}

pub open spec fn day_in_range(n: int) -> bool {
    min_day_number() <= n <= max_day_number()
}

pub open spec fn nanos_per_day() -> int {
    86_400_000_000_000
}

/// Largest magnitude of a duration, in nanoseconds (`i64::MAX` milliseconds).
pub open spec fn max_delta_nanos() -> int {
    9_223_372_036_854_775_807_000_000
}

// ---------------------------------------------------------------------------
// Types
// ---------------------------------------------------------------------------

/// Day of the week.
#[derive(Clone, Copy, Debug, PartialEq, Eq, Structural)]
pub enum Weekday {
    Mon,
    Tue,
    Wed,
    Thu,
    Fri,
    Sat,
    Sun,
}

impl Weekday {
    /// Days since Monday: Mon = 0, ..., Sun = 6.
    pub open spec fn index(self) -> int {
        match self {
            Weekday::Mon => 0,
            Weekday::Tue => 1,
            Weekday::Wed => 2,
            Weekday::Thu => 3,
            Weekday::Fri => 4,
            Weekday::Sat => 5,
            Weekday::Sun => 6,
        }
    }

    /// Days since Monday: Mon = 0, ..., Sun = 6.
    pub fn num_days_from_monday(self) -> (r: u32)
        ensures
            r == self.index(),
    {
        match self {
            Weekday::Mon => 0,
            Weekday::Tue => 1,
            Weekday::Wed => 2,
            Weekday::Thu => 3,
            Weekday::Fri => 4,
            Weekday::Sat => 5,
            Weekday::Sun => 6,
        }
    }
}

/// A calendar date (year, month 1..=12, day 1..=31).
#[derive(Clone, Copy, Debug, PartialEq, Eq, Structural)]
pub struct Date {
    pub year: i32,
    pub month: u32,
    pub day: u32,
}

impl Date {
    pub open spec fn wf(self) -> bool {
        valid_ymd(self.year as int, self.month as int, self.day as int)
    }

    /// Day number of this date (0 for 0001-01-01).
    pub open spec fn num(self) -> int {
        day_number(self.year as int, self.month as int, self.day as int)
    }

    /// Day of the week of this date.
    pub open spec fn weekday_index(self) -> int {
        self.num() % 7
    }

    /// Makes a date from year, month and day; `None` where no such date exists.
    pub fn from_ymd(year: i32, month: u32, day: u32) -> (r: Option<Date>)
        ensures
            r is Some <==> valid_ymd(year as int, month as int, day as int),
            r matches Some(d) ==> d.year == year && d.month == month && d.day == day,
    {
        chrono_from_ymd(year, month, day)
    }
}

/// A time of day: seconds since midnight and the nanoseconds within the second.
#[derive(Clone, Copy, Debug, PartialEq, Eq, Structural)]
pub struct Time {
    pub secs: u32,
    pub frac: u32,
}

impl Time {
    pub open spec fn wf(self) -> bool {
        self.secs < 86_400 && self.frac < 1_000_000_000
    }

    /// Nanoseconds since midnight.
    pub open spec fn nanos(self) -> int {
        self.secs * 1_000_000_000 + self.frac
    }

    /// Midnight.
    pub fn midnight() -> (r: Time)
        ensures
            r.wf(),
            r.secs == 0 && r.frac == 0,
    {
        Time { secs: 0, frac: 0 }
    }

    /// Makes a time from hour, minute and second; `None` where out of range.
    pub fn from_hms(hour: u32, min: u32, sec: u32) -> (r: Option<Time>)
        ensures
            r is Some <==> (hour < 24 && min < 60 && sec < 60),
            r matches Some(t) ==> t.wf() && t.secs == hour * 3600 + min * 60 + sec && t.frac
                == 0,
    {
        if hour < 24 && min < 60 && sec < 60 {
            Some(Time { secs: hour * 3600 + min * 60 + sec, frac: 0 })
        } else {
            None
        }
    }

    /// The hour (0..=23).
    pub fn hour(&self) -> (r: u32)
        requires
            self.wf(),
        ensures
            r == self.secs / 3600,
            r < 24,
    {
        self.secs / 3600
    }

    /// The minute (0..=59).
    pub fn minute(&self) -> (r: u32)
        requires
            self.wf(),
        ensures
            r == (self.secs / 60) % 60,
            r < 60,
    {
        (self.secs / 60) % 60
    }
}

/// A date and a time of day.
#[derive(Clone, Copy, Debug, PartialEq, Eq, Structural)]
pub struct DateTime {
    pub date: Date,
    pub time: Time,
}

/// Timestamp of a date-time: nanoseconds since 0001-01-01T00:00:00.
pub open spec fn ts(dt: DateTime) -> int {
    dt.date.num() * nanos_per_day() + dt.time.nanos()
}

impl DateTime {
    pub open spec fn wf(self) -> bool {
        self.date.wf() && self.time.wf()
    }

    /// The date-time at `time` on `date`.
    pub fn new(date: Date, time: Time) -> (r: DateTime)
        ensures
            r.date == date && r.time == time,
    {
        DateTime { date, time }
    }

    /// Whether `self` is strictly earlier than `other`.
    pub fn lt(&self, other: &DateTime) -> (r: bool)
        requires
            self.wf(),
            other.wf(),
        ensures
            r == (ts(*self) < ts(*other)),
    {
        proof {
            lemma_ts_order(*self, *other);
        }
        if self.date.year != other.date.year {
            self.date.year < other.date.year
        } else if self.date.month != other.date.month {
            self.date.month < other.date.month
        } else if self.date.day != other.date.day {
            self.date.day < other.date.day
        } else if self.time.secs != other.time.secs {
            self.time.secs < other.time.secs
        } else {
            self.time.frac < other.time.frac
        }
    }

    /// Whether `self` is earlier than or equal to `other`.
    pub fn le(&self, other: &DateTime) -> (r: bool)
        requires
            self.wf(),
            other.wf(),
        ensures
            r == (ts(*self) <= ts(*other)),
    {
        !other.lt(self)
    }
}

/// A signed length of time, normalised as in `chrono::TimeDelta`:
/// whole seconds and a nanosecond part in `0..1_000_000_000`.
#[derive(Clone, Copy, Debug, PartialEq, Eq, Structural)]
pub struct Delta {
    pub secs: i64,
    pub nanos: i32,
}

impl Delta {
    /// Length in nanoseconds.
    pub open spec fn value(self) -> int {
        self.secs * 1_000_000_000 + self.nanos
    }

    pub open spec fn wf(self) -> bool {
        &&& 0 <= self.nanos < 1_000_000_000
        &&& -max_delta_nanos() <= self.value() <= max_delta_nanos()
    }

    /// A length of `n` whole seconds.
    pub fn seconds(n: i64) -> (r: Delta)
        requires
            -9_223_372_036_854_775 <= n <= 9_223_372_036_854_775,
        ensures
            r.wf(),
            r.value() == n * 1_000_000_000,
    {
        Delta { secs: n, nanos: 0 }
    }

    /// A length of `n` minutes.
    pub fn minutes(n: i64) -> (r: Delta)
        requires
            -153_722_867_280_912 <= n <= 153_722_867_280_912,
        ensures
            r.wf(),
            r.value() == n * 60 * 1_000_000_000,
    {
        Delta { secs: n * 60, nanos: 0 }
    }

    /// A length of `n` hours.
    pub fn hours(n: i64) -> (r: Delta)
        requires
            -2_562_047_788_015 <= n <= 2_562_047_788_015,
        ensures
            r.wf(),
            r.value() == n * 3600 * 1_000_000_000,
    {
        Delta { secs: n * 3600, nanos: 0 }
    }

    /// A length of `n` days.
    pub fn days(n: i64) -> (r: Delta)
        requires
            -106_751_991_167 <= n <= 106_751_991_167,
        ensures
            r.wf(),
            r.value() == n * nanos_per_day(),
    {
        Delta { secs: n * 86_400, nanos: 0 }
    }

    /// Whole minutes in this length, rounded toward zero (as `TimeDelta::num_minutes`).
    pub fn num_minutes(&self) -> (r: i64)
        requires
            self.wf(),
        ensures
            r == whole_seconds_toward_zero(*self) / 60 || (whole_seconds_toward_zero(*self) < 0
                && r == -((-whole_seconds_toward_zero(*self)) / 60)),
            whole_seconds_toward_zero(*self) >= 0 ==> r == whole_seconds_toward_zero(*self) / 60,
            whole_seconds_toward_zero(*self) < 0 ==> r == -((-whole_seconds_toward_zero(*self))
                / 60),
    {
        let s: i64 = if self.secs < 0 && self.nanos > 0 {
            self.secs + 1
        } else {
            self.secs
        };
        if s >= 0 {
            s / 60
        } else {
            -((-s) / 60)
        }
    }
}

/// Whole seconds of a duration, rounded toward zero (as `TimeDelta::num_seconds`).
pub open spec fn whole_seconds_toward_zero(d: Delta) -> int {
    if d.secs < 0 && d.nanos > 0 {
        d.secs + 1
    } else {
        d.secs as int
    }
}

// ---------------------------------------------------------------------------
// Lemmas on the calendar model
// ---------------------------------------------------------------------------

/// A year has 365 days, 366 in a leap year.
pub proof fn lemma_year_length(y: int)
    ensures
        days_before_year(y + 1) == days_before_year(y) + 365 + leap_bonus(y),
{
    assert(y / 4 - (y - 1) / 4 == (if y % 4 == 0 { 1int } else { 0int }));
    assert(y / 100 - (y - 1) / 100 == (if y % 100 == 0 { 1int } else { 0int }));
    assert(y / 400 - (y - 1) / 400 == (if y % 400 == 0 { 1int } else { 0int }));
}

/// Later years start later: at least 365 days per year in between.
pub proof fn lemma_days_before_year_monotone(y1: int, y2: int)
    requires
        y1 <= y2,
    ensures
        days_before_year(y1) + 365 * (y2 - y1) <= days_before_year(y2),
    decreases y2 - y1,
{
    if y1 < y2 {
        lemma_days_before_year_monotone(y1, y2 - 1);
        lemma_year_length(y2 - 1);
    }
}

/// Lexicographic order on (year, month, day).
pub open spec fn ymd_lt(y1: int, m1: int, d1: int, y2: int, m2: int, d2: int) -> bool {
    y1 < y2 || (y1 == y2 && (m1 < m2 || (m1 == m2 && d1 < d2)))
}

/// Day numbers follow the order of dates.
pub proof fn lemma_day_number_order(a: Date, b: Date)
    requires
        a.wf(),
        b.wf(),
        ymd_lt(
            a.year as int,
            a.month as int,
            a.day as int,
            b.year as int,
            b.month as int,
            b.day as int,
        ),
    ensures
        a.num() < b.num(),
{
    reveal(day_number);
    if a.year < b.year {
        lemma_year_length(a.year as int);
        lemma_days_before_year_monotone(a.year + 1, b.year as int);
    }
}

/// A valid date is determined by its day number.
pub proof fn lemma_day_number_injective(a: Date, b: Date)
    requires
        a.wf(),
        b.wf(),
        a.num() == b.num(),
    ensures
        a == b,
{
    if ymd_lt(
        a.year as int,
        a.month as int,
        a.day as int,
        b.year as int,
        b.month as int,
        b.day as int,
    ) {
        lemma_day_number_order(a, b);
    } else if ymd_lt(
        b.year as int,
        b.month as int,
        b.day as int,
        a.year as int,
        a.month as int,
        a.day as int,
    ) {
        lemma_day_number_order(b, a);
    }
}

/// The day after the last of a month is the first of the next month.
pub proof fn lemma_month_step(y: int, m: int)
    requires
        1 <= m <= 12,
    ensures
        m < 12 ==> day_number(y, m + 1, 1) == day_number(y, m, days_in_month(y, m)) + 1,
        m == 12 ==> day_number(y + 1, 1, 1) == day_number(y, 12, 31) + 1,
{
    reveal(day_number);
    lemma_year_length(y);
}

/// Within one month, day numbers differ as the days of the month do.
pub proof fn lemma_day_span(a: Date, b: Date)
    requires
        a.year == b.year,
        a.month == b.month,
    ensures
        b.num() - a.num() == b.day - a.day,
{
    reveal(day_number);
}

/// The valid date with day number `n` (when one exists).
pub open spec fn date_at(n: int) -> Date {
    choose|d: Date| d.wf() && d.num() == n
}

/// A valid date is the date at its day number.
pub proof fn lemma_date_at(d: Date)
    requires
        d.wf(),
    ensures
        date_at(d.num()) == d,
{
    let c = date_at(d.num());
    assert(c.wf() && c.num() == d.num());
    lemma_day_number_injective(c, d);
}

/// The calendar date following `d`.
spec fn next_date(d: Date) -> Date {
    if (d.day as int) < days_in_month(d.year as int, d.month as int) {
        Date { year: d.year, month: d.month, day: (d.day + 1) as u32 }
    } else if d.month < 12 {
        Date { year: d.year, month: (d.month + 1) as u32, day: 1 }
    } else {
        Date { year: (d.year + 1) as i32, month: 1, day: 1 }
    }
}

/// The date after a valid date is valid and has the next day number, while
/// that number is supported.
proof fn lemma_next_date(d: Date)
    requires
        d.wf(),
        day_in_range(d.num() + 1),
    ensures
        next_date(d).wf(),
        next_date(d).num() == d.num() + 1,
{
    let y = d.year as int;
    let m = d.month as int;
    let last = Date { year: d.year, month: d.month, day: days_in_month(y, m) as u32 };
    if (d.day as int) < days_in_month(y, m) {
        lemma_day_span(d, next_date(d));
    } else {
        lemma_day_span(d, last);
        lemma_month_step(y, m);
        if m == 12 && d.year == MAX_YEAR {
            assert(d.num() == max_day_number());
        }
    }
}

/// Every supported day number is the number of a valid date.
pub proof fn lemma_date_exists(n: int)
    requires
        day_in_range(n),
    ensures
        date_at(n).wf(),
        date_at(n).num() == n,
    decreases n - min_day_number(),
{
    if n == min_day_number() {
        let first = Date { year: MIN_YEAR, month: 1, day: 1 };
        assert(first.wf() && first.num() == n);
    } else {
        lemma_date_exists(n - 1);
        lemma_next_date(date_at(n - 1));
        let q = next_date(date_at(n - 1));
        assert(q.wf() && q.num() == n);
    }
}

/// The date-time whose timestamp is `t`.
pub open spec fn datetime_at(t: int) -> DateTime {
    DateTime {
        date: date_at(t / nanos_per_day()),
        time: Time {
            secs: ((t % nanos_per_day()) / 1_000_000_000) as u32,
            frac: (t % 1_000_000_000) as u32,
        },
    }
}

/// A valid date-time is the date-time at its timestamp.
pub proof fn lemma_datetime_at(x: DateTime)
    requires
        x.wf(),
    ensures
        datetime_at(ts(x)) == x,
{
    let t = ts(x);
    let num = x.date.num();
    vstd::arithmetic::div_mod::lemma_fundamental_div_mod_converse(
        t,
        nanos_per_day(),
        num,
        x.time.nanos(),
    );
    vstd::arithmetic::div_mod::lemma_fundamental_div_mod_converse(
        x.time.nanos(),
        1_000_000_000,
        x.time.secs as int,
        x.time.frac as int,
    );
    assert(t == (num * 86_400 + x.time.secs) * 1_000_000_000 + x.time.frac) by (nonlinear_arith)
        requires
            t == num * nanos_per_day() + x.time.secs * 1_000_000_000 + x.time.frac,
            nanos_per_day() == 86_400_000_000_000,
    ;
    vstd::arithmetic::div_mod::lemma_fundamental_div_mod_converse(
        t,
        1_000_000_000,
        num * 86_400 + x.time.secs,
        x.time.frac as int,
    );
    lemma_date_at(x.date);
}

/// Moving a date-time by whole days moves its date and keeps its time of day.
pub proof fn lemma_ts_day_shift(x: DateTime, dt: DateTime, n: int)
    requires
        x.wf(),
        dt.wf(),
        ts(x) == ts(dt) + n * nanos_per_day(),
    ensures
        x.date.num() == dt.date.num() + n,
        x.time == dt.time,
{
    assert(0 <= x.time.nanos() < nanos_per_day());
    assert(0 <= dt.time.nanos() < nanos_per_day());
    if x.date.num() > dt.date.num() + n {
        assert(x.date.num() * nanos_per_day() >= (dt.date.num() + n + 1) * nanos_per_day())
            by (nonlinear_arith)
            requires
                x.date.num() >= dt.date.num() + n + 1,
        ;
    }
    if x.date.num() < dt.date.num() + n {
        assert(x.date.num() * nanos_per_day() + nanos_per_day() <= (dt.date.num() + n)
            * nanos_per_day()) by (nonlinear_arith)
            requires
                x.date.num() + 1 <= dt.date.num() + n,
        ;
    }
    assert(x.date.num() == dt.date.num() + n);
    assert(x.date.num() * nanos_per_day() == (dt.date.num() + n) * nanos_per_day());
    assert(x.time.nanos() == dt.time.nanos());
    lemma_time_nanos_injective(x.time, dt.time);
}

/// A valid time of day is determined by its nanoseconds since midnight.
pub proof fn lemma_time_nanos_injective(a: Time, b: Time)
    requires
        a.wf(),
        b.wf(),
        a.nanos() == b.nanos(),
    ensures
        a == b,
{
    if a.secs > b.secs {
        assert(a.secs * 1_000_000_000 >= b.secs * 1_000_000_000 + 1_000_000_000);
    }
    if a.secs < b.secs {
        assert(b.secs * 1_000_000_000 >= a.secs * 1_000_000_000 + 1_000_000_000);
    }
}

/// Valid dates have day numbers within the supported range.
pub proof fn lemma_valid_in_range(d: Date)
    requires
        d.wf(),
    ensures
        day_in_range(d.num()),
{
    let lo = Date { year: MIN_YEAR, month: 1, day: 1 };
    let hi = Date { year: MAX_YEAR, month: 12, day: 31 };
    if ymd_lt(lo.year as int, 1, 1, d.year as int, d.month as int, d.day as int) {
        lemma_day_number_order(lo, d);
    }
    if ymd_lt(d.year as int, d.month as int, d.day as int, hi.year as int, 12, 31) {
        lemma_day_number_order(d, hi);
    }
}

/// Comparing date-times field by field agrees with comparing timestamps.
pub proof fn lemma_ts_order(a: DateTime, b: DateTime)
    requires
        a.wf(),
        b.wf(),
    ensures
        ts(a) < ts(b) <==> (ymd_lt(
            a.date.year as int,
            a.date.month as int,
            a.date.day as int,
            b.date.year as int,
            b.date.month as int,
            b.date.day as int,
        ) || (a.date == b.date && (a.time.secs < b.time.secs || (a.time.secs == b.time.secs
            && a.time.frac < b.time.frac)))),
        ts(a) == ts(b) <==> a == b,
{
    let da = a.date;
    let db = b.date;
    if ymd_lt(
        da.year as int,
        da.month as int,
        da.day as int,
        db.year as int,
        db.month as int,
        db.day as int,
    ) {
        lemma_day_number_order(da, db);
    } else if ymd_lt(
        db.year as int,
        db.month as int,
        db.day as int,
        da.year as int,
        da.month as int,
        da.day as int,
    ) {
        lemma_day_number_order(db, da);
    } else {
        assert(da == db);
    }
}

// ---------------------------------------------------------------------------
// Text forms
// ---------------------------------------------------------------------------

/// A year as chrono's `%Y` writes it: four digits, zero-padded, for years
/// 0 to 9999; otherwise a sign and at least four digits.
pub open spec fn year_text(y: int) -> Seq<char> {
    if 0 <= y < 10000 {
        padded_decimal(y as nat, 4)
    } else if y < 0 {
        seq!['-'] + padded_decimal((-y) as nat, 4)
    } else {
        seq!['+'] + padded_decimal(y as nat, 4)
    }
}

/// A date written `YYYY-MM-DD`.
pub open spec fn date_text(d: Date) -> Seq<char> {
    year_text(d.year as int) + seq!['-'] + padded_decimal(d.month as nat, 2) + seq!['-']
        + padded_decimal(d.day as nat, 2)
}

/// English name of the day of the week with index `i` (0 for Monday).
pub open spec fn weekday_name(i: int) -> Seq<char> {
    if i == 0 {
        "Monday"@
    } else if i == 1 {
        "Tuesday"@
    } else if i == 2 {
        "Wednesday"@
    } else if i == 3 {
        "Thursday"@
    } else if i == 4 {
        "Friday"@
    } else if i == 5 {
        "Saturday"@
    } else {
        "Sunday"@
    }
}

/// The layouts in which dates are written, each a chrono format string.
#[derive(Clone, Copy, Debug, PartialEq, Eq, Structural)]
pub enum DateFormat {
    /// `%Y-%m-%d`: `2026-03-10`.
    Iso,
    /// `%b %d`: `Mar 10`.
    MonthDay,
    /// `%b %d, %Y`: `Mar 10, 2026`.
    MonthDayYear,
    /// `%A, %B %d`: `Tuesday, March 10`.
    WeekdayMonthDay,
    /// `%A, %B %d, %Y`: `Tuesday, March 10, 2026`.
    WeekdayMonthDayYear,
    /// `%a`: `Tue`.
    WeekdayShort,
}

/// A date written in a layout: `%Y` as `year_text`, `%m` and `%d` on two
/// digits, `%B` and `%A` the English month and weekday names, `%b` and `%a`
/// their first three letters.
pub open spec fn date_format_text(d: Date, f: DateFormat) -> Seq<char> {
    let month = month_name_spec(d.month as int);
    let weekday = weekday_name(d.weekday_index());
    let day = padded_decimal(d.day as nat, 2);
    match f {
        DateFormat::Iso => date_text(d),
        DateFormat::MonthDay => month.take(3) + " "@ + day,
        DateFormat::MonthDayYear => month.take(3) + " "@ + day + ", "@ + year_text(d.year as int),
        DateFormat::WeekdayMonthDay => weekday + ", "@ + month + " "@ + day,
        DateFormat::WeekdayMonthDayYear => weekday + ", "@ + month + " "@ + day + ", "@
            + year_text(d.year as int),
        DateFormat::WeekdayShort => weekday.take(3),
    }
}

/// The layouts in which times of day are written.
#[derive(Clone, Copy, Debug, PartialEq, Eq, Structural)]
pub enum TimeFormat {
    /// `%H:%M`: `14:05`.
    Hour24,
    /// `%I:%M %p`: `02:05 PM`.
    Hour12,
}

/// A time of day written in a layout: `%H` the hour on two digits, `%I` the
/// hour on a 12-hour clock on two digits, `%M` the minute on two digits,
/// `%p` `AM` before noon and `PM` from noon.
pub open spec fn time_format_text(t: Time, f: TimeFormat) -> Seq<char> {
    let h = t.secs / 3600;
    let minute = padded_decimal(((t.secs / 60) % 60) as nat, 2);
    match f {
        TimeFormat::Hour24 => hm_text(t),
        TimeFormat::Hour12 => padded_decimal(hour12(h as int) as nat, 2) + seq![':'] + minute
            + (if h < 12 {
            " AM"@
        } else {
            " PM"@
        }),
    }
}

/// A time of day written `HH:MM`.
pub open spec fn hm_text(t: Time) -> Seq<char> {
    padded_decimal((t.secs / 3600) as nat, 2) + seq![':'] + padded_decimal(
        ((t.secs / 60) % 60) as nat,
        2,
    )
}

// ---------------------------------------------------------------------------
// Trusted items: chrono
// ---------------------------------------------------------------------------

/// `chrono::NaiveDate::from_ymd_opt`: a date exists exactly for a valid month,
/// a day within that month of the proleptic Gregorian calendar, and a year
/// within chrono's range; the result then holds the given fields.
#[verifier::external_body]
fn chrono_from_ymd(year: i32, month: u32, day: u32) -> (r: Option<Date>)
    ensures
        r is Some <==> valid_ymd(year as int, month as int, day as int),
        r matches Some(d) ==> d.year == year && d.month == month && d.day == day,
{
    match chrono::NaiveDate::from_ymd_opt(year, month, day) {
        Some(d) => Some(Date { year: d.year(), month: d.month(), day: d.day() }),
        None => None,
    }
}

/// `chrono::NaiveDate::checked_add_signed` with a whole number of days:
/// the date `days` days later (earlier when negative), `None` exactly when
/// that date falls outside chrono's range.
#[verifier::external_body]
fn chrono_add_days(d: Date, days: i64) -> (r: Option<Date>)
    requires
        d.wf(),
        -106_751_991_167 <= days <= 106_751_991_167,
    ensures
        r is Some <==> day_in_range(d.num() + days),
        r matches Some(x) ==> x.wf() && x.num() == d.num() + days,
{
    let nd = chrono::NaiveDate::from_ymd_opt(d.year, d.month, d.day).unwrap();
    match nd.checked_add_signed(chrono::TimeDelta::try_days(days).unwrap()) {
        Some(x) => Some(Date { year: x.year(), month: x.month(), day: x.day() }),
        None => None,
    }
}

/// `chrono::Datelike::weekday` of a `NaiveDate`: 0001-01-01 is a Monday and
/// the days of the week follow each other.
#[verifier::external_body]
fn chrono_weekday(d: Date) -> (r: Weekday)
    requires
        d.wf(),
    ensures
        r.index() == d.num() % 7,
{
    match chrono::NaiveDate::from_ymd_opt(d.year, d.month, d.day).unwrap().weekday() {
        chrono::Weekday::Mon => Weekday::Mon,
        chrono::Weekday::Tue => Weekday::Tue,
        chrono::Weekday::Wed => Weekday::Wed,
        chrono::Weekday::Thu => Weekday::Thu,
        chrono::Weekday::Fri => Weekday::Fri,
        chrono::Weekday::Sat => Weekday::Sat,
        chrono::Weekday::Sun => Weekday::Sun,
    }
}

/// `chrono::NaiveDateTime::checked_add_signed`: the date-time `delta` later,
/// `None` exactly when its date falls outside chrono's range.
#[verifier::external_body]
fn chrono_datetime_add(dt: DateTime, delta: Delta) -> (r: Option<DateTime>)
    requires
        dt.wf(),
        delta.wf(),
    ensures
        r is Some <==> day_in_range((ts(dt) + delta.value()) / nanos_per_day()),
        r matches Some(x) ==> x.wf() && ts(x) == ts(dt) + delta.value(),
{
    let nd = chrono::NaiveDate::from_ymd_opt(dt.date.year, dt.date.month, dt.date.day).unwrap();
    let nt = chrono::NaiveTime::from_num_seconds_from_midnight_opt(dt.time.secs, dt.time.frac);
    let td = chrono::TimeDelta::new(delta.secs, delta.nanos as u32).unwrap();
    match nd.and_time(nt.unwrap()).checked_add_signed(td) {
        Some(x) => Some(
            DateTime {
                date: Date { year: x.year(), month: x.month(), day: x.day() },
                time: Time { secs: x.num_seconds_from_midnight(), frac: x.nanosecond() },
            },
        ),
        None => None,
    }
}

/// `chrono::NaiveDateTime::signed_duration_since`, read back through
/// `TimeDelta::num_seconds` and `TimeDelta::subsec_nanos`: the difference
/// `a - b`, split into whole seconds and nanoseconds both rounded toward zero.
#[verifier::external_body]
fn chrono_duration_since(a: DateTime, b: DateTime) -> (r: (i64, i32))
    requires
        a.wf(),
        b.wf(),
    ensures
        r.0 * 1_000_000_000 + r.1 == ts(a) - ts(b),
        -1_000_000_000 < r.1 < 1_000_000_000,
        ts(a) - ts(b) >= 0 ==> r.1 >= 0,
        ts(a) - ts(b) < 0 ==> r.1 <= 0,
{
    let na = chrono::NaiveDate::from_ymd_opt(a.date.year, a.date.month, a.date.day).unwrap();
    let ta = chrono::NaiveTime::from_num_seconds_from_midnight_opt(a.time.secs, a.time.frac);
    let nb = chrono::NaiveDate::from_ymd_opt(b.date.year, b.date.month, b.date.day).unwrap();
    let tb = chrono::NaiveTime::from_num_seconds_from_midnight_opt(b.time.secs, b.time.frac);
    let d = na.and_time(ta.unwrap()).signed_duration_since(nb.and_time(tb.unwrap()));
    (d.num_seconds(), d.subsec_nanos())
}

/// `chrono::Local::now().naive_local()`: the current local date-time. What it
/// is depends on the clock; what holds of every outcome is that it is a valid
/// date-time with no leap second.
#[verifier::external_body]
fn chrono_local_now() -> (r: DateTime)
    ensures
        r.wf(),
{
    let x = chrono::Local::now().naive_local();
    DateTime {
        date: Date { year: x.year(), month: x.month(), day: x.day() },
        time: Time { secs: x.num_seconds_from_midnight(), frac: x.nanosecond() },
    }
}

/// `chrono::NaiveDate::format`, rendered with `to_string`, with the format
/// string of the layout `f`: the date as `date_format_text` writes it.
#[verifier::external_body]
fn chrono_format_date(d: Date, f: DateFormat) -> (r: String)
    requires
        d.wf(),
    ensures
        r@ == date_format_text(d, f),
{
    let fmt = match f {
        DateFormat::Iso => "%Y-%m-%d",
        DateFormat::MonthDay => "%b %d",
        DateFormat::MonthDayYear => "%b %d, %Y",
        DateFormat::WeekdayMonthDay => "%A, %B %d",
        DateFormat::WeekdayMonthDayYear => "%A, %B %d, %Y",
        DateFormat::WeekdayShort => "%a",
    };
    chrono::NaiveDate::from_ymd_opt(d.year, d.month, d.day).unwrap().format(fmt).to_string()
}

/// `chrono::NaiveTime::format`, rendered with `to_string`, with the format
/// string of the layout `f`: the time as `time_format_text` writes it.
#[verifier::external_body]
fn chrono_format_time(t: Time, f: TimeFormat) -> (r: String)
    requires
        t.wf(),
    ensures
        r@ == time_format_text(t, f),
{
    let fmt = match f {
        TimeFormat::Hour24 => "%H:%M",
        TimeFormat::Hour12 => "%I:%M %p",
    };
    chrono::NaiveTime::from_num_seconds_from_midnight_opt(t.secs, t.frac).unwrap().format(
        fmt,
    ).to_string()
}

/// What `chrono::NaiveDate::parse_from_str` gives for an input and a format
/// string: the date, or the text of the parse error.
pub uninterp spec fn parsed_date(s: Seq<char>, fmt: Seq<char>) -> Result<Date, Seq<char>>;

/// What `chrono::NaiveDateTime::parse_from_str` gives for an input and a
/// format string: the date-time, or the text of the parse error.
pub uninterp spec fn parsed_datetime(s: Seq<char>, fmt: Seq<char>) -> Result<DateTime, Seq<char>>;

pub open spec fn date_result_view(r: Result<Date, String>) -> Result<Date, Seq<char>> {
    match r {
        Ok(d) => Ok(d),
        Err(e) => Err(e@),
    }
}

pub open spec fn datetime_result_view(r: Result<DateTime, String>) -> Result<DateTime, Seq<char>> {
    match r {
        Ok(d) => Ok(d),
        Err(e) => Err(e@),
    }
}

/// `chrono::NaiveDate::parse_from_str`, its error rendered with `to_string`.
/// The result is determined by the input and the format; a parsed date is a
/// valid date.
#[verifier::external_body]
fn chrono_parse_date(s: &str, fmt: &str) -> (r: Result<Date, String>)
    ensures
        date_result_view(r) == parsed_date(s@, fmt@),
        r matches Ok(d) ==> d.wf(),
{
    match chrono::NaiveDate::parse_from_str(s, fmt) {
        Ok(d) => Ok(Date { year: d.year(), month: d.month(), day: d.day() }),
        Err(e) => Err(e.to_string()),
    }
}

/// `chrono::NaiveDateTime::parse_from_str`, its error rendered with
/// `to_string`. The result is determined by the input and the format; a
/// parsed date-time has a valid date and a time of day whose nanosecond part
/// exceeds a second only for a leap second.
#[verifier::external_body]
fn chrono_parse_datetime(s: &str, fmt: &str) -> (r: Result<DateTime, String>)
    ensures
        datetime_result_view(r) == parsed_datetime(s@, fmt@),
        r matches Ok(x) ==> x.date.wf() && x.time.secs < 86_400 && x.time.frac < 2_000_000_000,
{
    match chrono::NaiveDateTime::parse_from_str(s, fmt) {
        Ok(x) => Ok(
            DateTime {
                date: Date { year: x.year(), month: x.month(), day: x.day() },
                time: Time { secs: x.num_seconds_from_midnight(), frac: x.nanosecond() },
            },
        ),
        Err(e) => Err(e.to_string()),
    }
}

// ---------------------------------------------------------------------------
// Verified operations
// ---------------------------------------------------------------------------

impl Date {
    /// The date `n` days later (earlier when `n` is negative); `None` when it
    /// falls outside the supported range.
    pub fn checked_add_days(&self, n: i64) -> (r: Option<Date>)
        requires
            self.wf(),
        ensures
            r is Some <==> day_in_range(self.num() + n),
            r matches Some(x) ==> x.wf() && x.num() == self.num() + n,
    {
        if n < -106_751_991_167 || n > 106_751_991_167 {
            proof {
                lemma_valid_in_range(*self);
                lemma_range_width();
            }
            None
        } else {
            chrono_add_days(*self, n)
        }
    }

    /// Whether `self` is an earlier date than `other`.
    pub fn lt(&self, other: &Date) -> (r: bool)
        requires
            self.wf(),
            other.wf(),
        ensures
            r == (self.num() < other.num()),
    {
        proof {
            if ymd_lt(
                self.year as int,
                self.month as int,
                self.day as int,
                other.year as int,
                other.month as int,
                other.day as int,
            ) {
                lemma_day_number_order(*self, *other);
            } else if ymd_lt(
                other.year as int,
                other.month as int,
                other.day as int,
                self.year as int,
                self.month as int,
                self.day as int,
            ) {
                lemma_day_number_order(*other, *self);
            }
        }
        if self.year != other.year {
            self.year < other.year
        } else if self.month != other.month {
            self.month < other.month
        } else {
            self.day < other.day
        }
    }

    /// The day of the week.
    pub fn weekday(&self) -> (r: Weekday)
        requires
            self.wf(),
        ensures
            r.index() == self.weekday_index(),
    {
        chrono_weekday(*self)
    }
}

/// The supported range spans fewer than 200 million days.
pub proof fn lemma_range_width()
    ensures
        max_day_number() - min_day_number() < 200_000_000,
        min_day_number() > -100_000_000,
        max_day_number() < 100_000_000,
{
    reveal(day_number);
}

impl DateTime {
    /// The date-time `delta` later; `None` when its date falls outside the
    /// supported range.
    pub fn checked_add(&self, delta: Delta) -> (r: Option<DateTime>)
        requires
            self.wf(),
            delta.wf(),
        ensures
            r is Some <==> day_in_range((ts(*self) + delta.value()) / nanos_per_day()),
            r matches Some(x) ==> x.wf() && ts(x) == ts(*self) + delta.value(),
    {
        chrono_datetime_add(*self, delta)
    }

    /// The length of time from `other` to `self`.
    pub fn signed_duration_since(&self, other: &DateTime) -> (r: Delta)
        requires
            self.wf(),
            other.wf(),
        ensures
            r.wf(),
            r.value() == ts(*self) - ts(*other),
    {
        let (s, n) = chrono_duration_since(*self, *other);
        proof {
            lemma_valid_in_range(self.date);
            lemma_valid_in_range(other.date);
            lemma_range_width();
        }
        if n < 0 {
            Delta { secs: s - 1, nanos: n + 1_000_000_000 }
        } else {
            Delta { secs: s, nanos: n }
        }
    }
}

/// The current local date-time.
pub fn local_now() -> (r: DateTime)
    ensures
        r.wf(),
{
    chrono_local_now()
}

/// Today's local date.
pub fn local_today() -> (r: Date)
    ensures
        r.wf(),
{
    chrono_local_now().date
}

impl Date {
    /// The date written `YYYY-MM-DD` (as `format("%Y-%m-%d")`).
    pub fn format_ymd(&self) -> (r: String)
        requires
            self.wf(),
        ensures
            r@ == date_text(*self),
    {
        chrono_format_date(*self, DateFormat::Iso)
    }

    /// The date written in layout `f`.
    pub fn format(&self, f: DateFormat) -> (r: String)
        requires
            self.wf(),
        ensures
            r@ == date_format_text(*self, f),
    {
        chrono_format_date(*self, f)
    }

    /// Parse a date from `s` with a chrono format string.
    pub fn parse(s: &str, fmt: &str) -> (r: Result<Date, String>)
        ensures
            date_result_view(r) == parsed_date(s@, fmt@),
            r matches Ok(d) ==> d.wf(),
    {
        chrono_parse_date(s, fmt)
    }
}

impl Time {
    /// The time written `HH:MM` (as `format("%H:%M")`).
    pub fn format_hm(&self) -> (r: String)
        requires
            self.wf(),
        ensures
            r@ == hm_text(*self),
    {
        chrono_format_time(*self, TimeFormat::Hour24)
    }

    /// The time written in layout `f`.
    pub fn format(&self, f: TimeFormat) -> (r: String)
        requires
            self.wf(),
        ensures
            r@ == time_format_text(*self, f),
    {
        chrono_format_time(*self, f)
    }
}

impl DateTime {
    /// Parse a date-time from `s` with a chrono format string.
    pub fn parse(s: &str, fmt: &str) -> (r: Result<DateTime, String>)
        ensures
            datetime_result_view(r) == parsed_datetime(s@, fmt@),
            r matches Ok(x) ==> x.date.wf() && x.time.secs < 86_400 && x.time.frac
                < 2_000_000_000,
    {
        chrono_parse_datetime(s, fmt)
    }
}

} // verus!
