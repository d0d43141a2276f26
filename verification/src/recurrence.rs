//! Recurrence rules and occurrence expansion.
//!
//! Supports RRULE-style recurrence: daily, weekly, monthly, yearly
//! with optional interval, count limit, and until date.

use vstd::prelude::*;

use crate::datetime::{
    date_at, day_in_range, days_in_month, lemma_date_at, lemma_date_exists, lemma_month_step,
    lemma_ts_day_shift, lemma_valid_in_range, lemma_day_number_injective, lemma_day_number_order,
    nanos_per_day, ts, Date,
    DateTime, Delta, MAX_YEAR, MIN_YEAR,
};

verus! {

/// Recurrence frequency.
#[derive(Clone, Copy, Debug, PartialEq, Eq, Structural)]
pub enum Frequency {
    Daily,
    Weekly,
    Monthly,
    Yearly,
}

impl Frequency {
    pub open spec fn name_spec(self) -> Seq<char> {
        match self {
            Frequency::Daily => "Daily"@,
            Frequency::Weekly => "Weekly"@,
            Frequency::Monthly => "Monthly"@,
            Frequency::Yearly => "Yearly"@,
        }
    }

    /// The variant name, as `{:?}` writes it.
    pub fn name(self) -> (r: &'static str)
        ensures
            r@ == self.name_spec(),
    {
        match self {
            Frequency::Daily => "Daily",
            Frequency::Weekly => "Weekly",
            Frequency::Monthly => "Monthly",
            Frequency::Yearly => "Yearly",
        }
    }

    pub open spec fn from_lowercase_spec(s: Seq<char>) -> Option<Frequency> {
        if s == "daily"@ {
            Some(Frequency::Daily)
        } else if s == "weekly"@ {
            Some(Frequency::Weekly)
        } else if s == "monthly"@ {
            Some(Frequency::Monthly)
        } else if s == "yearly"@ {
            Some(Frequency::Yearly)
        } else {
            None
        }
    }

    /// The frequency named by a lowercase word ("daily", "weekly",
    /// "monthly", "yearly"); `None` for any other text.
    pub fn from_lowercase(s: &str) -> (r: Option<Frequency>)
        ensures
            r == Self::from_lowercase_spec(s@),
    {
        let t = String::from_str(s);
        if t == String::from_str("daily") {
            Some(Frequency::Daily)
        } else if t == String::from_str("weekly") {
            Some(Frequency::Weekly)
        } else if t == String::from_str("monthly") {
            Some(Frequency::Monthly)
        } else if t == String::from_str("yearly") {
            Some(Frequency::Yearly)
        } else {
            None
        }
    }
}

/// A recurrence rule defining how an event repeats.
#[derive(Clone, Debug)]
pub struct RecurrenceRule {
    /// How often the event repeats.
    pub freq: Frequency,
    /// Repeat every N intervals (default 1).
    pub interval: u32,
    /// Maximum number of occurrences (None = infinite).
    pub count: Option<u32>,
    /// Repeat until this date (inclusive: occurrences on it are kept).
    pub until: Option<Date>,
    /// For weekly: which days of the week (0=Mon, 6=Sun).
    pub by_weekday: Vec<u8>,
}

/// What a recurrence rule is: its fields, with the weekday list as a sequence.
pub struct RuleView {
    pub freq: Frequency,
    pub interval: u32,
    pub count: Option<u32>,
    pub until: Option<Date>,
    pub by_weekday: Seq<u8>,
}

impl View for RecurrenceRule {
    type V = RuleView;

    open spec fn view(&self) -> RuleView {
        RuleView {
            freq: self.freq,
            interval: self.interval,
            count: self.count,
            until: self.until,
            by_weekday: self.by_weekday@,
        }
    }
}

impl RecurrenceRule {
    /// A copy of this rule.
    pub fn copy(&self) -> (r: RecurrenceRule)
        ensures
            r@ == self@,
    {
        let mut by_weekday: Vec<u8> = Vec::new();
        let n = self.by_weekday.len();
        let mut i: usize = 0;
        while i < n
            invariant
                n == self.by_weekday@.len(),
                i <= n,
                by_weekday@ == self.by_weekday@.subrange(0, i as int),
            decreases n - i,
        {
            by_weekday.push(self.by_weekday[i]);
            i += 1;
        }
        assert(by_weekday@ == self.by_weekday@);
        RecurrenceRule {
            freq: self.freq,
            interval: self.interval,
            count: self.count,
            until: self.until,
            by_weekday,
        }
    }
}

/// Default interval of a rule read without one.
pub fn default_interval() -> (r: u32)
    ensures
        r == 1,
{
    1
}

impl Default for RecurrenceRule {
    fn default() -> (r: Self)
        ensures
            r.freq == Frequency::Daily,
            r.interval == 1,
            r.count is None,
            r.until is None,
            r.by_weekday@.len() == 0,
    {
        RecurrenceRule {
            freq: Frequency::Daily,
            interval: 1,
            count: None,
            until: None,
            by_weekday: Vec::new(),
        }
    }
}

/// Safety limit on the number of steps `occurrences` takes.
pub open spec fn step_limit() -> nat {
    10_000
}

/// `day` clamped to the length of month `m` of year `y`.
pub open spec fn clamp_day(day: int, y: int, m: int) -> int {
    if day <= days_in_month(y, m) {
        day
    } else {
        days_in_month(y, m)
    }
}

impl RuleView {
    pub open spec fn wf(self) -> bool {
        self.until matches Some(u) ==> u.wf()
    }

    /// Whether the rule steps through the days of its weeks, keeping listed
    /// weekdays.
    pub open spec fn steps_by_weekday(self) -> bool {
        self.freq == Frequency::Weekly && self.by_weekday.len() > 0
    }

    /// Days a weekly step with listed weekdays moves from day number `n`: to
    /// the next day, except that on reaching a new week (a Monday) it skips
    /// `interval - 1` further weeks, so that the rule repeats every
    /// `interval` weeks.
    pub open spec fn weekday_step(self, n: int) -> int {
        if (n + 1) % 7 == 0 && self.interval > 1 {
            1 + 7 * (self.interval - 1)
        } else {
            1
        }
    }

    /// (year, month) that a monthly step from `d` lands in.
    pub open spec fn monthly_target(self, d: Date) -> (int, int) {
        let total = d.month + self.interval;
        (d.year + (total - 1) / 12, (total - 1) % 12 + 1)
    }

    /// Year that a yearly step from `d` lands in.
    pub open spec fn yearly_target(self, d: Date) -> int {
        d.year + self.interval
    }

    /// Whether one step from `dt` stays within the supported dates.
    pub open spec fn advance_defined(self, dt: DateTime) -> bool {
        match self.freq {
            Frequency::Daily => day_in_range(dt.date.num() + self.interval),
            Frequency::Weekly => if self.by_weekday.len() == 0 {
                day_in_range(dt.date.num() + 7 * self.interval)
            } else {
                day_in_range(dt.date.num() + self.weekday_step(dt.date.num()))
            },
            Frequency::Monthly => {
                &&& dt.date.month + self.interval <= u32::MAX
                &&& MIN_YEAR <= self.monthly_target(dt.date).0 <= MAX_YEAR
            },
            Frequency::Yearly => MIN_YEAR <= self.yearly_target(dt.date) <= MAX_YEAR,
        }
    }

    /// One step of the recurrence from `dt`: the time of day is kept; daily
    /// and weekly steps move by whole days (a weekly rule with listed
    /// weekdays through the days of every `interval`-th week), monthly and
    /// yearly steps move the month or year and clamp the day to the length of
    /// the target month.
    pub open spec fn advance_spec(self, dt: DateTime) -> DateTime {
        match self.freq {
            Frequency::Daily => DateTime {
                date: date_at(dt.date.num() + self.interval),
                time: dt.time,
            },
            Frequency::Weekly => if self.by_weekday.len() == 0 {
                DateTime { date: date_at(dt.date.num() + 7 * self.interval), time: dt.time }
            } else {
                DateTime {
                    date: date_at(dt.date.num() + self.weekday_step(dt.date.num())),
                    time: dt.time,
                }
            },
            Frequency::Monthly => {
                let (y, m) = self.monthly_target(dt.date);
                DateTime {
                    date: Date {
                        year: y as i32,
                        month: m as u32,
                        day: clamp_day(dt.date.day as int, y, m) as u32,
                    },
                    time: dt.time,
                }
            },
            Frequency::Yearly => {
                let y = self.yearly_target(dt.date);
                DateTime {
                    date: Date {
                        year: y as i32,
                        month: dt.date.month,
                        day: clamp_day(dt.date.day as int, y, dt.date.month as int) as u32,
                    },
                    time: dt.time,
                }
            },
        }
    }

    /// The `k`-th candidate: `start` advanced `k` times.
    pub open spec fn nth(self, start: DateTime, k: nat) -> DateTime
        decreases k,
    {
        if k == 0 {
            start
        } else {
            self.advance_spec(self.nth(start, (k - 1) as nat))
        }
    }

    /// Whether a candidate counts as an occurrence (the weekday filter).
    pub open spec fn day_matches(self, dt: DateTime) -> bool {
        self.steps_by_weekday() ==> self.by_weekday.contains(dt.date.weekday_index() as u8)
    }

    /// Number of candidates before the `k`-th that count as occurrences.
    pub open spec fn matches_before(self, start: DateTime, k: nat) -> nat
        decreases k,
    {
        if k == 0 {
            0
        } else {
            self.matches_before(start, (k - 1) as nat) + if self.day_matches(
                self.nth(start, (k - 1) as nat),
            ) {
                1nat
            } else {
                0nat
            }
        }
    }

    /// Whether expansion stops at the `k`-th candidate: the step limit, the
    /// count limit, the until date, or the end of the query range is reached.
    pub open spec fn stops_at(self, start: DateTime, range_end: DateTime, k: nat) -> bool {
        ||| k >= step_limit()
        ||| (self.count matches Some(c) && self.matches_before(start, k) >= c)
        ||| (self.until matches Some(u) && self.nth(start, k).date.num() > u.num())
        ||| ts(self.nth(start, k)) >= ts(range_end)
    }

    /// First stopping index at or after `k`.
    pub open spec fn stop_from(self, start: DateTime, range_end: DateTime, k: nat) -> nat
        decreases step_limit() - k,
    {
        if k >= step_limit() || self.stops_at(start, range_end, k) {
            k
        } else {
            self.stop_from(start, range_end, k + 1)
        }
    }

    /// Index of the candidate at which expansion stops.
    pub open spec fn stop_index(self, start: DateTime, range_end: DateTime) -> nat {
        self.stop_from(start, range_end, 0)
    }

    /// Whether a candidate is returned: it counts and lies at or after `range_start`.
    pub open spec fn keeps(self, dt: DateTime, range_start: DateTime) -> bool {
        self.day_matches(dt) && ts(dt) >= ts(range_start)
    }

    /// The candidates before the `k`-th that are returned, in order.
    pub open spec fn kept_before(self, start: DateTime, range_start: DateTime, k: nat) -> Seq<
        DateTime,
    >
        decreases k,
    {
        if k == 0 {
            seq![]
        } else {
            let prev = self.kept_before(start, range_start, (k - 1) as nat);
            let c = self.nth(start, (k - 1) as nat);
            if self.keeps(c, range_start) {
                prev.push(c)
            } else {
                prev
            }
        }
    }

    /// The occurrences from `start` within `[range_start, range_end)`.
    pub open spec fn occurrences_spec(
        &self,
        start: DateTime,
        range_start: DateTime,
        range_end: DateTime,
    ) -> Seq<DateTime> {
        self.kept_before(start, range_start, self.stop_index(start, range_end))
    }

    /// The inputs on which expansion never steps outside the supported dates.
    pub open spec fn expansion_defined(self, start: DateTime, range_end: DateTime) -> bool {
        forall|j: nat|
            j < self.stop_index(start, range_end) ==> #[trigger] self.advance_defined(
                self.nth(start, j),
            )
    }

}

impl RecurrenceRule {
    /// Whether `wd` is among the listed weekdays.
    fn lists_weekday(&self, wd: u8) -> (r: bool)
        ensures
            r == self.by_weekday@.contains(wd),
    {
        let n = self.by_weekday.len();
        let mut i: usize = 0;
        while i < n
            invariant
                n == self.by_weekday@.len(),
                i <= n,
                forall|k: int| 0 <= k < i ==> self.by_weekday@[k] != wd,
            decreases n - i,
        {
            if self.by_weekday[i] == wd {
                return true;
            }
            i += 1;
        }
        false
    }

    /// Expand occurrences of a recurring event within the given date range.
    ///
    /// `event_start` is the original event start time. Returns all occurrence
    /// start times that fall within `[range_start, range_end)`, in the order
    /// the rule produces them.
    pub fn occurrences(
        &self,
        event_start: DateTime,
        range_start: DateTime,
        range_end: DateTime,
    ) -> (r: Vec<DateTime>)
        requires
            self@.wf(),
            event_start.wf(),
            range_start.wf(),
            range_end.wf(),
            self@.expansion_defined(event_start, range_end),
        ensures
            r@ == self@.occurrences_spec(event_start, range_start, range_end),
            forall|i: int|
                0 <= i < r@.len() ==> {
                    &&& (#[trigger] r@[i]).wf()
                    &&& ts(range_start) <= ts(r@[i]) < ts(range_end)
                    &&& self@.day_matches(r@[i])
                    &&& (self.until matches Some(u) ==> r@[i].date.num() <= u.num())
                    &&& ts(event_start) <= ts(r@[i])
                    &&& r@[i].time == event_start.time
                },
            self.count matches Some(c) ==> r@.len() <= c,
            0 < self.interval ==> forall|i: int, j: int|
                0 <= i < j < r@.len() ==> ts(#[trigger] r@[i]) < ts(#[trigger] r@[j]),
            !self@.steps_by_weekday() ==> forall|i: int|
                0 <= i < r@.len() - 1 ==> spaced(self@, #[trigger] r@[i], r@[i + 1]),
            self@.steps_by_weekday() && self.interval >= 1 ==> forall|i: int|
                0 <= i < r@.len() ==> weeks_between(event_start.date, (#[trigger] r@[i]).date)
                    % (self.interval as int) == 0,
    {
        proof {
            if !self@.steps_by_weekday() {
                lemma_occurrences_spaced(self@, event_start, range_start, range_end);
            } else if self.interval >= 1 {
                lemma_weekday_occurrences_weeks(self@, event_start, range_start, range_end);
            }
        }
        match self.checked_occurrences(event_start, range_start, range_end) {
            Some(v) => v,
            None => Vec::new(),
        }
    }

    /// The occurrences as `occurrences` computes them, or `None` on the inputs
    /// where expansion would step outside the supported dates.
    pub fn checked_occurrences(
        &self,
        event_start: DateTime,
        range_start: DateTime,
        range_end: DateTime,
    ) -> (r: Option<Vec<DateTime>>)
        requires
            self@.wf(),
            event_start.wf(),
            range_start.wf(),
            range_end.wf(),
        ensures
            r is Some <==> self@.expansion_defined(event_start, range_end),
            r matches Some(v) ==> {
                &&& v@ == self@.occurrences_spec(event_start, range_start, range_end)
                &&& forall|i: int|
                    0 <= i < v@.len() ==> {
                        &&& (#[trigger] v@[i]).wf()
                        &&& ts(range_start) <= ts(v@[i]) < ts(range_end)
                        &&& self@.day_matches(v@[i])
                        &&& (self.until matches Some(u) ==> v@[i].date.num() <= u.num())
                        &&& ts(event_start) <= ts(v@[i])
                        &&& v@[i].time == event_start.time
                    }
                &&& (self.count matches Some(c) ==> v@.len() <= c)
                &&& (0 < self.interval ==> forall|i: int, j: int|
                    0 <= i < j < v@.len() ==> ts(#[trigger] v@[i]) < ts(#[trigger] v@[j]))
            },
    {
        let ghost rule = self@;
        let mut results: Vec<DateTime> = Vec::new();
        let mut current = event_start;
        let mut count: u32 = 0;
        let max_iterations: u32 = 10_000;
        let mut iterations: u32 = 0;
        let ghost stop = rule.stop_index(event_start, range_end);
        proof {
            lemma_stop_from_ge(rule, event_start, range_end, 0);
        }
        loop
            invariant
                rule == self@,
                rule.wf(),
                event_start.wf(),
                range_start.wf(),
                range_end.wf(),
                max_iterations == 10_000,
                iterations <= 10_000,
                stop == rule.stop_index(event_start, range_end),
                stop == rule.stop_from(event_start, range_end, iterations as nat),
                iterations <= stop <= step_limit(),
                current == rule.nth(event_start, iterations as nat),
                current.wf(),
                count == rule.matches_before(event_start, iterations as nat),
                count <= iterations,
                results@ == rule.kept_before(event_start, range_start, iterations as nat),
                forall|j: nat| j <= iterations ==> (#[trigger] rule.nth(event_start, j)).wf(),
                forall|j: nat|
                    j < iterations ==> !(#[trigger] rule.stops_at(event_start, range_end, j)),
                forall|j: nat|
                    j < iterations ==> #[trigger] rule.advance_defined(rule.nth(event_start, j)),
                0 < rule.interval ==> forall|a: int, b: int|
                    0 <= a < b < results@.len() ==> ts(#[trigger] results@[a]) < ts(
                        #[trigger] results@[b],
                    ),
                0 < rule.interval ==> forall|a: int|
                    0 <= a < results@.len() ==> ts(#[trigger] results@[a]) < ts(current),
            ensures
                results@ == rule.kept_before(event_start, range_start, stop),
                0 < rule.interval ==> forall|a: int, b: int|
                    0 <= a < b < results@.len() ==> ts(#[trigger] results@[a]) < ts(
                        #[trigger] results@[b],
                    ),
                stop == rule.stop_index(event_start, range_end),
                forall|j: nat| j <= stop ==> (#[trigger] rule.nth(event_start, j)).wf(),
                forall|j: nat| j < stop ==> !(#[trigger] rule.stops_at(event_start, range_end, j)),
                forall|j: nat| j < stop ==> #[trigger] rule.advance_defined(rule.nth(event_start, j)),
                stop <= step_limit(),
            decreases 10_000 - iterations,
        {
            let ghost k = iterations as nat;
            if iterations >= max_iterations {
                break;
            }
            if let Some(max_count) = self.count {
                if count >= max_count {
                    break;
                }
            }
            if let Some(until) = self.until {
                if until.lt(&current.date) {
                    break;
                }
            }
            if range_end.le(&current) {
                break;
            }
            assert(!rule.stops_at(event_start, range_end, k));
            assert(rule.stop_from(event_start, range_end, k) == rule.stop_from(
                event_start,
                range_end,
                k + 1,
            ));
            proof {
                lemma_stop_from_ge(rule, event_start, range_end, k + 1);
            }
            let day_matches = if self.freq == Frequency::Weekly && self.by_weekday.len() != 0 {
                let wd = current.date.weekday().num_days_from_monday() as u8;
                self.lists_weekday(wd)
            } else {
                true
            };
            if day_matches && range_start.le(&current) {
                results.push(current);
            }
            if day_matches {
                count += 1;
            }
            match self.advance(current) {
                Some(next) => {
                    current = next;
                },
                None => {
                    assert(!rule.expansion_defined(event_start, range_end)) by {
                        assert(!rule.advance_defined(rule.nth(event_start, k)));
                    }
                    return None;
                },
            }
            iterations += 1;
            assert forall|j: nat| j <= iterations implies (#[trigger] rule.nth(
                event_start,
                j,
            )).wf() by {
                if j == iterations {
                    assert(rule.nth(event_start, j) == current);
                }
            }
        }
        proof {
            lemma_kept_before_props(rule, event_start, range_start, range_end, stop);
            lemma_nth_monotone(rule, event_start, stop);
            lemma_kept_from_nth(rule, event_start, range_start, stop);
            let kept = rule.kept_before(event_start, range_start, stop);
            assert forall|i: int| 0 <= i < kept.len() implies ts(event_start) <= ts(
                #[trigger] kept[i],
            ) && kept[i].time == event_start.time by {
                let j = choose|j: nat| j < stop && kept[i] == rule.nth(event_start, j);
                assert(rule.nth(event_start, 0) == event_start);
                assert(ts(rule.nth(event_start, 0)) <= ts(rule.nth(event_start, j)));
                lemma_nth_time(rule, event_start, j);
            }
            lemma_kept_len(rule, event_start, range_start, stop);
            if self.count is Some && stop > 0 {
                assert(!rule.stops_at(event_start, range_end, (stop - 1) as nat));
            }
        }
        Some(results)
    }

    /// Advance a date-time to the next candidate; `None` when that would
    /// leave the supported dates.
    fn advance(&self, dt: DateTime) -> (r: Option<DateTime>)
        requires
            dt.wf(),
        ensures
            r is Some <==> self@.advance_defined(dt),
            r matches Some(x) ==> x.wf() && x == self@.advance_spec(dt),
            r matches Some(x) ==> (0 < self.interval ==> ts(dt) < ts(x)),
    {
        proof {
            lemma_valid_in_range(dt.date);
        }
        match self.freq {
            Frequency::Daily => {
                let step = Delta::days(self.interval as i64);
                self.step_days(dt, step, Ghost(self.interval as int))
            },
            Frequency::Weekly => {
                if self.by_weekday.len() == 0 {
                    let step = Delta::days(7 * (self.interval as i64));
                    self.step_days(dt, step, Ghost(7 * self.interval))
                } else {
                    let wd = dt.date.weekday().num_days_from_monday();
                    let days: i64 = if wd == 6 && self.interval > 1 {
                        1 + 7 * (self.interval as i64 - 1)
                    } else {
                        1
                    };
                    assert(days == self@.weekday_step(dt.date.num()));
                    let step = Delta::days(days);
                    self.step_days(dt, step, Ghost(days as int))
                }
            },
            Frequency::Monthly => {
                let date = dt.date;
                let day = date.day;
                if self.interval > u32::MAX - date.month {
                    return None;
                }
                let mut month = date.month + self.interval;
                let mut year: i64 = date.year as i64;
                let ghost total = month as int;
                while month > 12
                    invariant
                        total == date.month + self.interval,
                        1 <= month <= total,
                        (total - month) % 12 == 0,
                        year == date.year + (total - month) / 12,
                        date.wf(),
                        total <= u32::MAX,
                    decreases month,
                {
                    month -= 12;
                    year += 1;
                }
                assert(year == self@.monthly_target(date).0 && month == self@.monthly_target(
                    date,
                ).1);
                if year > MAX_YEAR as i64 {
                    return None;
                }
                let year = year as i32;
                let max_day = last_day_of(year, month);
                let clamped_day = if day < max_day {
                    day
                } else {
                    max_day
                };
                match Date::from_ymd(year, month, clamped_day) {
                    Some(d) => {
                        proof {
                            if 0 < self.interval {
                                let t = total;
                                assert(t >= date.month + 1);
                                if t <= 12 {
                                    assert((t - 1) / 12 == 0);
                                    assert((t - 1) % 12 == t - 1);
                                } else {
                                    assert((t - 1) / 12 >= 1);
                                }
                                lemma_later_month(dt, d);
                            }
                        }
                        Some(DateTime::new(d, dt.time))
                    },
                    None => None,
                }
            },
            Frequency::Yearly => {
                let date = dt.date;
                let new_year: i64 = date.year as i64 + self.interval as i64;
                assert(new_year == self@.yearly_target(date));
                if new_year < MIN_YEAR as i64 || new_year > MAX_YEAR as i64 {
                    return None;
                }
                let new_year = new_year as i32;
                let month = date.month;
                let max_day = last_day_of(new_year, month);
                let day = if date.day < max_day {
                    date.day
                } else {
                    max_day
                };
                match Date::from_ymd(new_year, month, day) {
                    Some(d) => {
                        proof {
                            if 0 < self.interval {
                                lemma_later_month(dt, d);
                            }
                        }
                        Some(DateTime::new(d, dt.time))
                    },
                    None => None,
                }
            },
        }
    }

    /// `dt` moved by `days` whole days (given as `step`); `None` when that
    /// leaves the supported dates.
    fn step_days(&self, dt: DateTime, step: Delta, Ghost(days): Ghost<int>) -> (r: Option<
        DateTime,
    >)
        requires
            dt.wf(),
            step.wf(),
            step.value() == days * nanos_per_day(),
        ensures
            r is Some <==> day_in_range(dt.date.num() + days),
            r matches Some(x) ==> x.wf() && x == (DateTime {
                date: date_at(dt.date.num() + days),
                time: dt.time,
            }) && ts(x) == ts(dt) + days * nanos_per_day(),
    {
        assert((ts(dt) + step.value()) / nanos_per_day() == dt.date.num() + days) by {
            assert(ts(dt) + step.value() == (dt.date.num() + days) * nanos_per_day()
                + dt.time.nanos()) by (nonlinear_arith)
                requires
                    ts(dt) == dt.date.num() * nanos_per_day() + dt.time.nanos(),
                    step.value() == days * nanos_per_day(),
            ;
        }
        match dt.checked_add(step) {
            Some(x) => {
                proof {
                    lemma_ts_day_shift(x, dt, days);
                    lemma_date_at(x.date);
                }
                Some(x)
            },
            None => None,
        }
    }
}

/// A date-time moved to a date in a later month, keeping its time of day,
/// is later.
proof fn lemma_later_month(dt: DateTime, d: Date)
    requires
        dt.wf(),
        d.wf(),
        dt.date.year < d.year || (dt.date.year == d.year && dt.date.month < d.month),
    ensures
        ts(dt) < ts(DateTime { date: d, time: dt.time }),
{
    lemma_day_number_order(dt.date, d);
    assert(dt.date.num() * nanos_per_day() + nanos_per_day() <= d.num() * nanos_per_day())
        by (nonlinear_arith)
        requires
            dt.date.num() + 1 <= d.num(),
    ;
}

/// Get the last day number of a given month.
fn last_day_of(year: i32, month: u32) -> (r: u32)
    requires
        MIN_YEAR <= year <= MAX_YEAR,
        1 <= month <= 12,
    ensures
        r == days_in_month(year as int, month as int),
{
    if month == 12 {
        31
    } else {
        let next = Date::from_ymd(year, month + 1, 1);
        match next {
            Some(n) => {
                proof {
                    lemma_month_step(year as int, month as int);
                    lemma_valid_in_range(n);
                    lemma_valid_in_range(
                        Date { year, month, day: days_in_month(year as int, month as int) as u32 },
                    );
                }
                match n.checked_add_days(-1) {
                    Some(d) => {
                        proof {
                            let e = Date {
                                year,
                                month,
                                day: days_in_month(year as int, month as int) as u32,
                            };
                            lemma_day_number_injective(d, e);
                        }
                        d.day
                    },
                    None => 31,
                }
            },
            None => 31,
        }
    }
}

/// A date-time `k` whole days later (`k >= 0`), at the same time of day,
/// is valid and not earlier.
proof fn lemma_days_later(dt: DateTime, k: int)
    requires
        dt.wf(),
        k >= 0,
        day_in_range(dt.date.num() + k),
    ensures
        (DateTime { date: date_at(dt.date.num() + k), time: dt.time }).wf(),
        ts(dt) <= ts(DateTime { date: date_at(dt.date.num() + k), time: dt.time }),
{
    lemma_date_exists(dt.date.num() + k);
    assert(dt.date.num() * nanos_per_day() <= (dt.date.num() + k) * nanos_per_day())
        by (nonlinear_arith)
        requires
            k >= 0,
    ;
}

/// One step of a rule from a valid date-time, where it is defined, gives a
/// valid date-time that is not earlier.
proof fn lemma_advance_not_earlier(rule: RuleView, dt: DateTime)
    requires
        dt.wf(),
        rule.advance_defined(dt),
    ensures
        rule.advance_spec(dt).wf(),
        ts(dt) <= ts(rule.advance_spec(dt)),
{
    let d = dt.date;
    let n = d.num();
    let next = rule.advance_spec(dt);
    match rule.freq {
        Frequency::Daily => {
            lemma_days_later(dt, rule.interval as int);
        },
        Frequency::Weekly => {
            if rule.by_weekday.len() == 0 {
                lemma_days_later(dt, 7 * rule.interval);
            } else {
                lemma_days_later(dt, rule.weekday_step(n));
            }
        },
        Frequency::Monthly => {
            let t = d.month + rule.interval;
            if rule.interval == 0 {
                assert((t - 1) / 12 == 0);
                assert((t - 1) % 12 == t - 1);
                assert(next.date == d);
            } else {
                if t <= 12 {
                    assert((t - 1) / 12 == 0);
                    assert((t - 1) % 12 == t - 1);
                } else {
                    assert((t - 1) / 12 >= 1);
                }
                lemma_later_month(dt, next.date);
            }
        },
        Frequency::Yearly => {
            if rule.interval == 0 {
                assert(next.date == d);
            } else {
                lemma_later_month(dt, next.date);
            }
        },
    }
}

/// Along the candidates of a rule, as far as every step is defined, each
/// candidate is valid and none is earlier than one before it.
proof fn lemma_nth_monotone(rule: RuleView, start: DateTime, k: nat)
    requires
        start.wf(),
        forall|j: nat| j < k ==> #[trigger] rule.advance_defined(rule.nth(start, j)),
    ensures
        forall|j: nat| j <= k ==> (#[trigger] rule.nth(start, j)).wf(),
        forall|i: nat, j: nat|
            i <= j <= k ==> ts(#[trigger] rule.nth(start, i)) <= ts(#[trigger] rule.nth(start, j)),
    decreases k,
{
    if k > 0 {
        let km = (k - 1) as nat;
        lemma_nth_monotone(rule, start, km);
        assert(rule.advance_defined(rule.nth(start, km)));
        lemma_advance_not_earlier(rule, rule.nth(start, km));
        assert(rule.nth(start, k) == rule.advance_spec(rule.nth(start, km)));
        assert forall|i: nat, j: nat| i <= j <= k implies ts(#[trigger] rule.nth(start, i)) <= ts(
            #[trigger] rule.nth(start, j),
        ) by {
            if j == k && i < k {
                assert(ts(rule.nth(start, i)) <= ts(rule.nth(start, km)));
            }
        }
    }
}

/// No index before the stopping index from `k0` (and from `k0` on) stops.
proof fn lemma_stop_from_min(rule: RuleView, start: DateTime, range_end: DateTime, k0: nat, j: nat)
    requires
        k0 <= j < rule.stop_from(start, range_end, k0),
    ensures
        !rule.stops_at(start, range_end, j),
    decreases j - k0,
{
    if j > k0 {
        lemma_stop_from_min(rule, start, range_end, k0 + 1, j);
    }
}

/// Nothing is kept from `range_start` on while every candidate is earlier.
proof fn lemma_kept_none(rule: RuleView, start: DateTime, range_start: DateTime, k: nat)
    requires
        forall|j: nat| j < k ==> ts(#[trigger] rule.nth(start, j)) < ts(range_start),
    ensures
        rule.kept_before(start, range_start, k) == Seq::<DateTime>::empty(),
    decreases k,
{
    if k > 0 {
        lemma_kept_none(rule, start, range_start, (k - 1) as nat);
        assert(ts(rule.nth(start, (k - 1) as nat)) < ts(range_start));
    }
}

/// Past index `from`, where every candidate lies at or after `b`, keeping
/// from `a <= b` and keeping from `b` add the same candidates.
proof fn lemma_kept_split(
    rule: RuleView,
    start: DateTime,
    a: DateTime,
    b: DateTime,
    from: nat,
    k: nat,
)
    requires
        from <= k,
        ts(a) <= ts(b),
        forall|j: nat| from <= j < k ==> ts(#[trigger] rule.nth(start, j)) >= ts(b),
        rule.kept_before(start, b, from) == Seq::<DateTime>::empty(),
    ensures
        rule.kept_before(start, a, k) == rule.kept_before(start, a, from) + rule.kept_before(
            start,
            b,
            k,
        ),
    decreases k - from,
{
    if k == from {
        assert(rule.kept_before(start, a, k) =~= rule.kept_before(start, a, from)
            + Seq::<DateTime>::empty());
    } else {
        let km = (k - 1) as nat;
        lemma_kept_split(rule, start, a, b, from, km);
        let c = rule.nth(start, km);
        assert(ts(c) >= ts(b));
        assert(rule.keeps(c, a) == rule.keeps(c, b));
        let x = rule.kept_before(start, a, from);
        let y = rule.kept_before(start, b, km);
        assert((x + y).push(c) =~= x + y.push(c));
    }
}

/// Splitting a query range `[a, c)` at `b` splits the occurrences: those of
/// `[a, b)` followed by those of `[b, c)`, nothing lost or repeated.
pub proof fn lemma_occurrences_split(
    rule: RuleView,
    start: DateTime,
    a: DateTime,
    b: DateTime,
    c: DateTime,
)
    requires
        rule.wf(),
        start.wf(),
        ts(a) <= ts(b) <= ts(c),
        rule.expansion_defined(start, c),
    ensures
        rule.occurrences_spec(start, a, c) == rule.occurrences_spec(start, a, b)
            + rule.occurrences_spec(start, b, c),
{
    let sb = rule.stop_index(start, b);
    let sc = rule.stop_index(start, c);
    lemma_stop_from_ge(rule, start, b, 0);
    lemma_stop_from_ge(rule, start, c, 0);
    if sc < sb {
        lemma_stop_from_min(rule, start, b, 0, sc);
        assert(false);
    }
    lemma_nth_monotone(rule, start, sc);
    assert forall|j: nat| j < sb implies ts(#[trigger] rule.nth(start, j)) < ts(b) by {
        lemma_stop_from_min(rule, start, b, 0, j);
    }
    lemma_kept_none(rule, start, b, sb);
    if sb < sc {
        lemma_stop_from_min(rule, start, c, 0, sb);
        assert(ts(rule.nth(start, sb)) >= ts(b));
    }
    assert forall|j: nat| sb <= j < sc implies ts(#[trigger] rule.nth(start, j)) >= ts(b) by {
        assert(ts(rule.nth(start, sb)) <= ts(rule.nth(start, j)));
    }
    lemma_kept_split(rule, start, a, b, sb, sc);
}

/// The stopping index from `k` is at least `k`, and at most the step limit.
proof fn lemma_stop_from_ge(rule: RuleView, start: DateTime, range_end: DateTime, k: nat)
    ensures
        rule.stop_from(start, range_end, k) >= k,
        k <= step_limit() ==> rule.stop_from(start, range_end, k) <= step_limit(),
        rule.stops_at(start, range_end, rule.stop_from(start, range_end, k)),
    decreases step_limit() - k,
{
    if k < step_limit() && !rule.stops_at(start, range_end, k) {
        lemma_stop_from_ge(rule, start, range_end, k + 1);
    }
}

/// What every returned candidate satisfies.
proof fn lemma_kept_before_props(
    rule: RuleView,
    start: DateTime,
    range_start: DateTime,
    range_end: DateTime,
    k: nat,
)
    requires
        forall|j: nat| j < k ==> !(#[trigger] rule.stops_at(start, range_end, j)),
        forall|j: nat| j <= k ==> (#[trigger] rule.nth(start, j)).wf(),
    ensures
        forall|i: int|
            0 <= i < rule.kept_before(start, range_start, k).len() ==> {
                let c = #[trigger] rule.kept_before(start, range_start, k)[i];
                &&& c.wf()
                &&& ts(range_start) <= ts(c) < ts(range_end)
                &&& rule.day_matches(c)
                &&& (rule.until matches Some(u) ==> c.date.num() <= u.num())
            },
    decreases k,
{
    if k > 0 {
        let km = (k - 1) as nat;
        lemma_kept_before_props(rule, start, range_start, range_end, km);
        assert(!rule.stops_at(start, range_end, km));
        assert(rule.nth(start, km).wf());
        let prev = rule.kept_before(start, range_start, km);
        let cur = rule.kept_before(start, range_start, k);
        assert forall|i: int| 0 <= i < cur.len() implies {
            let c = #[trigger] cur[i];
            &&& c.wf()
            &&& ts(range_start) <= ts(c) < ts(range_end)
            &&& rule.day_matches(c)
            &&& (rule.until matches Some(u) ==> c.date.num() <= u.num())
        } by {
            if i < prev.len() {
                assert(cur[i] == prev[i]);
            }
        }
    }
}

/// Every candidate keeps the time of day of the start.
proof fn lemma_nth_time(rule: RuleView, start: DateTime, k: nat)
    ensures
        rule.nth(start, k).time == start.time,
    decreases k,
{
    if k > 0 {
        lemma_nth_time(rule, start, (k - 1) as nat);
    }
}

/// Every returned candidate is one of the candidates before the `k`-th.
proof fn lemma_kept_from_nth(rule: RuleView, start: DateTime, range_start: DateTime, k: nat)
    ensures
        forall|i: int|
            0 <= i < rule.kept_before(start, range_start, k).len() ==> exists|j: nat|
                j < k && #[trigger] rule.kept_before(start, range_start, k)[i] == rule.nth(
                    start,
                    j,
                ),
    decreases k,
{
    if k > 0 {
        let km = (k - 1) as nat;
        lemma_kept_from_nth(rule, start, range_start, km);
        let prev = rule.kept_before(start, range_start, km);
        let cur = rule.kept_before(start, range_start, k);
        assert forall|i: int| 0 <= i < cur.len() implies exists|j: nat|
            j < k && #[trigger] cur[i] == rule.nth(start, j) by {
            if i < prev.len() {
                assert(cur[i] == prev[i]);
                let j = choose|j: nat| j < km && prev[i] == rule.nth(start, j);
                assert(j < k && cur[i] == rule.nth(start, j));
            } else {
                assert(cur[i] == rule.nth(start, km));
            }
        }
    }
}

/// For a rule that lists no weekdays, along candidates that never go back in
/// time, the returned ones are a run of consecutive candidates: those from
/// index `f` on, all earlier ones lying before `range_start`.
proof fn lemma_kept_run(rule: RuleView, start: DateTime, range_start: DateTime, k: nat) -> (f:
    nat)
    requires
        !rule.steps_by_weekday(),
        forall|i: nat, j: nat|
            i <= j < k ==> ts(#[trigger] rule.nth(start, i)) <= ts(#[trigger] rule.nth(start, j)),
    ensures
        f <= k,
        rule.kept_before(start, range_start, k) =~= Seq::new(
            (k - f) as nat,
            |i: int| rule.nth(start, (f + i) as nat),
        ),
        forall|j: nat| j < f ==> ts(#[trigger] rule.nth(start, j)) < ts(range_start),
        f < k ==> ts(rule.nth(start, f)) >= ts(range_start),
    decreases k,
{
    if k == 0 {
        0
    } else {
        let km = (k - 1) as nat;
        let f0 = lemma_kept_run(rule, start, range_start, km);
        let c = rule.nth(start, km);
        assert(rule.day_matches(c));
        if ts(c) >= ts(range_start) {
            if f0 == km {
                km
            } else {
                assert(ts(rule.nth(start, f0)) <= ts(c));
                f0
            }
        } else {
            if f0 < km {
                assert(ts(rule.nth(start, f0)) <= ts(c));
            }
            k
        }
    }
}

/// Position of the month of `d` in a count of months running on across
/// years.
pub open spec fn month_index(d: Date) -> int {
    d.year * 12 + d.month
}

/// How consecutive occurrences of a rule that lists no weekdays relate: the
/// same time of day; `interval` days apart for a daily rule and
/// `7 * interval` for a weekly one; `interval` months apart for a monthly
/// rule and `interval` years (in the same month) for a yearly one, the day of
/// the month kept unless the month is shorter, then its last day.
pub open spec fn spaced(rule: RuleView, a: DateTime, b: DateTime) -> bool {
    &&& b.time == a.time
    &&& match rule.freq {
        Frequency::Daily => b.date.num() == a.date.num() + rule.interval,
        Frequency::Weekly => b.date.num() == a.date.num() + 7 * rule.interval,
        Frequency::Monthly => {
            &&& month_index(b.date) == month_index(a.date) + rule.interval
            &&& b.date.day == clamp_day(a.date.day as int, b.date.year as int, b.date.month as int)
        },
        Frequency::Yearly => {
            &&& b.date.year == a.date.year + rule.interval
            &&& b.date.month == a.date.month
            &&& b.date.day == clamp_day(a.date.day as int, b.date.year as int, b.date.month as int)
        },
    }
}

/// One step of a rule that lists no weekdays from a valid date-time, where
/// it is defined, moves it as `spaced` says.
proof fn lemma_advance_spaced(rule: RuleView, dt: DateTime)
    requires
        dt.wf(),
        !rule.steps_by_weekday(),
        rule.advance_defined(dt),
    ensures
        spaced(rule, dt, rule.advance_spec(dt)),
{
    let n = dt.date.num();
    match rule.freq {
        Frequency::Daily => {
            lemma_date_exists(n + rule.interval);
        },
        Frequency::Weekly => {
            lemma_date_exists(n + 7 * rule.interval);
        },
        Frequency::Monthly => {
            let t = dt.date.month + rule.interval;
            let (y, m) = rule.monthly_target(dt.date);
            assert(t - 1 == 12 * ((t - 1) / 12) + (t - 1) % 12);
            assert(y * 12 + m == dt.date.year * 12 + t);
        },
        Frequency::Yearly => {},
    }
}

/// Consecutive occurrences of a rule that lists no weekdays lie one step
/// apart: `interval` days, weeks, months or years, at the same time of day.
pub proof fn lemma_occurrences_spaced(
    rule: RuleView,
    start: DateTime,
    range_start: DateTime,
    range_end: DateTime,
)
    requires
        rule.wf(),
        start.wf(),
        !rule.steps_by_weekday(),
        rule.expansion_defined(start, range_end),
    ensures
        forall|i: int|
            0 <= i < rule.occurrences_spec(start, range_start, range_end).len() - 1 ==> spaced(
                rule,
                #[trigger] rule.occurrences_spec(start, range_start, range_end)[i],
                rule.occurrences_spec(start, range_start, range_end)[i + 1],
            ),
{
    let stop = rule.stop_index(start, range_end);
    lemma_nth_monotone(rule, start, stop);
    let f = lemma_kept_run(rule, start, range_start, stop);
    let occ = rule.occurrences_spec(start, range_start, range_end);
    assert forall|i: int| 0 <= i < occ.len() - 1 implies spaced(
        rule,
        #[trigger] occ[i],
        occ[i + 1],
    ) by {
        let j = (f + i) as nat;
        assert(occ[i] == rule.nth(start, j));
        assert(occ[i + 1] == rule.nth(start, j + 1));
        assert(rule.advance_defined(rule.nth(start, j)));
        lemma_advance_spaced(rule, rule.nth(start, j));
    }
}

/// A rule that lists no weekdays returns its start first whenever the start
/// lies in the range and neither the count nor the until date rules it out.
pub proof fn lemma_first_occurrence_is_start(
    rule: RuleView,
    start: DateTime,
    range_start: DateTime,
    range_end: DateTime,
)
    requires
        rule.wf(),
        start.wf(),
        !rule.steps_by_weekday(),
        rule.expansion_defined(start, range_end),
        ts(range_start) <= ts(start) < ts(range_end),
        rule.count != Some(0u32),
        rule.until matches Some(u) ==> start.date.num() <= u.num(),
    ensures
        rule.occurrences_spec(start, range_start, range_end).len() > 0,
        rule.occurrences_spec(start, range_start, range_end)[0] == start,
{
    let stop = rule.stop_index(start, range_end);
    assert(!rule.stops_at(start, range_end, 0));
    lemma_stop_from_ge(rule, start, range_end, 0);
    assert(stop > 0);
    lemma_nth_monotone(rule, start, stop);
    let f = lemma_kept_run(rule, start, range_start, stop);
    assert(rule.nth(start, 0) == start);
    if f > 0 {
        assert(ts(rule.nth(start, 0)) < ts(range_start));
    }
}

/// Whole weeks (Monday to Sunday) from the week of `a` to the week of `b`.
pub open spec fn weeks_between(a: Date, b: Date) -> int {
    b.num() / 7 - a.num() / 7
}

/// One step of a weekly rule with listed weekdays stays in its week, or
/// moves to the Monday `interval` weeks after its week.
proof fn lemma_weekday_step_weeks(rule: RuleView, n: int)
    requires
        rule.steps_by_weekday(),
        rule.interval >= 1,
    ensures
        (n + rule.weekday_step(n)) / 7 == n / 7 || (n + rule.weekday_step(n)) / 7 == n / 7
            + rule.interval,
{
    let q = n / 7;
    let r = n % 7;
    vstd::arithmetic::div_mod::lemma_fundamental_div_mod(n, 7);
    if r == 6 {
        vstd::arithmetic::div_mod::lemma_fundamental_div_mod_converse(n + 1, 7, q + 1, 0);
        vstd::arithmetic::div_mod::lemma_fundamental_div_mod_converse(
            n + rule.weekday_step(n),
            7,
            q + rule.interval,
            0,
        );
    } else {
        vstd::arithmetic::div_mod::lemma_fundamental_div_mod_converse(n + 1, 7, q, r + 1);
    }
}

/// The candidates of a weekly rule with listed weekdays fall in every
/// `interval`-th week from the week of the start.
proof fn lemma_weekday_candidates_weeks(rule: RuleView, start: DateTime, k: nat)
    requires
        start.wf(),
        rule.steps_by_weekday(),
        rule.interval >= 1,
        forall|j: nat| j < k ==> #[trigger] rule.advance_defined(rule.nth(start, j)),
    ensures
        forall|j: nat|
            j <= k ==> weeks_between(start.date, (#[trigger] rule.nth(start, j)).date)
                % (rule.interval as int) == 0,
    decreases k,
{
    if k > 0 {
        let km = (k - 1) as nat;
        lemma_weekday_candidates_weeks(rule, start, km);
        lemma_nth_monotone(rule, start, km);
        let c = rule.nth(start, km);
        let n = c.date.num();
        assert(rule.advance_defined(c));
        lemma_date_exists(n + rule.weekday_step(n));
        assert(rule.nth(start, k).date.num() == n + rule.weekday_step(n));
        lemma_weekday_step_weeks(rule, n);
        let w = weeks_between(start.date, c.date);
        let w2 = weeks_between(start.date, rule.nth(start, k).date);
        assert(w2 == w || w2 == rule.interval + w);
        vstd::arithmetic::div_mod::lemma_mod_add_multiples_vanish(w, rule.interval as int);
        assert(w2 % (rule.interval as int) == 0);
    } else {
        assert(weeks_between(start.date, rule.nth(start, 0).date) == 0);
        vstd::arithmetic::div_mod::lemma_small_mod(0, rule.interval as nat);
    }
}

/// A weekly rule with listed weekdays returns only days of every
/// `interval`-th week from the week of its start, on listed weekdays.
pub proof fn lemma_weekday_occurrences_weeks(
    rule: RuleView,
    start: DateTime,
    range_start: DateTime,
    range_end: DateTime,
)
    requires
        rule.wf(),
        start.wf(),
        rule.steps_by_weekday(),
        rule.interval >= 1,
        rule.expansion_defined(start, range_end),
    ensures
        forall|i: int|
            0 <= i < rule.occurrences_spec(start, range_start, range_end).len() ==> {
                let o = #[trigger] rule.occurrences_spec(start, range_start, range_end)[i];
                &&& weeks_between(start.date, o.date) % (rule.interval as int) == 0
                &&& rule.by_weekday.contains(o.date.weekday_index() as u8)
            },
{
    let stop = rule.stop_index(start, range_end);
    lemma_weekday_candidates_weeks(rule, start, stop);
    lemma_kept_from_nth(rule, start, range_start, stop);
    lemma_stop_from_ge(rule, start, range_end, 0);
    let occ = rule.occurrences_spec(start, range_start, range_end);
    assert forall|i: int| 0 <= i < occ.len() implies {
        let o = #[trigger] occ[i];
        &&& weeks_between(start.date, o.date) % (rule.interval as int) == 0
        &&& rule.by_weekday.contains(o.date.weekday_index() as u8)
    } by {
        let j = choose|j: nat| j < stop && occ[i] == rule.nth(start, j);
        lemma_kept_keeps(rule, start, range_start, stop, i);
    }
}

/// Every returned candidate is kept: it counts and lies at or after
/// `range_start`.
proof fn lemma_kept_keeps(rule: RuleView, start: DateTime, range_start: DateTime, k: nat, i: int)
    requires
        0 <= i < rule.kept_before(start, range_start, k).len(),
    ensures
        rule.keeps(rule.kept_before(start, range_start, k)[i], range_start),
    decreases k,
{
    if k > 0 {
        let km = (k - 1) as nat;
        if i < rule.kept_before(start, range_start, km).len() {
            lemma_kept_keeps(rule, start, range_start, km, i);
        }
    }
}

/// Returned candidates are at most the counted ones.
proof fn lemma_kept_len(rule: RuleView, start: DateTime, range_start: DateTime, k: nat)
    ensures
        rule.kept_before(start, range_start, k).len() <= rule.matches_before(start, k),
    decreases k,
{
    if k > 0 {
        lemma_kept_len(rule, start, range_start, (k - 1) as nat);
    }
}

} // verus!
