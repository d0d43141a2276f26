use koyomi::datetime::{Date, DateTime, Time, Weekday};
use koyomi::recurrence::{Frequency, RecurrenceRule};

fn dt(year: i32, month: u32, day: u32, hour: u32, min: u32) -> DateTime {
    DateTime::new(Date::from_ymd(year, month, day).unwrap(), Time::from_hms(hour, min, 0).unwrap())
}

fn rule(freq: Frequency, interval: u32, count: Option<u32>) -> RecurrenceRule {
    let mut r = RecurrenceRule::default();
    r.freq = freq;
    r.interval = interval;
    r.count = count;
    r
}

#[test]
fn daily_recurrence() {
    let rule = rule(Frequency::Daily, 1, Some(5));
    let start = dt(2026, 3, 1, 9, 0);
    let occ = rule.occurrences(start, dt(2026, 3, 1, 0, 0), dt(2026, 3, 31, 23, 59));
    assert_eq!(occ.len(), 5);
    assert_eq!(occ[0], dt(2026, 3, 1, 9, 0));
    assert_eq!(occ[4], dt(2026, 3, 5, 9, 0));
}

#[test]
fn daily_every_other_day() {
    let rule = rule(Frequency::Daily, 2, Some(3));
    let start = dt(2026, 3, 1, 10, 0);
    let occ = rule.occurrences(start, dt(2026, 3, 1, 0, 0), dt(2026, 3, 31, 23, 59));
    assert_eq!(occ.len(), 3);
    assert_eq!(occ[1], dt(2026, 3, 3, 10, 0));
    assert_eq!(occ[2], dt(2026, 3, 5, 10, 0));
}

#[test]
fn weekly_recurrence() {
    let rule = rule(Frequency::Weekly, 1, Some(4));
    let start = dt(2026, 3, 2, 14, 0);
    let occ = rule.occurrences(start, dt(2026, 3, 1, 0, 0), dt(2026, 4, 30, 23, 59));
    assert_eq!(occ.len(), 4);
    assert_eq!(occ[1], dt(2026, 3, 9, 14, 0));
}

#[test]
fn weekly_by_weekday() {
    let mut rule = rule(Frequency::Weekly, 1, Some(6));
    rule.by_weekday = vec![0, 2, 4];
    let start = dt(2026, 3, 2, 9, 0);
    let occ = rule.occurrences(start, dt(2026, 3, 1, 0, 0), dt(2026, 3, 31, 23, 59));
    assert_eq!(occ.len(), 6);
    assert_eq!(occ[0].date.weekday(), Weekday::Mon);
    assert_eq!(occ[1].date.weekday(), Weekday::Wed);
    assert_eq!(occ[2].date.weekday(), Weekday::Fri);
}

#[test]
fn monthly_recurrence() {
    let rule = rule(Frequency::Monthly, 1, Some(3));
    let start = dt(2026, 1, 31, 10, 0);
    let occ = rule.occurrences(start, dt(2026, 1, 1, 0, 0), dt(2026, 12, 31, 23, 59));
    assert_eq!(occ.len(), 3);
    assert_eq!(occ[0], dt(2026, 1, 31, 10, 0));
    assert_eq!(occ[1].date.month, 2);
    assert_eq!(occ[1].date.day, 28);
}

#[test]
fn yearly_recurrence() {
    let rule = rule(Frequency::Yearly, 1, Some(3));
    let start = dt(2024, 2, 29, 12, 0);
    let occ = rule.occurrences(start, dt(2024, 1, 1, 0, 0), dt(2030, 12, 31, 23, 59));
    assert_eq!(occ.len(), 3);
    assert_eq!(occ[0], dt(2024, 2, 29, 12, 0));
    assert_eq!(occ[1].date.day, 28);
}

#[test]
fn until_limit() {
    let mut rule = rule(Frequency::Daily, 1, None);
    rule.until = Some(Date::from_ymd(2026, 3, 5).unwrap());
    let start = dt(2026, 3, 1, 9, 0);
    let occ = rule.occurrences(start, dt(2026, 3, 1, 0, 0), dt(2026, 3, 31, 23, 59));
    assert_eq!(occ.len(), 5);
}

#[test]
fn range_filtering() {
    let rule = rule(Frequency::Daily, 1, Some(10));
    let start = dt(2026, 3, 1, 9, 0);
    let occ = rule.occurrences(start, dt(2026, 3, 5, 0, 0), dt(2026, 3, 8, 0, 0));
    assert_eq!(occ.len(), 3);
    assert_eq!(occ[0], dt(2026, 3, 5, 9, 0));
}

#[test]
fn occurrences_stay_within_range_and_count() {
    let rule = rule(Frequency::Daily, 3, Some(4));
    let start = dt(2026, 3, 1, 9, 0);
    let range_start = dt(2026, 3, 4, 0, 0);
    let range_end = dt(2026, 3, 30, 0, 0);
    let occ = rule.occurrences(start, range_start, range_end);
    // Occurrences: Mar 1, 4, 7, 10 (count 4); Mar 1 is before the range.
    assert_eq!(occ, vec![dt(2026, 3, 4, 9, 0), dt(2026, 3, 7, 9, 0), dt(2026, 3, 10, 9, 0)]);
}

#[test]
fn frequency_names() {
    assert_eq!(Frequency::Daily.name(), "Daily");
    assert_eq!(Frequency::Yearly.name(), "Yearly");
    assert_eq!(Frequency::from_lowercase("weekly"), Some(Frequency::Weekly));
    assert_eq!(Frequency::from_lowercase("Weekly"), None);
    assert_eq!(Frequency::from_lowercase("hourly"), None);
}

#[test]
fn default_rule_values() {
    let r = RecurrenceRule::default();
    assert_eq!(r.freq, Frequency::Daily);
    assert_eq!(r.interval, koyomi::recurrence::default_interval());
    assert_eq!(r.interval, 1);
    assert!(r.count.is_none() && r.until.is_none() && r.by_weekday.is_empty());
}

#[test]
fn zero_interval_repeats_the_start() {
    // A zero interval never moves: every candidate is the start itself.
    let rule = rule(Frequency::Daily, 0, Some(3));
    let start = dt(2026, 3, 1, 9, 0);
    let occ = rule.occurrences(start, dt(2026, 3, 1, 0, 0), dt(2026, 3, 31, 0, 0));
    assert_eq!(occ, vec![start, start, start]);
}

#[test]
fn occurrences_increase_with_positive_interval() {
    let rule = rule(Frequency::Monthly, 5, Some(6));
    let start = dt(2026, 8, 31, 7, 0);
    let occ = rule.occurrences(start, dt(2026, 1, 1, 0, 0), dt(2030, 1, 1, 0, 0));
    assert_eq!(occ.len(), 6);
    for w in occ.windows(2) {
        assert!(w[0].lt(&w[1]));
    }
    // Aug 31 -> Jan 31 -> Jun 30 (clamped) -> Nov 30 -> Apr 30 -> Sep 30
    assert_eq!(occ[2], dt(2027, 6, 30, 7, 0));
    assert_eq!(occ[5], dt(2028, 9, 30, 7, 0));
}

#[test]
fn weekly_by_weekday_every_other_week() {
    let mut rule = rule(Frequency::Weekly, 2, Some(2));
    rule.by_weekday = vec![0];
    let start = dt(2026, 3, 2, 9, 0);
    let occ = rule.occurrences(start, dt(2026, 3, 1, 0, 0), dt(2026, 4, 30, 0, 0));
    assert_eq!(occ, vec![dt(2026, 3, 2, 9, 0), dt(2026, 3, 16, 9, 0)]);
}

#[test]
fn weekly_by_weekday_every_third_week_several_days() {
    let mut rule = rule(Frequency::Weekly, 3, Some(4));
    rule.by_weekday = vec![1, 3];
    // Tuesday 3 March 2026.
    let start = dt(2026, 3, 3, 18, 0);
    let occ = rule.occurrences(start, dt(2026, 3, 1, 0, 0), dt(2026, 6, 1, 0, 0));
    assert_eq!(
        occ,
        vec![dt(2026, 3, 3, 18, 0), dt(2026, 3, 5, 18, 0), dt(2026, 3, 24, 18, 0), dt(2026, 3, 26, 18, 0)]
    );
}

#[test]
fn splitting_the_range_splits_the_occurrences() {
    let rule = rule(Frequency::Daily, 1, Some(10));
    let start = dt(2026, 3, 1, 9, 0);
    let a = dt(2026, 3, 2, 0, 0);
    let b = dt(2026, 3, 5, 9, 0);
    let c = dt(2026, 3, 20, 0, 0);
    let whole = rule.occurrences(start, a, c);
    let mut parts = rule.occurrences(start, a, b);
    parts.extend(rule.occurrences(start, b, c));
    assert_eq!(whole, parts);
    assert_eq!(whole.len(), 9);
    assert_eq!(rule.occurrences(start, a, b).len(), 3);
}

#[test]
fn yearly_steps_forward_by_interval() {
    let r = rule(Frequency::Yearly, 2, Some(3));
    let occ = r.occurrences(dt(2024, 2, 29, 8, 0), dt(2000, 1, 1, 0, 0), dt(2040, 1, 1, 0, 0));
    assert_eq!(occ, vec![dt(2024, 2, 29, 8, 0), dt(2026, 2, 28, 8, 0), dt(2028, 2, 28, 8, 0)]);
}

#[test]
fn yearly_step_past_supported_years_is_not_expanded() {
    let r = rule(Frequency::Yearly, u32::MAX, Some(2));
    let start = dt(2026, 1, 1, 0, 0);
    assert!(r.checked_occurrences(start, dt(2000, 1, 1, 0, 0), dt(2030, 1, 1, 0, 0)).is_none());
}
