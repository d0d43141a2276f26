use koyomi::cli::{
    listing_day_heading, list_line, occurrence_line, span_text, today_heading, week_heading,
};
use koyomi::datetime::{Date, DateFormat, DateTime, Time, TimeFormat};
use koyomi::events::{Event, EventOccurrence};
use koyomi::recurrence::RecurrenceRule;

fn date(y: i32, m: u32, d: u32) -> Date {
    Date::from_ymd(y, m, d).unwrap()
}

fn dt(year: i32, month: u32, day: u32, hour: u32, min: u32) -> DateTime {
    DateTime::new(date(year, month, day), Time::from_hms(hour, min, 0).unwrap())
}

#[test]
fn date_layouts() {
    let d = date(2026, 3, 10);
    assert_eq!(d.format(DateFormat::Iso), "2026-03-10");
    assert_eq!(d.format(DateFormat::MonthDay), "Mar 10");
    assert_eq!(d.format(DateFormat::MonthDayYear), "Mar 10, 2026");
    assert_eq!(d.format(DateFormat::WeekdayMonthDay), "Tuesday, March 10");
    assert_eq!(d.format(DateFormat::WeekdayMonthDayYear), "Tuesday, March 10, 2026");
    assert_eq!(d.format(DateFormat::WeekdayShort), "Tue");
    assert_eq!(date(2026, 9, 6).format(DateFormat::WeekdayMonthDay), "Sunday, September 06");
}

#[test]
fn time_layouts() {
    let t = Time::from_hms(14, 5, 0).unwrap();
    assert_eq!(t.format(TimeFormat::Hour24), "14:05");
    assert_eq!(t.format(TimeFormat::Hour12), "02:05 PM");
    assert_eq!(Time::from_hms(0, 30, 0).unwrap().format(TimeFormat::Hour12), "12:30 AM");
    assert_eq!(Time::from_hms(12, 0, 0).unwrap().format(TimeFormat::Hour12), "12:00 PM");
    assert_eq!(Time::from_hms(9, 15, 0).unwrap().format(TimeFormat::Hour12), "09:15 AM");
}

#[test]
fn occurrence_lines() {
    let mut event = Event::new("Standup".to_string(), dt(2026, 3, 10, 9, 0), dt(2026, 3, 10, 9, 15));
    event.calendar = "work".to_string();
    let occ = EventOccurrence {
        event,
        occurrence_start: dt(2026, 3, 12, 9, 0),
        occurrence_end: dt(2026, 3, 12, 9, 15),
    };
    assert_eq!(occurrence_line(&occ, true, "  "), "  09:00 - 09:15 | Standup [work]");
    assert_eq!(occurrence_line(&occ, false, "    "), "    09:00 AM - 09:15 AM | Standup [work]");
}

#[test]
fn listing_headings() {
    let first = date(2026, 3, 9);
    let last = date(2026, 3, 15);
    assert_eq!(week_heading(first, last, true), "No events this week (Mar 09 - Mar 15).");
    assert_eq!(week_heading(first, last, false), "Events for week of Mar 09 - Mar 15, 2026:");
    assert_eq!(listing_day_heading(date(2026, 3, 10)), "\n  Tuesday, March 10:");
    assert_eq!(today_heading(date(2026, 3, 10), true), "No events today (Tuesday, March 10).");
    assert_eq!(today_heading(date(2026, 3, 10), false), "Events for Tuesday, March 10 (2026-03-10):");
}

#[test]
fn event_span_and_list_line() {
    assert_eq!(span_text(dt(2026, 3, 10, 9, 0), dt(2026, 3, 10, 10, 30)), "2026-03-10 09:00 - 10:30");
    let mut event = Event::new("Review".to_string(), dt(2026, 3, 10, 9, 0), dt(2026, 3, 10, 10, 30));
    event.id = "abcdef0123456789".to_string();
    assert_eq!(list_line(&event), "  [abcdef01] Review | 2026-03-10 09:00 - 10:30 [default]");
    event.recurrence = Some(RecurrenceRule::default());
    assert_eq!(
        list_line(&event),
        "  [abcdef01] Review | 2026-03-10 09:00 - 10:30 [default] (recurring)"
    );
}
