use koyomi::datetime::{Date, DateTime, Delta, Time};
use koyomi::events::{
    count_on_date, day_window, default_calendar, next_event, query_date, query_range,
    sort_by_start, Event, EventStore, EventStoreError,
};
use koyomi::recurrence::{Frequency, RecurrenceRule};

fn dt(year: i32, month: u32, day: u32, hour: u32, min: u32) -> DateTime {
    DateTime::new(Date::from_ymd(year, month, day).unwrap(), Time::from_hms(hour, min, 0).unwrap())
}

fn date(y: i32, m: u32, d: u32) -> Date {
    Date::from_ymd(y, m, d).unwrap()
}

#[test]
fn event_creation() {
    let event = Event::new("Test meeting".to_string(), dt(2026, 3, 10, 10, 0), dt(2026, 3, 10, 11, 0));
    assert!(!event.id.is_empty());
    assert_eq!(event.title, "Test meeting");
    assert_eq!(event.duration(), Delta::hours(1));
}

#[test]
fn event_occurs_on_single_day() {
    let event = Event::new("Meeting".to_string(), dt(2026, 3, 10, 10, 0), dt(2026, 3, 10, 11, 0));
    assert!(event.occurs_on(date(2026, 3, 10)));
    assert!(!event.occurs_on(date(2026, 3, 11)));
}

#[test]
fn event_occurs_on_multi_day() {
    let event = Event::new("Conference".to_string(), dt(2026, 3, 10, 9, 0), dt(2026, 3, 12, 17, 0));
    assert!(event.occurs_on(date(2026, 3, 10)));
    assert!(event.occurs_on(date(2026, 3, 11)));
    assert!(event.occurs_on(date(2026, 3, 12)));
    assert!(!event.occurs_on(date(2026, 3, 13)));
}

#[test]
fn store_list_all() {
    // Listing orders the stored events by start time.
    let e2 = Event::new("Second".to_string(), dt(2026, 3, 11, 14, 0), dt(2026, 3, 11, 15, 0));
    let e1 = Event::new("First".to_string(), dt(2026, 3, 10, 10, 0), dt(2026, 3, 10, 11, 0));
    let all = sort_by_start(vec![e2, e1]);
    assert_eq!(all.len(), 2);
    assert_eq!(all[0].title, "First");
    assert_eq!(all[1].title, "Second");
}

#[test]
fn store_query_range() {
    let e1 = Event::new("Morning".to_string(), dt(2026, 3, 10, 9, 0), dt(2026, 3, 10, 10, 0));
    let e2 = Event::new("Afternoon".to_string(), dt(2026, 3, 10, 14, 0), dt(2026, 3, 10, 15, 0));
    let e3 = Event::new("Tomorrow".to_string(), dt(2026, 3, 11, 10, 0), dt(2026, 3, 11, 11, 0));
    let events = vec![e1, e2, e3];
    let occs = query_range(&events, dt(2026, 3, 10, 0, 0), dt(2026, 3, 11, 0, 0)).unwrap();
    assert_eq!(occs.len(), 2);
}

#[test]
fn store_recurring_query() {
    let mut event = Event::new("Daily standup".to_string(), dt(2026, 3, 1, 9, 0), dt(2026, 3, 1, 9, 30));
    let mut rule = RecurrenceRule::default();
    rule.freq = Frequency::Daily;
    rule.interval = 1;
    rule.count = Some(31);
    event.recurrence = Some(rule);
    let events = vec![event];
    let occs = query_date(&events, date(2026, 3, 10)).unwrap();
    assert_eq!(occs.len(), 1);
    assert_eq!(occs[0].event.title, "Daily standup");
    assert_eq!(occs[0].occurrence_start, dt(2026, 3, 10, 9, 0));
    assert_eq!(occs[0].occurrence_end, dt(2026, 3, 10, 9, 30));
}

#[test]
fn query_range_orders_by_occurrence_start() {
    let late = Event::new("Late".to_string(), dt(2026, 3, 10, 18, 0), dt(2026, 3, 10, 19, 0));
    let early = Event::new("Early".to_string(), dt(2026, 3, 10, 8, 0), dt(2026, 3, 10, 9, 0));
    let events = vec![late, early];
    let occs = query_range(&events, dt(2026, 3, 10, 0, 0), dt(2026, 3, 11, 0, 0)).unwrap();
    assert_eq!(occs.len(), 2);
    assert_eq!(occs[0].event.title, "Early");
    assert_eq!(occs[1].event.title, "Late");
}

#[test]
fn query_range_keeps_events_starting_in_range() {
    // Started the day before, still running at midnight: its start is not in range.
    let overnight = Event::new("Overnight".to_string(), dt(2026, 3, 9, 22, 0), dt(2026, 3, 10, 2, 0));
    // Ends exactly when the range starts.
    let ended = Event::new("Ended".to_string(), dt(2026, 3, 9, 20, 0), dt(2026, 3, 10, 0, 0));
    // Starts at the very start of the range.
    let midnight = Event::new("Midnight".to_string(), dt(2026, 3, 10, 0, 0), dt(2026, 3, 10, 1, 0));
    // Starts exactly at the end of the range.
    let next_day = Event::new("Next".to_string(), dt(2026, 3, 11, 0, 0), dt(2026, 3, 11, 1, 0));
    let events = vec![overnight, ended, midnight, next_day];
    let occs = query_range(&events, dt(2026, 3, 10, 0, 0), dt(2026, 3, 11, 0, 0)).unwrap();
    assert_eq!(occs.len(), 1);
    assert_eq!(occs[0].event.title, "Midnight");
}

#[test]
fn one_off_occurrences_in_range_only_when_start_in_range() {
    let overnight = Event::new("Overnight".to_string(), dt(2026, 3, 9, 22, 0), dt(2026, 3, 10, 2, 0));
    assert!(overnight.occurrences_in_range(dt(2026, 3, 10, 0, 0), dt(2026, 3, 11, 0, 0)).is_empty());
    assert_eq!(
        overnight.occurrences_in_range(dt(2026, 3, 9, 0, 0), dt(2026, 3, 10, 0, 0)),
        vec![dt(2026, 3, 9, 22, 0)]
    );
    assert!(overnight.occurrences_in_range(dt(2026, 3, 9, 23, 0), dt(2026, 3, 10, 0, 0)).is_empty());
}

#[test]
fn recurring_occurs_on_counts_overnight_occurrence() {
    let mut night = Event::new("Night".to_string(), dt(2026, 3, 10, 23, 0), dt(2026, 3, 11, 1, 0));
    let mut rule = RecurrenceRule::default();
    rule.freq = Frequency::Daily;
    rule.count = Some(1);
    night.recurrence = Some(rule);
    assert!(!night.occurs_on(date(2026, 3, 9)));
    assert!(night.occurs_on(date(2026, 3, 10)));
    assert!(night.occurs_on(date(2026, 3, 11)));
    assert!(!night.occurs_on(date(2026, 3, 12)));
}

#[test]
fn recurring_occurs_on_daily_series() {
    let mut standup = Event::new("Standup".to_string(), dt(2026, 3, 2, 9, 0), dt(2026, 3, 2, 9, 15));
    let mut rule = RecurrenceRule::default();
    rule.freq = Frequency::Daily;
    rule.interval = 2;
    rule.count = Some(3);
    standup.recurrence = Some(rule);
    assert!(standup.occurs_on(date(2026, 3, 2)));
    assert!(!standup.occurs_on(date(2026, 3, 3)));
    assert!(standup.occurs_on(date(2026, 3, 4)));
    assert!(standup.occurs_on(date(2026, 3, 6)));
    assert!(!standup.occurs_on(date(2026, 3, 8)));
    assert!(!standup.occurs_on(date(2026, 3, 1)));
}

#[test]
fn count_and_next_event() {
    let a = Event::new("A".to_string(), dt(2026, 3, 10, 9, 0), dt(2026, 3, 10, 10, 0));
    let b = Event::new("B".to_string(), dt(2026, 3, 12, 9, 0), dt(2026, 3, 12, 10, 0));
    let events = vec![b, a];
    assert_eq!(count_on_date(&events, date(2026, 3, 10)), Some(1));
    assert_eq!(count_on_date(&events, date(2026, 3, 11)), Some(0));
    let next = next_event(&events, dt(2026, 3, 9, 0, 0)).unwrap().unwrap();
    assert_eq!(next.event.title, "A");
    let after = next_event(&events, dt(2026, 3, 11, 0, 0)).unwrap().unwrap();
    assert_eq!(after.event.title, "B");
    assert!(next_event(&events, dt(2026, 3, 13, 0, 0)).unwrap().is_none());
}

#[test]
fn day_window_spans_one_day() {
    let (s, e) = day_window(date(2026, 3, 10)).unwrap();
    assert_eq!(s, dt(2026, 3, 10, 0, 0));
    assert_eq!(e, dt(2026, 3, 11, 0, 0));
    let (s, e) = day_window(date(2026, 12, 31)).unwrap();
    assert_eq!(s, dt(2026, 12, 31, 0, 0));
    assert_eq!(e, dt(2027, 1, 1, 0, 0));
}

#[test]
fn new_event_defaults() {
    let event = Event::new("X".to_string(), dt(2026, 3, 10, 9, 0), dt(2026, 3, 10, 10, 0));
    assert_eq!(event.id.len(), 36);
    assert_eq!(event.calendar, "default");
    assert_eq!(default_calendar(), "default");
    assert!(event.reminders.is_empty());
    assert!(event.recurrence.is_none());
    let other = Event::new("X".to_string(), dt(2026, 3, 10, 9, 0), dt(2026, 3, 10, 10, 0));
    assert_ne!(event.id, other.id);
}

#[test]
fn error_messages() {
    assert_eq!(EventStoreError::Io("disk".to_string()).message(), "I/O error: disk");
    assert_eq!(EventStoreError::Serialize("x".to_string()).message(), "serialization error: x");
    assert_eq!(EventStoreError::Deserialize("y".to_string()).message(), "deserialization error: y");
    assert_eq!(EventStoreError::NotFound("id1".to_string()).message(), "event not found: id1");
}

#[test]
fn event_path_in_data_dir() {
    let store = EventStore::at("/data/koyomi/events".to_string());
    assert_eq!(store.data_dir(), "/data/koyomi/events");
    assert_eq!(store.event_path("abc"), "/data/koyomi/events/abc.yaml");
}

#[test]
fn data_dir_defaults_to_tmp() {
    assert_eq!(koyomi::events::data_dir_from(None), "/tmp/koyomi/events");
    assert_eq!(
        koyomi::events::data_dir_from(Some("/home/u/.local/share".to_string())),
        "/home/u/.local/share/koyomi/events"
    );
}

#[test]
fn equal_starts_keep_their_order() {
    let a = Event::new("A".to_string(), dt(2026, 3, 10, 9, 0), dt(2026, 3, 10, 10, 0));
    let b = Event::new("B".to_string(), dt(2026, 3, 10, 8, 0), dt(2026, 3, 10, 9, 0));
    let c = Event::new("C".to_string(), dt(2026, 3, 10, 9, 0), dt(2026, 3, 10, 11, 0));
    let sorted = sort_by_start(vec![a.copy(), b.copy(), c.copy()]);
    let titles: Vec<&str> = sorted.iter().map(|e| e.title.as_str()).collect();
    assert_eq!(titles, vec!["B", "A", "C"]);
    let sorted = sort_by_start(vec![c, b, a]);
    let titles: Vec<&str> = sorted.iter().map(|e| e.title.as_str()).collect();
    assert_eq!(titles, vec!["B", "C", "A"]);
}
