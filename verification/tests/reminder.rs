use koyomi::datetime::{local_now, Date, DateTime, Time};
use koyomi::events::{Event, EventOccurrence};
use koyomi::reminder::{
    look_ahead_end, reminder_times_supported, upcoming_reminders_at, ReminderNotification,
    ReminderScheduler,
};

fn dt(year: i32, month: u32, day: u32, hour: u32, min: u32) -> DateTime {
    DateTime::new(Date::from_ymd(year, month, day).unwrap(), Time::from_hms(hour, min, 0).unwrap())
}

fn occurrence(id: &str, title: &str, start: DateTime, reminders: Vec<i32>) -> EventOccurrence {
    let mut event = Event::new(title.to_string(), start, start);
    event.id = id.to_string();
    event.reminders = reminders;
    EventOccurrence { event, occurrence_start: start, occurrence_end: start }
}

#[test]
fn reminder_scheduler_starts_empty() {
    let sched = ReminderScheduler::new();
    assert_eq!(sched.fired_count(), 0);
}

#[test]
fn reminder_scheduler_clear() {
    let mut sched = ReminderScheduler::new();
    let now = local_now();
    // Fires the reminder keyed ("test", now, 15).
    let fired = sched.check(now, &vec![occurrence("test", "Test", now, vec![15])]);
    assert_eq!(fired.len(), 1);
    assert_eq!(sched.fired_count(), 1);
    sched.clear();
    assert_eq!(sched.fired_count(), 0);
}

#[test]
fn reminder_notification_display() {
    let notif = ReminderNotification {
        event_title: "Meeting".to_string(),
        event_start: dt(2026, 3, 10, 10, 0),
        minutes_before: 15,
        event_id: "test-id".to_string(),
    };
    let s = notif.to_display_string();
    assert!(s.contains("Meeting"));
    assert!(s.contains("10:00"));
    assert!(s.contains("15 min"));
    assert_eq!(s, "Reminder: \"Meeting\" starts at 10:00 (15 min)");
}

#[test]
fn reminders_fire_once() {
    let mut sched = ReminderScheduler::default();
    let occs = vec![occurrence("a", "Standup", dt(2026, 3, 10, 9, 0), vec![15, 60])];
    // 08:00: the hour-ahead reminder is due, the 15-minute one is not.
    let n1 = sched.check(dt(2026, 3, 10, 8, 0), &occs);
    assert_eq!(n1.len(), 1);
    assert_eq!(n1[0].minutes_before, 60);
    // 08:50: only the 15-minute one is new.
    let n2 = sched.check(dt(2026, 3, 10, 8, 50), &occs);
    assert_eq!(n2.len(), 1);
    assert_eq!(n2[0].minutes_before, 15);
    assert_eq!(n2[0].event_title, "Standup");
    assert_eq!(n2[0].event_id, "a");
    // Later checks fire nothing again.
    let n3 = sched.check(dt(2026, 3, 10, 9, 30), &occs);
    assert!(n3.is_empty());
    assert_eq!(sched.fired_count(), 2);
}

#[test]
fn second_check_at_same_time_fires_nothing() {
    let mut sched = ReminderScheduler::new();
    let occs = vec![
        occurrence("a", "Standup", dt(2026, 3, 10, 9, 0), vec![15, 60]),
        occurrence("b", "Lunch", dt(2026, 3, 10, 12, 0), vec![30]),
    ];
    let now = dt(2026, 3, 10, 8, 50);
    let first = sched.check(now, &occs);
    assert_eq!(first.len(), 2);
    let fired = sched.fired_count();
    assert!(sched.check(now, &occs).is_empty());
    assert_eq!(sched.fired_count(), fired);
}

#[test]
fn reminders_not_yet_due() {
    let mut sched = ReminderScheduler::new();
    let occs = vec![occurrence("b", "Review", dt(2026, 3, 10, 15, 0), vec![10])];
    assert!(sched.check(dt(2026, 3, 10, 14, 49), &occs).is_empty());
    assert_eq!(sched.check(dt(2026, 3, 10, 14, 50), &occs).len(), 1);
}

#[test]
fn upcoming_reminder_lines() {
    let occs = vec![
        occurrence("a", "Standup", dt(2026, 3, 10, 9, 0), vec![15]),
        occurrence("b", "Lunch", dt(2026, 3, 10, 12, 0), vec![30]),
    ];
    let lines = upcoming_reminders_at(&occs, dt(2026, 3, 10, 8, 0));
    // Standup's reminder at 08:45 is 45 minutes away; Lunch's at 11:30 is too far.
    assert_eq!(lines, vec!["Standup in 45 min".to_string()]);
    // Exactly 60 minutes ahead is still listed; a reminder time already passed is not.
    let lines = upcoming_reminders_at(&occs, dt(2026, 3, 10, 10, 30));
    assert_eq!(lines, vec!["Lunch in 60 min".to_string()]);
}

#[test]
fn look_ahead_is_one_day() {
    assert_eq!(look_ahead_end(dt(2026, 12, 31, 10, 0)), Some(dt(2027, 1, 1, 10, 0)));
}

#[test]
fn reminder_times_range_check() {
    let ok = vec![occurrence("a", "A", dt(2026, 3, 10, 9, 0), vec![15, -30, i32::MAX])];
    assert!(reminder_times_supported(&ok));
    let early = vec![occurrence("b", "B", dt(-262143, 1, 1, 0, 5), vec![10])];
    assert!(!reminder_times_supported(&early));
    let fine = vec![occurrence("c", "C", dt(-262143, 1, 1, 0, 5), vec![5])];
    assert!(reminder_times_supported(&fine));
}
