use koyomi::datetime::{Date, DateTime, Time};
use koyomi::editor::{saved_message, store_failure, EditorState};
use koyomi::events::{Event, EventStoreError};
use koyomi::input::EditorField;
use koyomi::recurrence::{Frequency, RecurrenceRule};

fn dt(year: i32, month: u32, day: u32, hour: u32, min: u32) -> DateTime {
    DateTime::new(Date::from_ymd(year, month, day).unwrap(), Time::from_hms(hour, min, 0).unwrap())
}

#[test]
fn editor_state_new_for_date() {
    let date = Date::from_ymd(2026, 3, 10).unwrap();
    let editor = EditorState::new_for_date(date, 10);
    assert_eq!(editor.start_date, "2026-03-10");
    assert_eq!(editor.start_time, "10:00");
    assert_eq!(editor.end_time, "11:00");
    assert!(editor.title.is_empty());
    assert!(editor.editing_id.is_none());
}

#[test]
fn editor_active_value_mut() {
    let date = Date::from_ymd(2026, 3, 10).unwrap();
    let mut editor = EditorState::new_for_date(date, 10);
    editor.active_value_mut().push_str("Meeting");
    assert_eq!(editor.title, "Meeting");
}

#[test]
fn editor_new_for_date_late_hours() {
    let date = Date::from_ymd(2026, 3, 10).unwrap();
    let e = EditorState::new_for_date(date, 23);
    assert_eq!(e.start_time, "23:00");
    assert_eq!(e.end_time, "23:00");
    let e = EditorState::new_for_date(date, 5);
    assert_eq!(e.start_time, "05:00");
    assert_eq!(e.end_time, "06:00");
    assert_eq!(e.calendar, "default");
    assert_eq!(e.end_date, "2026-03-10");
}

#[test]
fn editor_from_event() {
    let mut event = Event::new("Standup".to_string(), dt(2026, 3, 10, 9, 5), dt(2026, 3, 10, 9, 30));
    event.location = Some("Room 1".to_string());
    let mut rule = RecurrenceRule::default();
    rule.freq = Frequency::Weekly;
    event.recurrence = Some(rule);
    let e = EditorState::from_event(&event);
    assert_eq!(e.title, "Standup");
    assert_eq!(e.start_date, "2026-03-10");
    assert_eq!(e.start_time, "09:05");
    assert_eq!(e.end_time, "09:30");
    assert_eq!(e.location, "Room 1");
    assert_eq!(e.recurrence, "Weekly");
    assert_eq!(e.editing_id.as_deref(), Some(event.id.as_str()));
    assert_eq!(e.active_field, EditorField::Title);
    assert_eq!(e.active_value(), "Standup");
}

#[test]
fn editor_active_value_follows_field() {
    let date = Date::from_ymd(2026, 3, 10).unwrap();
    let mut e = EditorState::new_for_date(date, 10);
    e.active_field = EditorField::StartTime;
    assert_eq!(e.active_value(), "10:00");
    e.active_value_mut().push('5');
    assert_eq!(e.start_time, "10:005");
    assert!(e.title.is_empty());
}

#[test]
fn editor_fields_validation() {
    let date = Date::from_ymd(2026, 3, 10).unwrap();
    let mut e = EditorState::new_for_date(date, 10);
    assert_eq!(e.fields().err().unwrap(), "Title is required");
    e.title = "Lunch".to_string();
    let f = e.fields().ok().unwrap();
    assert_eq!(f.start, dt(2026, 3, 10, 10, 0));
    assert_eq!(f.end, dt(2026, 3, 10, 11, 0));
    assert!(f.location.is_none());
    assert!(f.recurrence.is_none());
    e.end_time = "09:00".to_string();
    assert_eq!(e.fields().err().unwrap(), "End time must be after start time");
    e.end_time = "10:00".to_string();
    assert_eq!(e.fields().err().unwrap(), "End time must be after start time");
    e.start_time = "bad".to_string();
    assert!(e.fields().err().unwrap().starts_with("Invalid start: "));
    e.start_time = "10:00".to_string();
    e.end_date = "2026-13-01".to_string();
    assert!(e.fields().err().unwrap().starts_with("Invalid end: "));
}

#[test]
fn editor_fields_recurrence_and_event() {
    let date = Date::from_ymd(2026, 3, 10).unwrap();
    let mut e = EditorState::new_for_date(date, 8);
    e.title = "Gym".to_string();
    e.recurrence = "WEEKLY".to_string();
    e.location = "Club".to_string();
    let f = e.fields().ok().unwrap();
    assert_eq!(f.recurrence.as_ref().unwrap().freq, Frequency::Weekly);
    assert_eq!(f.recurrence.as_ref().unwrap().interval, 1);
    let event = e.new_event(f);
    assert_eq!(event.title, "Gym");
    assert_eq!(event.location.as_deref(), Some("Club"));
    assert_eq!(event.start, dt(2026, 3, 10, 8, 0));
    e.recurrence = "sometimes".to_string();
    assert!(e.fields().ok().unwrap().recurrence.is_none());
}

#[test]
fn editor_update_keeps_identity() {
    let mut event = Event::new("Old".to_string(), dt(2026, 3, 10, 9, 0), dt(2026, 3, 10, 10, 0));
    event.reminders = vec![5];
    let id = event.id.clone();
    let mut e = EditorState::from_event(&event);
    e.title = "New".to_string();
    e.start_time = "09:30".to_string();
    let f = e.fields().ok().unwrap();
    e.update_event(&mut event, f);
    assert_eq!(event.id, id);
    assert_eq!(event.title, "New");
    assert_eq!(event.start, dt(2026, 3, 10, 9, 30));
    assert_eq!(event.reminders, vec![5]);
}

#[test]
fn save_messages() {
    assert_eq!(saved_message(true, "A"), "Updated: A");
    assert_eq!(saved_message(false, "B"), "Created: B");
    let e = EventStoreError::NotFound("x".to_string());
    assert_eq!(store_failure("Read", &e), "Read failed: event not found: x");
}

#[test]
fn editor_fields_from_read_values() {
    let date = Date::from_ymd(2026, 3, 10).unwrap();
    let mut e = EditorState::new_for_date(date, 10);
    e.title = "Talk".to_string();
    let start = dt(2026, 3, 10, 14, 0);
    let end = dt(2026, 3, 10, 15, 0);
    let f = e.fields_from(Ok(start), Ok(end)).ok().unwrap();
    assert_eq!((f.start, f.end), (start, end));
    assert_eq!(f.calendar, "default");
    assert_eq!(e.fields_from(Err("bad".to_string()), Ok(end)).err().unwrap(), "Invalid start: bad");
    assert_eq!(e.fields_from(Ok(start), Err("worse".to_string())).err().unwrap(), "Invalid end: worse");
    assert_eq!(
        e.fields_from(Ok(end), Ok(start)).err().unwrap(),
        "End time must be after start time"
    );
    e.title.clear();
    assert_eq!(e.fields_from(Ok(start), Ok(end)).err().unwrap(), "Title is required");
}
