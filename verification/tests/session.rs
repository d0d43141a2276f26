use koyomi::calendar::{ViewMode, WeekStart};
use koyomi::datetime::{Date, DateTime, Time};
use koyomi::events::{query_range, Event, EventStore, EventStoreError};
use koyomi::input::{Action, EditorField, InputMode};
use koyomi::session::{AppState, Request};

fn date(y: i32, m: u32, d: u32) -> Date {
    Date::from_ymd(y, m, d).unwrap()
}

fn dt(year: i32, month: u32, day: u32, hour: u32, min: u32) -> DateTime {
    DateTime::new(date(year, month, day), Time::from_hms(hour, min, 0).unwrap())
}

fn state(today: Date) -> AppState {
    AppState::new(EventStore::at("/tmp/koyomi-test".to_string()), today, WeekStart::Monday, true, Vec::new())
}

#[test]
fn session_starts_in_month_view() {
    let s = state(date(2026, 3, 10));
    assert_eq!(s.view_mode, ViewMode::Month);
    assert_eq!((s.year, s.month), (2026, 3));
    assert_eq!(s.selected_hour, 9);
    assert_eq!(s.input_mode, InputMode::Normal);
}

#[test]
fn month_moves_follow_cursor() {
    let today = date(2026, 3, 31);
    let mut s = state(today);
    assert!(matches!(s.apply_action(Action::MoveBackward, today), Request::Done));
    assert_eq!(s.cursor_date, date(2026, 3, 30));
    assert!(matches!(s.apply_action(Action::MoveForward, today), Request::Done));
    assert!(matches!(s.apply_action(Action::MoveForward, today), Request::Refresh));
    assert_eq!(s.cursor_date, date(2026, 4, 1));
    assert_eq!((s.year, s.month), (2026, 4));
    assert!(matches!(s.apply_action(Action::MovePrevWeek, today), Request::Refresh));
    assert_eq!(s.cursor_date, date(2026, 3, 25));
    assert_eq!((s.year, s.month), (2026, 3));
}

#[test]
fn week_view_moves_by_day_and_hour() {
    let today = date(2026, 3, 10);
    let mut s = state(today);
    assert!(matches!(s.apply_action(Action::WeekView, today), Request::Refresh));
    assert!(matches!(s.apply_action(Action::MoveNextWeek, today), Request::Done));
    assert_eq!(s.cursor_date, date(2026, 3, 11));
    for _ in 0..20 {
        s.apply_action(Action::MoveForward, today);
    }
    assert_eq!(s.selected_hour, 23);
    for _ in 0..30 {
        s.apply_action(Action::MoveBackward, today);
    }
    assert_eq!(s.selected_hour, 0);
    assert!(matches!(s.apply_action(Action::DayView, today), Request::Refresh));
    assert!(matches!(s.apply_action(Action::MovePrevWeek, today), Request::Refresh));
    assert_eq!(s.cursor_date, date(2026, 3, 10));
}

#[test]
fn month_jumps_and_today() {
    let today = date(2026, 1, 15);
    let mut s = state(today);
    assert!(matches!(s.apply_action(Action::PrevMonth, today), Request::Refresh));
    assert_eq!((s.year, s.month), (2025, 12));
    assert_eq!(s.cursor_date, date(2025, 12, 1));
    s.apply_action(Action::NextMonth, today);
    s.apply_action(Action::NextMonth, today);
    assert_eq!((s.year, s.month), (2026, 2));
    assert!(matches!(s.apply_action(Action::JumpToday, today), Request::Refresh));
    assert_eq!(s.cursor_date, today);
    assert_eq!((s.year, s.month), (2026, 1));
}

#[test]
fn views_cycle_and_open_day() {
    let today = date(2026, 3, 10);
    let mut s = state(today);
    s.apply_action(Action::CycleView, today);
    assert_eq!(s.view_mode, ViewMode::Week);
    assert!(matches!(s.apply_action(Action::OpenDay, today), Request::Done));
    s.apply_action(Action::MonthView, today);
    assert!(matches!(s.apply_action(Action::OpenDay, today), Request::Refresh));
    assert_eq!(s.view_mode, ViewMode::Day);
    assert!(matches!(s.apply_action(Action::NoAction, today), Request::Ignore));
    assert!(matches!(s.apply_action(Action::Quit, today), Request::Quit));
}

#[test]
fn add_event_opens_editor_and_typing_edits() {
    let today = date(2026, 3, 10);
    let mut s = state(today);
    s.apply_action(Action::AddEvent, today);
    assert_eq!(s.input_mode, InputMode::EventEditor);
    assert_eq!(s.editor.as_ref().unwrap().start_time, "09:00");
    s.apply_action(Action::TypeChar('H'), today);
    s.apply_action(Action::TypeChar('i'), today);
    assert_eq!(s.editor.as_ref().unwrap().title, "Hi");
    s.apply_action(Action::Backspace, today);
    assert_eq!(s.editor.as_ref().unwrap().title, "H");
    s.apply_action(Action::NextField, today);
    assert_eq!(s.editor.as_ref().unwrap().active_field, EditorField::StartDate);
    match s.apply_action(Action::SaveEvent, today) {
        Request::Save(e) => {
            assert_eq!(e.title, "H");
            assert!(s.editor.is_none());
            // A failed save gives the editor back.
            assert!(!s.finish_save(e, Err("Title is required".to_string())));
            assert_eq!(s.status, "Save failed: Title is required");
            assert!(s.editor.is_some());
        }
        _ => panic!("expected a save request"),
    }
    s.apply_action(Action::CancelEdit, today);
    assert!(s.editor.is_none());
    assert_eq!(s.input_mode, InputMode::Normal);
    assert!(s.status.is_empty());
}

#[test]
fn command_mode_commands() {
    let today = date(2026, 3, 10);
    let mut s = state(today);
    s.apply_action(Action::EnterCommand, today);
    assert_eq!(s.input_mode, InputMode::Command);
    for c in "goto 2027-05-04".chars() {
        s.apply_action(Action::TypeChar(c), today);
    }
    assert_eq!(s.command_buffer, "goto 2027-05-04");
    assert!(matches!(s.apply_action(Action::SubmitCommand, today), Request::Refresh));
    assert_eq!(s.input_mode, InputMode::Normal);
    assert!(s.command_buffer.is_empty());
    assert_eq!(s.cursor_date, date(2027, 5, 4));
    assert_eq!((s.year, s.month), (2027, 5));

    assert!(matches!(s.execute_command("view week"), Request::Refresh));
    assert_eq!(s.view_mode, ViewMode::Week);
    assert!(matches!(s.execute_command("  view 3 "), Request::Refresh));
    assert_eq!(s.view_mode, ViewMode::Day);
    assert!(matches!(s.execute_command("view year"), Request::Done));
    assert_eq!(s.status, "Unknown view: year");
    s.execute_command("view");
    assert_eq!(s.status, "Usage: :view month|week|day");
    s.execute_command("goto");
    assert_eq!(s.status, "Usage: :goto YYYY-MM-DD");
    s.execute_command("goto tomorrow");
    assert!(s.status.starts_with("Invalid date: "));
    s.execute_command("quit");
    assert_eq!(s.status, "Use 'q' key to quit");
    s.execute_command("frobnicate now");
    assert_eq!(s.status, "Unknown command: frobnicate");
    s.execute_command("");
    assert_eq!(s.status, "Unknown command: ");
    s.execute_command("search");
    assert_eq!(s.status, "Usage: :search <query>");
    match s.execute_command("search  Team Sync ") {
        Request::Search(q) => assert_eq!(q, "team sync"),
        _ => panic!("expected a search request"),
    }
}

#[test]
fn search_and_cancel() {
    let today = date(2026, 3, 10);
    let mut s = state(today);
    s.apply_action(Action::Search, today);
    assert_eq!(s.input_mode, InputMode::Command);
    assert_eq!(s.command_buffer, "search ");
    s.apply_action(Action::CancelCommand, today);
    assert_eq!(s.input_mode, InputMode::Normal);
    assert!(s.command_buffer.is_empty());

    let events = vec![
        Event::new("Team Sync".to_string(), dt(2026, 5, 2, 9, 0), dt(2026, 5, 2, 10, 0)),
        Event::new("Dentist".to_string(), dt(2026, 4, 1, 9, 0), dt(2026, 4, 1, 10, 0)),
        Event::new("team lunch".to_string(), dt(2026, 6, 1, 12, 0), dt(2026, 6, 1, 13, 0)),
    ];
    assert!(s.finish_search("team", Ok(events)));
    assert_eq!(s.cursor_date, date(2026, 5, 2));
    assert_eq!((s.year, s.month), (2026, 5));
    assert_eq!(s.status, "Found 2 event(s) matching 'team'");
    assert!(!s.finish_search("gym", Ok(Vec::new())));
    assert_eq!(s.status, "No events matching 'gym'");
    assert!(!s.finish_search("x", Err(EventStoreError::Io("denied".to_string()))));
    assert_eq!(s.status, "Search failed: I/O error: denied");
}

#[test]
fn edit_and_delete_selected_event() {
    let today = date(2026, 3, 10);
    let mut s = state(today);
    assert!(matches!(s.apply_action(Action::DeleteEvent, today), Request::Done));
    assert_eq!(s.status, "No event selected");
    let events = vec![
        Event::new("Other day".to_string(), dt(2026, 3, 11, 9, 0), dt(2026, 3, 11, 10, 0)),
        Event::new("Today".to_string(), dt(2026, 3, 10, 9, 0), dt(2026, 3, 10, 10, 0)),
    ];
    assert!(s.refresh_cache(Some(&events)));
    assert_eq!(s.cached_events.len(), 2);
    assert_eq!(s.selected_event_idx, 0);
    match s.apply_action(Action::DeleteEvent, today) {
        Request::Delete { title, .. } => assert_eq!(title, "Today"),
        _ => panic!("expected a delete request"),
    }
    assert!(s.finish_delete("Today", Ok(())));
    assert_eq!(s.status, "Deleted: Today");
    assert!(!s.finish_delete("Today", Err(EventStoreError::NotFound("x".to_string()))));
    assert_eq!(s.status, "Delete failed: event not found: x");
    s.apply_action(Action::EditEvent, today);
    assert_eq!(s.input_mode, InputMode::EventEditor);
    assert_eq!(s.editor.as_ref().unwrap().title, "Today");
    s.selected_event_idx = 1;
    s.editor = None;
    s.input_mode = InputMode::Normal;
    s.apply_action(Action::EditEvent, today);
    assert_eq!(s.status, "No event selected");
}

#[test]
fn visible_windows() {
    let today = date(2026, 3, 11);
    let mut s = state(today);
    // Month view: from a week before March 1 for 49 days.
    assert_eq!(s.visible_window(), Some((dt(2026, 2, 22, 0, 0), dt(2026, 4, 12, 0, 0))));
    s.apply_action(Action::WeekView, today);
    assert_eq!(s.visible_window(), Some((dt(2026, 3, 9, 0, 0), dt(2026, 3, 16, 0, 0))));
    s.apply_action(Action::DayView, today);
    assert_eq!(s.visible_window(), Some((dt(2026, 3, 11, 0, 0), dt(2026, 3, 12, 0, 0))));
    assert!(s.refresh_cache(None));
    assert!(s.cached_events.is_empty());
    let e = Event::new("In range".to_string(), dt(2026, 3, 11, 9, 0), dt(2026, 3, 11, 10, 0));
    let expected = query_range(&vec![e.copy()], dt(2026, 3, 11, 0, 0), dt(2026, 3, 12, 0, 0)).unwrap();
    assert!(s.refresh_cache(Some(&vec![e])));
    assert_eq!(s.cached_events.len(), expected.len());
}

#[test]
fn saved_event_returns_to_normal() {
    let today = date(2026, 3, 10);
    let mut s = state(today);
    s.apply_action(Action::AddEvent, today);
    let editor = match s.apply_action(Action::SaveEvent, today) {
        Request::Save(e) => e,
        _ => panic!("expected a save request"),
    };
    assert!(s.finish_save(editor, Ok("Created: X".to_string())));
    assert_eq!(s.status, "Created: X");
    assert_eq!(s.input_mode, InputMode::Normal);
    assert!(s.editor.is_none());
}

#[test]
fn goto_date_outcomes() {
    let today = date(2026, 3, 10);
    let mut s = state(today);
    assert!(matches!(s.goto_date(Ok(date(2030, 7, 4))), Request::Refresh));
    assert_eq!(s.cursor_date, date(2030, 7, 4));
    assert_eq!((s.year, s.month), (2030, 7));
    assert!(s.status.is_empty());
    assert!(matches!(s.goto_date(Err("input contains invalid characters".to_string())), Request::Done));
    assert_eq!(s.status, "Invalid date: input contains invalid characters");
    assert_eq!(s.cursor_date, date(2030, 7, 4));
}

#[test]
fn typing_then_erasing_restores_buffer() {
    let today = date(2026, 3, 10);
    let mut s = state(today);
    s.apply_action(Action::EnterCommand, today);
    s.apply_action(Action::TypeChar('g'), today);
    let before = s.command_buffer.clone();
    s.apply_action(Action::TypeChar('x'), today);
    s.apply_action(Action::Backspace, today);
    assert_eq!(s.command_buffer, before);
    // Erasing an empty buffer leaves it empty.
    s.apply_action(Action::Backspace, today);
    s.apply_action(Action::Backspace, today);
    assert!(s.command_buffer.is_empty());
    // In normal mode typing does nothing.
    s.apply_action(Action::CancelCommand, today);
    s.apply_action(Action::TypeChar('z'), today);
    assert!(s.command_buffer.is_empty());
    assert!(s.status.is_empty());
}

#[test]
fn next_then_prev_month_returns() {
    let today = date(2026, 12, 20);
    let mut s = state(today);
    s.apply_action(Action::NextMonth, today);
    assert_eq!((s.year, s.month), (2027, 1));
    s.apply_action(Action::PrevMonth, today);
    assert_eq!((s.year, s.month), (2026, 12));
    assert_eq!(s.cursor_date, date(2026, 12, 1));
}

#[test]
fn commands_trim_unicode_white_space() {
    let mut s = state(date(2026, 3, 10));
    s.execute_command("\u{3000} goto 2026-05-02 \u{a0}\t");
    assert_eq!(s.cursor_date, date(2026, 5, 2));
    assert!(matches!(s.execute_command("\u{2003}view week\u{85}"), Request::Refresh));
    assert_eq!(s.view_mode, ViewMode::Week);
}
