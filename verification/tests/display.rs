use koyomi::calendar::{ViewMode, WeekStart};
use koyomi::datetime::{Date, DateTime, Time};
use koyomi::display::{
    cell_title, column_label, events_on, header, more_label, status_line, view_label,
};
use koyomi::events::{query_range, Event, EventStore};
use koyomi::input::InputMode;
use koyomi::session::AppState;

fn date(y: i32, m: u32, d: u32) -> Date {
    Date::from_ymd(y, m, d).unwrap()
}

fn dt(year: i32, month: u32, day: u32, hour: u32, min: u32) -> DateTime {
    DateTime::new(date(year, month, day), Time::from_hms(hour, min, 0).unwrap())
}

fn state(today: Date) -> AppState {
    AppState::new(EventStore::at("/tmp/koyomi-test".to_string()), today, WeekStart::Monday, true, Vec::new())
}

#[test]
fn status_line_by_mode() {
    let mut s = state(date(2026, 3, 10));
    assert_eq!(status_line(&s), "2026-03-10  |  hjkl:nav  n/p:month  v:view  a:add  q:quit");
    s.status = "Saved: Lunch".to_string();
    assert_eq!(status_line(&s), "Saved: Lunch");
    s.input_mode = InputMode::EventEditor;
    assert_eq!(status_line(&s), "Tab:next field  Enter:save  Esc:cancel");
    s.input_mode = InputMode::Command;
    s.command_buffer = "goto 2026-04".to_string();
    assert_eq!(status_line(&s), ":goto 2026-04");
}

#[test]
fn view_labels() {
    assert_eq!(view_label(ViewMode::Month), "[Month]");
    assert_eq!(view_label(ViewMode::Week), "[Week]");
    assert_eq!(view_label(ViewMode::Day), "[Day]");
}

#[test]
fn day_cell_lists_events_starting_that_day() {
    let events = vec![
        Event::new("A".to_string(), dt(2026, 3, 10, 9, 0), dt(2026, 3, 10, 10, 0)),
        Event::new("B".to_string(), dt(2026, 3, 11, 9, 0), dt(2026, 3, 11, 10, 0)),
        Event::new("C".to_string(), dt(2026, 3, 10, 18, 0), dt(2026, 3, 10, 19, 0)),
    ];
    let occs = query_range(&events, dt(2026, 3, 1, 0, 0), dt(2026, 4, 1, 0, 0)).unwrap();
    let on_tenth = events_on(&occs, date(2026, 3, 10));
    assert_eq!(on_tenth.len(), 2);
    assert_eq!(occs[on_tenth[0]].event.title, "A");
    assert_eq!(occs[on_tenth[1]].event.title, "C");
    assert_eq!(events_on(&occs, date(2026, 3, 11)), vec![2]);
    assert!(events_on(&occs, date(2026, 3, 12)).is_empty());
}

#[test]
fn more_label_counts_hidden_events() {
    assert_eq!(more_label(1), "+1 more");
    assert_eq!(more_label(12), "+12 more");
}

#[test]
fn cell_titles_shorten_by_characters() {
    assert_eq!(cell_title("Lunch"), "Lunch");
    assert_eq!(cell_title("12345678"), "12345678");
    assert_eq!(cell_title("Quarterly planning"), "Quarterl...");
    assert_eq!(cell_title("会議の予定です"), "会議の予定です");
    assert_eq!(cell_title("月次の会議の予定です"), "月次の会議の予定...");
}

#[test]
fn header_by_view() {
    let mut s = state(date(2026, 3, 10));
    assert_eq!(header(&s), "March 2026");
    s.view_mode = ViewMode::Week;
    assert_eq!(header(&s), "Week of Mar 09 - Mar 15, 2026");
    s.view_mode = ViewMode::Day;
    assert_eq!(header(&s), "Tuesday, March 10, 2026");
}

#[test]
fn week_column_labels() {
    assert_eq!(column_label(date(2026, 3, 9)), "Mon 9");
    assert_eq!(column_label(date(2026, 3, 15)), "Sun 15");
}
