use koyomi::cli::{new_event, parse_datetime, week_window};
use koyomi::calendar::WeekStart;
use koyomi::config::{is_24h, DaemonConfig, NotificationConfig, SyncConfig};
use koyomi::datetime::{Date, DateTime, Time};
use koyomi::platform::{CalendarBackend, CalendarEvent, MacOSCalendarBackend};
use koyomi::scripting::{hook_name, hook_script, ScriptEvent};
use koyomi::text::contains_str;

fn dt(year: i32, month: u32, day: u32, hour: u32, min: u32) -> DateTime {
    DateTime::new(Date::from_ymd(year, month, day).unwrap(), Time::from_hms(hour, min, 0).unwrap())
}

#[test]
fn config_defaults() {
    let n = NotificationConfig::default();
    assert!(n.enabled && n.sound);
    assert_eq!(n.default_reminder_mins, 15);
    let s = SyncConfig::default();
    assert_eq!(s.interval_secs, 300);
    assert!(!s.offline_mode);
    let d = DaemonConfig::default();
    assert!(!d.enable);
    assert_eq!(d.listen_addr, "0.0.0.0:50052");
    assert_eq!(d.database_url, "sqlite:///tmp/kodate/state.db");
    assert!(is_24h("24h"));
    assert!(!is_24h("12h"));
}

#[test]
fn macos_backend_is_empty() {
    let b = MacOSCalendarBackend::new();
    let ev = CalendarEvent {
        id: "1".to_string(),
        title: "t".to_string(),
        description: None,
        start: dt(2026, 3, 10, 9, 0),
        end: dt(2026, 3, 10, 10, 0),
        location: None,
        calendar: "default".to_string(),
        reminders: vec![],
    };
    assert!(b.list_events(ev.start, ev.end).unwrap().is_empty());
    assert_eq!(b.create_event(&ev).unwrap(), "");
    assert!(b.update_event("1", &ev).is_ok());
    assert!(b.delete_event("1").is_ok());
}

#[test]
fn script_hooks() {
    assert_eq!(hook_name(&ScriptEvent::OnStart), "on_start");
    assert_eq!(hook_name(&ScriptEvent::OnQuit), "on_quit");
    assert_eq!(hook_script(&ScriptEvent::OnStart), "if is_def_fn(\"on_start\", 0) { on_start(); }");
    assert_eq!(
        hook_script(&ScriptEvent::OnKey("j".to_string())),
        "if is_def_fn(\"on_key\", 1) { on_key(\"j\"); }"
    );
}

#[test]
fn hook_script_escapes_the_key() {
    let key = "\"); } koyomi_navigate(\"2026-01-01\"); {(\"";
    assert_eq!(
        hook_script(&ScriptEvent::OnKey(key.to_string())),
        "if is_def_fn(\"on_key\", 1) { on_key(\"\\\"); } koyomi_navigate(\\\"2026-01-01\\\"); {(\\\"\"); }"
    );
    assert_eq!(
        hook_script(&ScriptEvent::OnKey("a\\b\n\t\r\u{1}".to_string())),
        "if is_def_fn(\"on_key\", 1) { on_key(\"a\\\\b\\n\\t\\r\\x01\"); }"
    );
}

#[test]
fn cli_datetime_formats() {
    assert_eq!(parse_datetime("2026-03-10T09:30"), Some(dt(2026, 3, 10, 9, 30)));
    let with_secs = parse_datetime("2026-03-10T09:30:15").unwrap();
    assert_eq!(with_secs.time.secs, 9 * 3600 + 30 * 60 + 15);
    assert_eq!(parse_datetime("2026-03-10 09:30"), None);
    assert_eq!(parse_datetime("tomorrow"), None);
}

#[test]
fn cli_new_event() {
    let e = new_event("Call", dt(2026, 3, 10, 9, 0), dt(2026, 3, 10, 9, 15), Some("Phone".to_string()), "work", 15);
    assert_eq!(e.title, "Call");
    assert_eq!(e.calendar, "work");
    assert_eq!(e.location.as_deref(), Some("Phone"));
    assert_eq!(e.reminders, vec![15]);
    assert_eq!(e.id.len(), 36);
}

#[test]
fn cli_week_window() {
    let d = Date::from_ymd(2026, 3, 11).unwrap();
    assert_eq!(week_window(d, WeekStart::Monday), Some((dt(2026, 3, 9, 0, 0), dt(2026, 3, 16, 0, 0))));
    assert_eq!(week_window(d, WeekStart::Sunday), Some((dt(2026, 3, 8, 0, 0), dt(2026, 3, 15, 0, 0))));
}

#[test]
fn text_search() {
    assert!(contains_str("hello world", "lo w"));
    assert!(!contains_str("hello", "world"));
    assert!(contains_str("abc", ""));
    assert!(!contains_str("", "a"));
}

#[test]
fn date_text_forms() {
    assert_eq!(Date::from_ymd(2026, 3, 1).unwrap().format_ymd(), "2026-03-01");
    assert_eq!(Date::from_ymd(987, 12, 31).unwrap().format_ymd(), "0987-12-31");
    assert_eq!(Date::from_ymd(12345, 1, 2).unwrap().format_ymd(), "+12345-01-02");
    assert_eq!(Date::from_ymd(-44, 3, 15).unwrap().format_ymd(), "-0044-03-15");
    assert_eq!(Time::from_hms(7, 5, 59).unwrap().format_hm(), "07:05");
    assert_eq!(Date::parse("2026-02-29", "%Y-%m-%d").is_err(), true);
    assert_eq!(Date::parse("2024-02-29", "%Y-%m-%d").ok(), Date::from_ymd(2024, 2, 29));
}
