use koyomi::calendar::{
    event_color_index, fits_week, grid_fits, hour_labels, last_day_of_month, month_grid, month_name, next_month, prev_month, week_dates,
    weekday_headers, ViewMode, WeekStart,
};
use koyomi::datetime::{Date, Weekday};

fn date(y: i32, m: u32, d: u32) -> Date {
    Date::from_ymd(y, m, d).unwrap()
}

#[test]
fn month_grid_has_correct_structure() {
    let grid = month_grid(2026, 3, WeekStart::Monday);
    assert!(!grid.is_empty());
    for week in &grid {
        assert_eq!(week.len(), 7);
    }
}

#[test]
fn month_grid_starts_on_correct_day() {
    let grid = month_grid(2026, 3, WeekStart::Monday);
    assert_eq!(grid[0][0].date.weekday(), Weekday::Mon);

    let grid_sun = month_grid(2026, 3, WeekStart::Sunday);
    assert_eq!(grid_sun[0][0].date.weekday(), Weekday::Sun);
}

#[test]
fn month_grid_contains_first_and_last() {
    let grid = month_grid(2026, 3, WeekStart::Monday);
    let all_dates: Vec<Date> = grid.iter().flatten().map(|c| c.date).collect();
    let first = date(2026, 3, 1);
    let last = date(2026, 3, 31);
    assert!(all_dates.contains(&first));
    assert!(all_dates.contains(&last));
}

#[test]
fn last_day_of_month_february_leap() {
    let d = last_day_of_month(2024, 2);
    assert_eq!(d.day, 29);
}

#[test]
fn last_day_of_month_february_normal() {
    let d = last_day_of_month(2025, 2);
    assert_eq!(d.day, 28);
}

#[test]
fn last_day_of_month_december() {
    let d = last_day_of_month(2026, 12);
    assert_eq!(d.day, 31);
}

#[test]
fn week_dates_returns_seven() {
    let d = date(2026, 3, 9);
    let dates = week_dates(d, WeekStart::Monday);
    assert_eq!(dates.len(), 7);
    assert_eq!(dates[0].weekday(), Weekday::Mon);
}

#[test]
fn prev_next_month_navigation() {
    assert_eq!(prev_month(2026, 1), (2025, 12));
    assert_eq!(prev_month(2026, 6), (2026, 5));
    assert_eq!(next_month(2026, 12), (2027, 1));
    assert_eq!(next_month(2026, 6), (2026, 7));
}

#[test]
fn weekday_headers_correct_length() {
    assert_eq!(weekday_headers(WeekStart::Monday).len(), 7);
    assert_eq!(weekday_headers(WeekStart::Sunday).len(), 7);
    assert_eq!(weekday_headers(WeekStart::Monday)[0], "Mon");
    assert_eq!(weekday_headers(WeekStart::Sunday)[0], "Sun");
}

#[test]
fn hour_labels_24h() {
    let labels = hour_labels(true);
    assert_eq!(labels.len(), 24);
    assert_eq!(labels[0], "00:00");
    assert_eq!(labels[23], "23:00");
}

#[test]
fn hour_labels_12h() {
    let labels = hour_labels(false);
    assert_eq!(labels.len(), 24);
    assert_eq!(labels[0], "12:00 AM");
    assert_eq!(labels[12], "12:00 PM");
    assert_eq!(labels[13], "1:00 PM");
}

#[test]
fn view_mode_cycle() {
    assert_eq!(ViewMode::Month.next(), ViewMode::Week);
    assert_eq!(ViewMode::Week.next(), ViewMode::Day);
    assert_eq!(ViewMode::Day.next(), ViewMode::Month);
}

#[test]
fn view_mode_returns_after_three_steps() {
    for v in [ViewMode::Month, ViewMode::Week, ViewMode::Day] {
        assert_eq!(v.next().next().next(), v);
        assert_ne!(v.next(), v);
    }
}

#[test]
fn month_navigation_round_trip() {
    for (y, m) in [(2026, 1), (2026, 6), (2026, 12), (1999, 12)] {
        let (ny, nm) = next_month(y, m);
        assert_eq!(prev_month(ny, nm), (y, m));
        let (py, pm) = prev_month(y, m);
        assert_eq!(next_month(py, pm), (y, m));
    }
}

#[test]
fn week_start_parsing() {
    assert_eq!(WeekStart::from_str("sunday"), WeekStart::Sunday);
    assert_eq!(WeekStart::from_str("SUNDAY"), WeekStart::Sunday);
    assert_eq!(WeekStart::from_str("monday"), WeekStart::Monday);
    assert_eq!(WeekStart::from_str("anything"), WeekStart::Monday);
    assert_eq!(WeekStart::Sunday.weekday(), Weekday::Sun);
    assert_eq!(WeekStart::Monday.weekday(), Weekday::Mon);
}

#[test]
fn month_names() {
    assert_eq!(month_name(1), "January");
    assert_eq!(month_name(12), "December");
    assert_eq!(month_name(0), "Unknown");
    assert_eq!(month_name(13), "Unknown");
}

#[test]
fn sunday_week_dates() {
    let dates = week_dates(date(2026, 3, 11), WeekStart::Sunday);
    assert_eq!(dates[0], date(2026, 3, 8));
    assert_eq!(dates[6], date(2026, 3, 14));
    assert_eq!(dates[0].weekday(), Weekday::Sun);
}

#[test]
fn month_grid_marks_current_month() {
    let grid = month_grid(2026, 3, WeekStart::Monday);
    // 2026-03-01 is a Sunday: the grid opens on Monday 2026-02-23.
    assert_eq!(grid[0][0].date, date(2026, 2, 23));
    assert!(!grid[0][0].in_current_month);
    assert!(grid[0][6].in_current_month);
    assert_eq!(grid.len(), 6);
}

#[test]
fn last_day_of_month_century_rules() {
    assert_eq!(last_day_of_month(1900, 2).day, 28);
    assert_eq!(last_day_of_month(2000, 2).day, 29);
    assert_eq!(last_day_of_month(2026, 4).day, 30);
}

#[test]
fn event_color_deterministic() {
    let c1 = event_color_index("work", 5);
    let c2 = event_color_index("work", 5);
    assert_eq!(c1, c2);
}

#[test]
fn event_color_varies_by_calendar() {
    let c1 = event_color_index("work", 5);
    let c2 = event_color_index("personal", 5);
    // Each name picks one of the palette's colors.
    assert!(c1 < 5);
    assert!(c2 < 5);
    // Byte sums 451 and 868.
    assert_eq!(c1, 1);
    assert_eq!(c2, 3);
}

#[test]
fn grid_and_week_ranges() {
    assert!(grid_fits(2026, 3, WeekStart::Monday));
    assert!(!grid_fits(2026, 13, WeekStart::Monday));
    assert!(!grid_fits(2026, 0, WeekStart::Sunday));
    assert!(!grid_fits(262142, 12, WeekStart::Monday));
    assert!(fits_week(date(2026, 3, 11), WeekStart::Sunday));
    // The earliest supported date is a Monday-started week's first day only
    // if it falls on that weekday; the week before it never fits.
    let earliest = date(-262143, 1, 1);
    assert_eq!(fits_week(earliest, WeekStart::Monday), earliest.weekday() == Weekday::Mon);
}

#[test]
fn last_day_of_month_zero_is_previous_december() {
    assert_eq!(last_day_of_month(2026, 0), date(2025, 12, 31));
    assert_eq!(last_day_of_month(2025, 1), date(2025, 1, 31));
}
