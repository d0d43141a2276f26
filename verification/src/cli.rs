//! The computing parts of the command-line commands: reading date-times,
//! building a new event, and the week a listing covers.

use vstd::prelude::*;

use crate::text::push_char;

use crate::calendar::{week_start_date, week_start_num, WeekStart};
use crate::datetime::{
    date_at, date_format_text, date_text, day_in_range, hm_text, lemma_date_at, parsed_datetime,
    time_format_text, Date, DateFormat, DateTime, Time, TimeFormat,
};
use crate::events::{
    day_start, is_hyphenated_uuid, opt_string_view, Event, EventOccurrence, EventView,
    OccurrenceView,
};

verus! {

/// The date-time a command-line argument gives: read as `YYYY-MM-DDTHH:MM`,
/// or else as `YYYY-MM-DDTHH:MM:SS`; `None` when neither reads.
pub open spec fn cli_datetime(s: Seq<char>) -> Option<DateTime> {
    match parsed_datetime(s, "%Y-%m-%dT%H:%M"@) {
        Ok(x) => Some(x),
        Err(_) => match parsed_datetime(s, "%Y-%m-%dT%H:%M:%S"@) {
            Ok(x) => Some(x),
            Err(_) => None,
        },
    }
}

/// Read a date-time argument.
pub fn parse_datetime(s: &str) -> (r: Option<DateTime>)
    ensures
        r == cli_datetime(s@),
{
    match DateTime::parse(s, "%Y-%m-%dT%H:%M") {
        Ok(x) => Some(x),
        Err(_) => match DateTime::parse(s, "%Y-%m-%dT%H:%M:%S") {
            Ok(x) => Some(x),
            Err(_) => None,
        },
    }
}

/// The event the `add` command creates: a fresh id, the given title, times,
/// location and calendar, and one reminder at the configured default.
pub fn new_event(
    title: &str,
    start: DateTime,
    end: DateTime,
    location: Option<String>,
    calendar: &str,
    reminder_mins: i32,
) -> (r: Event)
    ensures
        is_hyphenated_uuid(r@.id),
        r@ == (EventView {
            id: r@.id,
            title: title@,
            description: None,
            start,
            end,
            location: opt_string_view(location),
            calendar: calendar@,
            color: None,
            reminders: seq![reminder_mins],
            recurrence: None,
        }),
{
    let mut event = Event::new(String::from_str(title), start, end);
    event.location = location;
    event.calendar = String::from_str(calendar);
    let mut reminders: Vec<i32> = Vec::new();
    reminders.push(reminder_mins);
    event.reminders = reminders;
    assert(event@.reminders =~= seq![reminder_mins]);
    event
}

/// The window a week listing covers: from midnight on the first day of the
/// week holding `date` to midnight after its seventh day. `None` when it
/// leaves the supported dates.
pub open spec fn week_window_spec(date: Date, ws: WeekStart) -> Option<(DateTime, DateTime)> {
    let w = week_start_num(date.num(), ws);
    if day_in_range(w) && day_in_range(w + 7) {
        Some((day_start(date_at(w)), day_start(date_at(w + 7))))
    } else {
        None
    }
}

/// The window of the week holding `date`.
pub fn week_window(date: Date, week_start: WeekStart) -> (r: Option<(DateTime, DateTime)>)
    requires
        date.wf(),
    ensures
        r == week_window_spec(date, week_start),
        r matches Some(w) ==> w.0.wf() && w.1.wf(),
{
    let midnight = Time::midnight();
    match week_start_date(date, week_start) {
        Some(s) => match s.checked_add_days(7) {
            Some(e) => {
                proof {
                    lemma_date_at(s);
                    lemma_date_at(e);
                }
                Some((DateTime::new(s, midnight), DateTime::new(e, midnight)))
            },
            None => None,
        },
        None => None,
    }
}

/// The time layout of the configured clock.
pub open spec fn clock_layout(use_24h: bool) -> TimeFormat {
    if use_24h {
        TimeFormat::Hour24
    } else {
        TimeFormat::Hour12
    }
}

/// A listed occurrence: `<indent><start> - <end> | <title> [<calendar>]`,
/// the times on the configured clock.
pub open spec fn occurrence_line_spec(o: OccurrenceView, use_24h: bool, indent: Seq<char>) -> Seq<
    char,
> {
    let f = clock_layout(use_24h);
    indent + time_format_text(o.start.time, f) + " - "@ + time_format_text(o.end.time, f) + " | "@
        + o.event.title + " ["@ + o.event.calendar + "]"@
}

/// The line that lists an occurrence.
pub fn occurrence_line(occ: &EventOccurrence, use_24h: bool, indent: &str) -> (r: String)
    requires
        occ@.start.wf(),
        occ@.end.wf(),
    ensures
        r@ == occurrence_line_spec(occ@, use_24h, indent@),
{
    let f = if use_24h {
        TimeFormat::Hour24
    } else {
        TimeFormat::Hour12
    };
    let mut s = String::from_str(indent);
    let start = occ.occurrence_start.time.format(f);
    let end = occ.occurrence_end.time.format(f);
    s.append(start.as_str());
    s.append(" - ");
    s.append(end.as_str());
    s.append(" | ");
    s.append(occ.event.title.as_str());
    s.append(" [");
    s.append(occ.event.calendar.as_str());
    s.append("]");
    s
}

/// Heading of the week listing, from the first and last day of the week.
pub open spec fn week_heading_spec(first: Date, last: Date, empty: bool) -> Seq<char> {
    if empty {
        "No events this week ("@ + date_format_text(first, DateFormat::MonthDay) + " - "@
            + date_format_text(last, DateFormat::MonthDay) + ")."@
    } else {
        "Events for week of "@ + date_format_text(first, DateFormat::MonthDay) + " - "@
            + date_format_text(last, DateFormat::MonthDayYear) + ":"@
    }
}

/// The heading of the week listing; `empty` when no event falls in the week.
pub fn week_heading(first: Date, last: Date, empty: bool) -> (r: String)
    requires
        first.wf(),
        last.wf(),
    ensures
        r@ == week_heading_spec(first, last, empty),
{
    let a = first.format(DateFormat::MonthDay);
    let mut s = if empty {
        String::from_str("No events this week (")
    } else {
        String::from_str("Events for week of ")
    };
    s.append(a.as_str());
    s.append(" - ");
    if empty {
        let b = last.format(DateFormat::MonthDay);
        s.append(b.as_str());
        s.append(").");
    } else {
        let b = last.format(DateFormat::MonthDayYear);
        s.append(b.as_str());
        s.append(":");
    }
    s
}

/// The line that opens a day within the week listing: a blank line, then
/// the weekday and date, indented.
pub open spec fn listing_day_heading_spec(d: Date) -> Seq<char> {
    "\n  "@ + date_format_text(d, DateFormat::WeekdayMonthDay) + ":"@
}

/// The line that opens a day within the week listing.
pub fn listing_day_heading(d: Date) -> (r: String)
    requires
        d.wf(),
    ensures
        r@ == listing_day_heading_spec(d),
{
    let mut s = String::from_str("\n  ");
    let t = d.format(DateFormat::WeekdayMonthDay);
    s.append(t.as_str());
    s.append(":");
    s
}

/// Heading of today's listing.
pub open spec fn today_heading_spec(d: Date, empty: bool) -> Seq<char> {
    if empty {
        "No events today ("@ + date_format_text(d, DateFormat::WeekdayMonthDay) + ")."@
    } else {
        "Events for "@ + date_format_text(d, DateFormat::WeekdayMonthDay) + " ("@ + date_text(d)
            + "):"@
    }
}

/// The heading of today's listing; `empty` when no event falls on the day.
pub fn today_heading(d: Date, empty: bool) -> (r: String)
    requires
        d.wf(),
    ensures
        r@ == today_heading_spec(d, empty),
{
    let long = d.format(DateFormat::WeekdayMonthDay);
    if empty {
        let mut s = String::from_str("No events today (");
        s.append(long.as_str());
        s.append(").");
        s
    } else {
        let mut s = String::from_str("Events for ");
        s.append(long.as_str());
        s.append(" (");
        let iso = d.format_ymd();
        s.append(iso.as_str());
        s.append("):");
        s
    }
}

/// When an event runs, as the `add` and `list` commands write it:
/// `YYYY-MM-DD HH:MM - HH:MM`.
pub open spec fn span_text_spec(start: DateTime, end: DateTime) -> Seq<char> {
    date_text(start.date) + " "@ + hm_text(start.time) + " - "@ + hm_text(end.time)
}

/// The text of when an event runs.
pub fn span_text(start: DateTime, end: DateTime) -> (r: String)
    requires
        start.wf(),
        end.wf(),
    ensures
        r@ == span_text_spec(start, end),
{
    let mut s = start.date.format_ymd();
    s.append(" ");
    let a = start.time.format_hm();
    s.append(a.as_str());
    s.append(" - ");
    let b = end.time.format_hm();
    s.append(b.as_str());
    s
}

/// A stored event as the `list` command writes it: the first eight
/// characters of its id, its title, when it runs, its calendar, and a mark
/// for a recurring event.
pub open spec fn list_line_spec(e: EventView) -> Seq<char> {
    "  ["@ + e.id.take(8) + "] "@ + e.title + " | "@ + span_text_spec(e.start, e.end) + " ["@
        + e.calendar + "]"@ + (if e.recurrence is Some {
        " (recurring)"@
    } else {
        ""@
    })
}

/// The line that lists a stored event; its id has at least eight characters.
pub fn list_line(event: &Event) -> (r: String)
    requires
        event@.wf(),
        event@.id.len() >= 8,
    ensures
        r@ == list_line_spec(event@),
{
    let mut s = String::from_str("  [");
    let mut i: usize = 0;
    while i < 8
        invariant
            event@.id.len() >= 8,
            i <= 8,
            s@ == "  ["@ + event@.id.take(i as int),
        decreases 8 - i,
    {
        push_char(&mut s, event.id.as_str().get_char(i));
        assert(event@.id.take(i + 1) == event@.id.take(i as int).push(event@.id[i as int]));
        i += 1;
    }
    s.append("] ");
    s.append(event.title.as_str());
    s.append(" | ");
    let span = span_text(event.start, event.end);
    s.append(span.as_str());
    s.append(" [");
    s.append(event.calendar.as_str());
    s.append("]");
    if event.recurrence.is_some() {
        s.append(" (recurring)");
    } else {
        proof {
            reveal_strlit("");
        }
        assert(s@ =~= s@ + ""@);
    }
    assert(event@.id == event.id@ && event@.title == event.title@ && event@.calendar
        == event.calendar@);
    s
}

} // verus!
