//! What the calendar window writes: the status line, the view label, and
//! which events a day cell of the month grid shows.

use vstd::prelude::*;

use crate::calendar::{
    month_name, month_name_spec, week_dates, week_fits, week_start_num, ViewMode,
};
use crate::datetime::{date_at, date_format_text, date_text, lemma_date_at, Date, DateFormat};
use crate::events::{views, EventOccurrence, OccurrenceView};
use crate::input::InputMode;
use crate::session::{AppState, AppView};
use crate::text::{fmt_decimal, fmt_usize, int_decimal, push_char};

verus! {

/// Key hints that follow the cursor date on an idle status line.
pub open spec fn normal_hints() -> Seq<char> {
    "  |  hjkl:nav  n/p:month  v:view  a:add  q:quit"@
}

/// Key hints of the status line while the event editor is open.
pub open spec fn editor_hints() -> Seq<char> {
    "Tab:next field  Enter:save  Esc:cancel"@
}

/// The status line: in normal mode the status message, or when there is
/// none the cursor date and the key hints; the editor's key hints; or the
/// command being typed after its colon.
pub open spec fn status_line_spec(
    mode: InputMode,
    status: Seq<char>,
    command: Seq<char>,
    cursor: Date,
) -> Seq<char> {
    match mode {
        InputMode::Normal => if status.len() == 0 {
            date_text(cursor) + normal_hints()
        } else {
            status
        },
        InputMode::EventEditor => editor_hints(),
        InputMode::Command => ":"@ + command,
    }
}

/// The text of the status bar.
pub fn status_line(state: &AppState) -> (r: String)
    requires
        state@.wf(),
    ensures
        r@ == status_line_spec(
            state@.input_mode,
            state@.status,
            state@.command_buffer,
            state@.cursor_date,
        ),
{
    match state.input_mode {
        InputMode::Normal => {
            if state.status.as_str().unicode_len() == 0 {
                let mut s = state.cursor_date.format_ymd();
                s.append("  |  hjkl:nav  n/p:month  v:view  a:add  q:quit");
                s
            } else {
                state.status.clone()
            }
        },
        InputMode::EventEditor => String::from_str("Tab:next field  Enter:save  Esc:cancel"),
        InputMode::Command => {
            let mut s = String::from_str(":");
            s.append(state.command_buffer.as_str());
            s
        },
    }
}

pub open spec fn view_label_spec(mode: ViewMode) -> Seq<char> {
    match mode {
        ViewMode::Month => "[Month]"@,
        ViewMode::Week => "[Week]"@,
        ViewMode::Day => "[Day]"@,
    }
}

/// The label naming the current view, shown at the right of the header.
pub fn view_label(mode: ViewMode) -> (r: &'static str)
    ensures
        r@ == view_label_spec(mode),
{
    match mode {
        ViewMode::Month => "[Month]",
        ViewMode::Week => "[Week]",
        ViewMode::Day => "[Day]",
    }
}

/// The header of the window: the month and year in the month view; the
/// first and last day of the cursor's week in the week view; the cursor's
/// weekday and full date in the day view.
pub open spec fn header_spec(state: AppView) -> Seq<char> {
    let first = week_start_num(state.cursor_date.num(), state.week_start);
    match state.view_mode {
        ViewMode::Month => month_name_spec(state.month as int) + " "@ + int_decimal(
            state.year as int,
        ),
        ViewMode::Week => "Week of "@ + date_format_text(date_at(first), DateFormat::MonthDay)
            + " - "@ + date_format_text(date_at(first + 6), DateFormat::MonthDayYear),
        ViewMode::Day => date_format_text(state.cursor_date, DateFormat::WeekdayMonthDayYear),
    }
}

/// The text of the header.
pub fn header(state: &AppState) -> (r: String)
    requires
        state@.wf(),
        state@.view_mode == ViewMode::Week ==> week_fits(state@.cursor_date, state@.week_start),
    ensures
        r@ == header_spec(state@),
{
    match state.view_mode {
        ViewMode::Month => {
            let mut s = String::from_str(month_name(state.month));
            s.append(" ");
            let y = fmt_decimal(state.year as i64);
            s.append(y.as_str());
            s
        },
        ViewMode::Week => {
            let dates = week_dates(state.cursor_date, state.week_start);
            let ghost first = week_start_num(state.cursor_date.num(), state.week_start);
            proof {
                lemma_date_at(dates@[0]);
                lemma_date_at(dates@[6]);
            }
            let a = dates[0].format(DateFormat::MonthDay);
            let b = dates[6].format(DateFormat::MonthDayYear);
            let mut s = String::from_str("Week of ");
            s.append(a.as_str());
            s.append(" - ");
            s.append(b.as_str());
            s
        },
        ViewMode::Day => state.cursor_date.format(DateFormat::WeekdayMonthDayYear),
    }
}

/// Label of a day column in the week view: abbreviated weekday and day of
/// the month, as in `Tue 10`.
pub open spec fn column_label_spec(d: Date) -> Seq<char> {
    date_format_text(d, DateFormat::WeekdayShort) + " "@ + int_decimal(d.day as int)
}

/// The label of a day column in the week view.
pub fn column_label(d: Date) -> (r: String)
    requires
        d.wf(),
    ensures
        r@ == column_label_spec(d),
{
    let mut s = d.format(DateFormat::WeekdayShort);
    s.append(" ");
    let n = fmt_decimal(d.day as i64);
    s.append(n.as_str());
    s
}

/// Positions, in order, of the occurrences that start on `date`.
pub open spec fn positions_on(s: Seq<OccurrenceView>, date: Date) -> Seq<int>
    decreases s.len(),
{
    if s.len() == 0 {
        seq![]
    } else if s.last().start.date == date {
        positions_on(s.drop_last(), date).push(s.len() - 1)
    } else {
        positions_on(s.drop_last(), date)
    }
}

/// Positions of the occurrences listed in a day cell: those starting on
/// `date`, in the order of `occurrences`.
pub fn events_on(occurrences: &Vec<EventOccurrence>, date: Date) -> (r: Vec<usize>)
    ensures
        r@.len() == positions_on(views(occurrences@), date).len(),
        forall|k: int|
            0 <= k < r@.len() ==> r@[k] as int == #[trigger] positions_on(
                views(occurrences@),
                date,
            )[k],
{
    let ghost all = views(occurrences@);
    let n = occurrences.len();
    let mut r: Vec<usize> = Vec::new();
    let mut i: usize = 0;
    while i < n
        invariant
            n == occurrences@.len(),
            all == views(occurrences@),
            all.len() == n,
            i <= n,
            r@.len() == positions_on(all.take(i as int), date).len(),
            forall|k: int|
                0 <= k < r@.len() ==> r@[k] as int == #[trigger] positions_on(
                    all.take(i as int),
                    date,
                )[k],
        decreases n - i,
    {
        let ghost before = all.take(i as int);
        let ghost after = all.take(i + 1);
        assert(after.drop_last() == before);
        assert(after.last() == all[i as int]);
        assert(all[i as int] == occurrences@[i as int]@);
        if occurrences[i].occurrence_start.date == date {
            r.push(i);
        }
        i += 1;
    }
    assert(all.take(n as int) == all);
    r
}

/// A title as a month cell shows it: its first eight characters followed by
/// `...` when it is longer than eight characters, else whole.
pub open spec fn cell_title_spec(title: Seq<char>) -> Seq<char> {
    if title.len() > 8 {
        title.take(8) + "..."@
    } else {
        title
    }
}

/// The title shown in a month cell, shortened by characters.
pub fn cell_title(title: &str) -> (r: String)
    ensures
        r@ == cell_title_spec(title@),
{
    let n = title.unicode_len();
    if n <= 8 {
        return String::from_str(title);
    }
    let mut r = String::new();
    let mut i: usize = 0;
    while i < 8
        invariant
            n == title@.len(),
            n > 8,
            i <= 8,
            r@ == title@.take(i as int),
        decreases 8 - i,
    {
        push_char(&mut r, title.get_char(i));
        assert(title@.take(i + 1) == title@.take(i as int).push(title@[i as int]));
        i += 1;
    }
    r.append("...");
    r
}

/// The note under a day cell's listed events: how many more there are.
pub fn more_label(hidden: usize) -> (r: String)
    ensures
        r@ == "+"@ + int_decimal(hidden as int) + " more"@,
{
    let mut s = String::from_str("+");
    let digits = fmt_usize(hidden);
    s.append(digits.as_str());
    s.append(" more");
    s
}

} // verus!
