//! The interactive calendar session: the state the views show and how each
//! keyboard action changes it.
//!
//! An action changes the state and may ask the caller for outside work
//! (a `Request`): reloading the cached events of the visible range, deleting
//! or saving an event, or searching the stored events. The caller does that
//! work against the event store and hands the outcome back through the
//! `finish_*` and `refresh_cache` methods.

use vstd::prelude::*;

use crate::calendar::{next_month, prev_month, ViewMode, WeekStart};
use crate::cli::{week_window, week_window_spec};
use crate::datetime::{
    date_at, date_result_view, day_in_range, day_number, lemma_date_at, lemma_valid_in_range,
    parsed_date, valid_ymd, Date, DateTime, Time, MAX_YEAR, MIN_YEAR,
};
use crate::editor::{editor_view_of, new_editor_view, EditorState, EditorView};
use crate::events::{
    all_events_wf, all_occurrences, day_start, error_text, event_expandable, query_range, views,
    Event, EventOccurrence, EventStore, EventStoreError, EventView, OccurrenceView,
};
use crate::input::{Action, InputMode};
use crate::seqs::{keep, lemma_keep_prefix, lemma_keep_step};
use crate::text::{
    concat, contains_seq, contains_str, fmt_usize, int_decimal, lowercase, pop_char, push_char,
    str_lowercase, str_trim, trim,
};

verus! {

/// Shared application state for the event handler and the renderer.
pub struct AppState {
    /// Current view mode.
    pub view_mode: ViewMode,
    /// Currently focused date.
    pub cursor_date: Date,
    /// Current year being displayed.
    pub year: i32,
    /// Current month being displayed (1-12).
    pub month: u32,
    /// Week start preference.
    pub week_start: WeekStart,
    /// Whether to use 24h time format.
    pub use_24h: bool,
    /// Input mode.
    pub input_mode: InputMode,
    /// Event store.
    pub store: EventStore,
    /// Status message (shown at bottom).
    pub status: String,
    /// Command input buffer (for : mode).
    pub command_buffer: String,
    /// Event editor state.
    pub editor: Option<EditorState>,
    /// Selected time slot (hour 0-23) for week/day views.
    pub selected_hour: u8,
    /// Selected event index in the current day's events.
    pub selected_event_idx: usize,
    /// Cached events for the current view (refreshed on navigation).
    pub cached_events: Vec<EventOccurrence>,
    /// Whether the cache needs refreshing.
    pub cache_dirty: bool,
}

/// What the session state is.
pub struct AppView {
    pub view_mode: ViewMode,
    pub cursor_date: Date,
    pub year: i32,
    pub month: u32,
    pub week_start: WeekStart,
    pub use_24h: bool,
    pub input_mode: InputMode,
    pub store_dir: Seq<char>,
    pub status: Seq<char>,
    pub command_buffer: Seq<char>,
    pub editor: Option<EditorView>,
    pub selected_hour: u8,
    pub selected_event_idx: usize,
    pub cached_events: Seq<OccurrenceView>,
    pub cache_dirty: bool,
}

pub open spec fn editor_opt_view(e: Option<EditorState>) -> Option<EditorView> {
    match e {
        Some(x) => Some(x@),
        None => None,
    }
}

impl View for AppState {
    type V = AppView;

    open spec fn view(&self) -> AppView {
        AppView {
            view_mode: self.view_mode,
            cursor_date: self.cursor_date,
            year: self.year,
            month: self.month,
            week_start: self.week_start,
            use_24h: self.use_24h,
            input_mode: self.input_mode,
            store_dir: self.store.dir(),
            status: self.status@,
            command_buffer: self.command_buffer@,
            editor: editor_opt_view(self.editor),
            selected_hour: self.selected_hour,
            selected_event_idx: self.selected_event_idx,
            cached_events: views(self.cached_events@),
            cache_dirty: self.cache_dirty,
        }
    }
}

impl AppView {
    /// The cursor is a valid date, the displayed month a valid month, the
    /// selected hour an hour of the day, and the cached events well formed.
    pub open spec fn wf(self) -> bool {
        &&& self.cursor_date.wf()
        &&& MIN_YEAR <= self.year <= MAX_YEAR
        &&& 1 <= self.month <= 12
        &&& self.selected_hour <= 23
        &&& forall|i: int|
            0 <= i < self.cached_events.len() ==> (#[trigger] self.cached_events[i]).event.wf()
                && self.cached_events[i].start.wf()
    }
}

/// What an action asks of the caller once the state has changed.
pub enum Request {
    /// The key did nothing; the event is not consumed.
    Ignore,
    /// Quit the application.
    Quit,
    /// Nothing more to do.
    Done,
    /// Reload the cached events of the visible range (`refresh_cache`).
    Refresh,
    /// The action would move the calendar outside the supported dates.
    OutOfRange,
    /// Delete the event `id` (titled `title`) from the store (`finish_delete`).
    Delete { id: String, title: String },
    /// Save the editor's event to the store (`finish_save`).
    Save(EditorState),
    /// Search the stored events for titles holding the query (`finish_search`).
    Search(String),
}

pub enum RequestView {
    Ignore,
    Quit,
    Done,
    Refresh,
    OutOfRange,
    Delete(Seq<char>, Seq<char>),
    Save(EditorView),
    Search(Seq<char>),
}

impl View for Request {
    type V = RequestView;

    open spec fn view(&self) -> RequestView {
        match self {
            Request::Ignore => RequestView::Ignore,
            Request::Quit => RequestView::Quit,
            Request::Done => RequestView::Done,
            Request::Refresh => RequestView::Refresh,
            Request::OutOfRange => RequestView::OutOfRange,
            Request::Delete { id, title } => RequestView::Delete(id@, title@),
            Request::Save(e) => RequestView::Save(e@),
            Request::Search(q) => RequestView::Search(q@),
        }
    }
}

// ---------------------------------------------------------------------------
// The transition function
// ---------------------------------------------------------------------------

/// After the cursor moved in month view: follow it to its month, reloading
/// the events when the month changed.
pub open spec fn follow_cursor(s: AppView) -> (AppView, RequestView) {
    if s.cursor_date.year != s.year || s.cursor_date.month != s.month {
        (AppView { year: s.cursor_date.year, month: s.cursor_date.month, ..s }, RequestView::Refresh)
    } else {
        (s, RequestView::Done)
    }
}

/// Move the cursor `n` days in month view.
pub open spec fn month_move(s: AppView, n: int) -> (AppView, RequestView) {
    let c = s.cursor_date.num() + n;
    if day_in_range(c) {
        follow_cursor(AppView { cursor_date: date_at(c), ..s })
    } else {
        (s, RequestView::OutOfRange)
    }
}

/// Move the cursor `n` days, then ask for `then`.
pub open spec fn plain_move(s: AppView, n: int, then: RequestView) -> (AppView, RequestView) {
    let c = s.cursor_date.num() + n;
    if day_in_range(c) {
        (AppView { cursor_date: date_at(c), ..s }, then)
    } else {
        (s, RequestView::OutOfRange)
    }
}

/// Show month `(y, m)` with the cursor on its first day.
pub open spec fn month_jump(s: AppView, y: int, m: int) -> (AppView, RequestView) {
    if valid_ymd(y, m, 1) {
        (
            AppView {
                year: y as i32,
                month: m as u32,
                cursor_date: Date { year: y as i32, month: m as u32, day: 1 },
                ..s
            },
            RequestView::Refresh,
        )
    } else {
        (s, RequestView::OutOfRange)
    }
}

pub open spec fn prev_ym(y: int, m: int) -> (int, int) {
    if m == 1 {
        (y - 1, 12)
    } else {
        (y, m - 1)
    }
}

pub open spec fn next_ym(y: int, m: int) -> (int, int) {
    if m == 12 {
        (y + 1, 1)
    } else {
        (y, m + 1)
    }
}

/// The cached occurrences that start on the cursor's day.
pub open spec fn day_events(s: AppView) -> Seq<OccurrenceView> {
    keep(s.cached_events, |o: OccurrenceView| o.start.date == s.cursor_date)
}

/// The selected occurrence of the cursor's day, if the index points at one.
pub open spec fn selected(s: AppView) -> Option<OccurrenceView> {
    if s.selected_event_idx < day_events(s).len() {
        Some(day_events(s)[s.selected_event_idx as int])
    } else {
        None
    }
}

pub open spec fn pop_text(t: Seq<char>) -> Seq<char> {
    if t.len() > 0 {
        t.drop_last()
    } else {
        t
    }
}

/// Type `c`: into the editor's active field in editor mode, into the
/// command buffer in command mode.
pub open spec fn type_char(s: AppView, c: char) -> AppView {
    if s.input_mode == InputMode::EventEditor {
        match s.editor {
            Some(e) => AppView {
                editor: Some(e.with_value(e.active_field, e.value_of(e.active_field).push(c))),
                ..s
            },
            None => s,
        }
    } else if s.input_mode == InputMode::Command {
        AppView { command_buffer: s.command_buffer.push(c), ..s }
    } else {
        s
    }
}

/// Erase the last character, as `type_char` would have typed it.
pub open spec fn backspace(s: AppView) -> AppView {
    if s.input_mode == InputMode::EventEditor {
        match s.editor {
            Some(e) => AppView {
                editor: Some(e.with_value(e.active_field, pop_text(e.value_of(e.active_field)))),
                ..s
            },
            None => s,
        }
    } else if s.input_mode == InputMode::Command {
        AppView { command_buffer: pop_text(s.command_buffer), ..s }
    } else {
        s
    }
}

/// Where the first word of `s` from position `i` on ends: the first space
/// at or after `i`, or the end.
pub open spec fn word_end(s: Seq<char>, i: int) -> int
    decreases s.len() - i,
{
    if i < 0 || i >= s.len() {
        s.len() as int
    } else if s[i] == ' ' {
        i
    } else {
        word_end(s, i + 1)
    }
}

/// The first word of a command and the rest after the first space, if any
/// (as `splitn(2, ' ')` on the trimmed command).
pub open spec fn command_parts(cmd: Seq<char>) -> (Seq<char>, Option<Seq<char>>) {
    let t = str_trim(cmd);
    let k = word_end(t, 0);
    (t.subrange(0, k), if k < t.len() {
        Some(t.subrange(k + 1, t.len() as int))
    } else {
        None
    })
}

pub open spec fn with_status(s: AppView, msg: Seq<char>) -> AppView {
    AppView { status: msg, ..s }
}

/// Going to a date read for `:goto`, or reporting why it did not read.
pub open spec fn goto_outcome(s: AppView, parsed: Result<Date, Seq<char>>) -> (AppView, RequestView) {
    match parsed {
        Ok(d) => (
            AppView { cursor_date: d, year: d.year, month: d.month, status: seq![], ..s },
            RequestView::Refresh,
        ),
        Err(e) => (with_status(s, "Invalid date: "@ + e), RequestView::Done),
    }
}

/// Run a command typed after `:`.
pub open spec fn run_command(s: AppView, cmd: Seq<char>) -> (AppView, RequestView) {
    let (first, rest) = command_parts(cmd);
    if first == "view"@ {
        match rest {
            Some(mode) => {
                let m = str_trim(mode);
                if m == "month"@ || m == "1"@ {
                    (AppView { view_mode: ViewMode::Month, status: seq![], ..s }, RequestView::Refresh)
                } else if m == "week"@ || m == "2"@ {
                    (AppView { view_mode: ViewMode::Week, status: seq![], ..s }, RequestView::Refresh)
                } else if m == "day"@ || m == "3"@ {
                    (AppView { view_mode: ViewMode::Day, status: seq![], ..s }, RequestView::Refresh)
                } else {
                    (with_status(s, "Unknown view: "@ + mode), RequestView::Done)
                }
            },
            None => (with_status(s, "Usage: :view month|week|day"@), RequestView::Done),
        }
    } else if first == "goto"@ {
        match rest {
            Some(ds) => goto_outcome(s, parsed_date(str_trim(ds), "%Y-%m-%d"@)),
            None => (with_status(s, "Usage: :goto YYYY-MM-DD"@), RequestView::Done),
        }
    } else if first == "search"@ {
        match rest {
            Some(q) => (s, RequestView::Search(str_lowercase(str_trim(q)))),
            None => (with_status(s, "Usage: :search <query>"@), RequestView::Done),
        }
    } else if first == "q"@ || first == "quit"@ {
        (with_status(s, "Use 'q' key to quit"@), RequestView::Done)
    } else {
        (with_status(s, "Unknown command: "@ + first), RequestView::Done)
    }
}

/// What an action does to the session, and what it asks of the caller.
pub open spec fn step(s: AppView, a: Action, today: Date) -> (AppView, RequestView) {
    match a {
        Action::NoAction => (s, RequestView::Ignore),
        Action::Quit => (s, RequestView::Quit),
        Action::MoveForward => match s.view_mode {
            ViewMode::Month => month_move(s, 1),
            _ => (
                AppView {
                    selected_hour: if s.selected_hour < 23 {
                        (s.selected_hour + 1) as u8
                    } else {
                        23u8
                    },
                    ..s
                },
                RequestView::Done,
            ),
        },
        Action::MoveBackward => match s.view_mode {
            ViewMode::Month => month_move(s, -1),
            _ => (
                AppView {
                    selected_hour: if s.selected_hour > 0 {
                        (s.selected_hour - 1) as u8
                    } else {
                        0u8
                    },
                    ..s
                },
                RequestView::Done,
            ),
        },
        Action::MovePrevWeek => match s.view_mode {
            ViewMode::Month => month_move(s, -7),
            ViewMode::Week => plain_move(s, -1, RequestView::Done),
            ViewMode::Day => plain_move(s, -1, RequestView::Refresh),
        },
        Action::MoveNextWeek => match s.view_mode {
            ViewMode::Month => month_move(s, 7),
            ViewMode::Week => plain_move(s, 1, RequestView::Done),
            ViewMode::Day => plain_move(s, 1, RequestView::Refresh),
        },
        Action::PrevMonth => month_jump(
            s,
            prev_ym(s.year as int, s.month as int).0,
            prev_ym(s.year as int, s.month as int).1,
        ),
        Action::NextMonth => month_jump(
            s,
            next_ym(s.year as int, s.month as int).0,
            next_ym(s.year as int, s.month as int).1,
        ),
        Action::JumpToday => (
            AppView { cursor_date: today, year: today.year, month: today.month, ..s },
            RequestView::Refresh,
        ),
        Action::CycleView => (
            AppView { view_mode: s.view_mode.spec_next(), ..s },
            RequestView::Refresh,
        ),
        Action::MonthView => (AppView { view_mode: ViewMode::Month, ..s }, RequestView::Refresh),
        Action::WeekView => (AppView { view_mode: ViewMode::Week, ..s }, RequestView::Refresh),
        Action::DayView => (AppView { view_mode: ViewMode::Day, ..s }, RequestView::Refresh),
        Action::OpenDay => if s.view_mode == ViewMode::Month {
            (AppView { view_mode: ViewMode::Day, ..s }, RequestView::Refresh)
        } else {
            (s, RequestView::Done)
        },
        Action::AddEvent => (
            AppView {
                editor: Some(new_editor_view(s.cursor_date, s.selected_hour as int)),
                input_mode: InputMode::EventEditor,
                ..s
            },
            RequestView::Done,
        ),
        Action::EditEvent => match selected(s) {
            Some(o) => (
                AppView {
                    editor: Some(editor_view_of(o.event)),
                    input_mode: InputMode::EventEditor,
                    ..s
                },
                RequestView::Done,
            ),
            None => (with_status(s, "No event selected"@), RequestView::Done),
        },
        Action::DeleteEvent => match selected(s) {
            Some(o) => (s, RequestView::Delete(o.event.id, o.event.title)),
            None => (with_status(s, "No event selected"@), RequestView::Done),
        },
        Action::NextField => match s.editor {
            Some(e) => (
                AppView {
                    editor: Some(EditorView { active_field: e.active_field.spec_next(), ..e }),
                    ..s
                },
                RequestView::Done,
            ),
            None => (s, RequestView::Done),
        },
        Action::SaveEvent => match s.editor {
            Some(e) => (AppView { editor: None, ..s }, RequestView::Save(e)),
            None => (s, RequestView::Done),
        },
        Action::CancelEdit => (
            AppView { editor: None, input_mode: InputMode::Normal, status: seq![], ..s },
            RequestView::Done,
        ),
        Action::TypeChar(c) => (type_char(s, c), RequestView::Done),
        Action::Backspace => (backspace(s), RequestView::Done),
        Action::EnterCommand => (
            AppView { input_mode: InputMode::Command, command_buffer: seq![], ..s },
            RequestView::Done,
        ),
        Action::SubmitCommand => run_command(
            AppView { input_mode: InputMode::Normal, command_buffer: seq![], ..s },
            s.command_buffer,
        ),
        Action::CancelCommand => (
            AppView { input_mode: InputMode::Normal, command_buffer: seq![], ..s },
            RequestView::Done,
        ),
        Action::Search => (
            AppView { input_mode: InputMode::Command, command_buffer: "search "@, ..s },
            RequestView::Done,
        ),
    }
}

/// The window of date-times the visible view shows, whose events the cache
/// holds: six weeks around the displayed month in month view (from a week
/// before its first day, 49 days long), the cursor's week in week view and
/// the cursor's day in day view. `None` when it leaves the supported dates.
pub open spec fn visible_window(s: AppView) -> Option<(DateTime, DateTime)> {
    match s.view_mode {
        ViewMode::Month => {
            let n = day_number(s.year as int, s.month as int, 1) - 7;
            if day_in_range(n) && day_in_range(n + 49) {
                Some((day_start(date_at(n)), day_start(date_at(n + 49))))
            } else {
                None
            }
        },
        ViewMode::Week => week_window_spec(s.cursor_date, s.week_start),
        ViewMode::Day => {
            let n = s.cursor_date.num();
            if day_in_range(n + 1) {
                Some((day_start(s.cursor_date), day_start(date_at(n + 1))))
            } else {
                None
            }
        },
    }
}

/// The stored events whose lowercase title holds `q`, in order.
pub open spec fn title_matches(evs: Seq<EventView>, q: Seq<char>) -> Seq<EventView> {
    keep(evs, |e: EventView| contains_seq(str_lowercase(e.title), q))
}

/// The outcome of a search for `q` among the listed events (or the listing
/// error's text): jump to the first match, reporting the number of matches,
/// or report that nothing matched; a reload follows a jump.
pub open spec fn search_outcome(s: AppView, q: Seq<char>, listed: Result<Seq<EventView>, Seq<char>>) -> (
    AppView,
    bool,
) {
    match listed {
        Err(e) => (with_status(s, "Search failed: "@ + e), false),
        Ok(evs) => {
            let m = title_matches(evs, q);
            if m.len() == 0 {
                (with_status(s, "No events matching '"@ + q + "'"@), false)
            } else {
                let d = m[0].start.date;
                (
                    AppView {
                        cursor_date: d,
                        year: d.year,
                        month: d.month,
                        status: "Found "@ + int_decimal(m.len() as int) + " event(s) matching '"@ + q
                            + "'"@,
                        ..s
                    },
                    true,
                )
            }
        },
    }
}

pub open spec fn listed_view(r: Result<Vec<Event>, EventStoreError>) -> Result<Seq<EventView>, Seq<char>> {
    match r {
        Ok(v) => Ok(views(v@)),
        Err(e) => Err(error_text(e)),
    }
}

/// The window of events loaded when the calendar opens: six weeks from
/// midnight on the first day of the current month. `None` when it leaves
/// the supported dates.
pub fn initial_window(today: Date) -> (r: Option<(DateTime, DateTime)>)
    requires
        today.wf(),
    ensures
        ({
            let n = day_number(today.year as int, today.month as int, 1);
            &&& r is Some <==> day_in_range(n + 42)
            &&& r matches Some(w) ==> w.0 == day_start(date_at(n)) && w.1 == day_start(
                date_at(n + 42),
            ) && w.0.wf() && w.1.wf()
        }),
{
    let first = Date { year: today.year, month: today.month, day: 1 };
    assert(first.wf()) by {
        crate::datetime::lemma_year_length(today.year as int);
    }
    proof {
        lemma_valid_in_range(first);
        lemma_date_at(first);
    }
    match first.checked_add_days(42) {
        Some(e) => {
            proof {
                lemma_date_at(e);
            }
            Some((DateTime::new(first, Time::midnight()), DateTime::new(e, Time::midnight())))
        },
        None => None,
    }
}

/// Whether `a` and `b` hold the same text.
fn same_text(a: &str, b: &str) -> (r: bool)
    ensures
        r == (a@ == b@),
{
    String::from_str(a) == String::from_str(b)
}

/// Where the first word of `t` ends.
fn first_space(t: &str) -> (k: usize)
    ensures
        k == word_end(t@, 0),
        k <= t@.len(),
{
    let n = t.unicode_len();
    let mut i: usize = 0;
    while i < n
        invariant
            n == t@.len(),
            i <= n,
            word_end(t@, 0) == word_end(t@, i as int),
        decreases n - i,
    {
        if t.get_char(i) == ' ' {
            return i;
        }
        i += 1;
    }
    i
}

impl AppState {
    /// A session showing the month of `today` in month view, the cursor on
    /// `today`, nothing being edited, the 9 o'clock slot selected and the
    /// given cached events.
    pub fn new(
        store: EventStore,
        today: Date,
        week_start: WeekStart,
        use_24h: bool,
        cached_events: Vec<EventOccurrence>,
    ) -> (r: Self)
        ensures
            r@ == (AppView {
                view_mode: ViewMode::Month,
                cursor_date: today,
                year: today.year,
                month: today.month,
                week_start,
                use_24h,
                input_mode: InputMode::Normal,
                store_dir: store.dir(),
                status: seq![],
                command_buffer: seq![],
                editor: None,
                selected_hour: 9,
                selected_event_idx: 0,
                cached_events: views(cached_events@),
                cache_dirty: false,
            }),
            today.wf() && (forall|i: int|
                0 <= i < cached_events@.len() ==> (#[trigger] cached_events@[i])@.event.wf()
                    && cached_events@[i].occurrence_start.wf()) ==> r@.wf(),
    {
        AppState {
            view_mode: ViewMode::Month,
            cursor_date: today,
            year: today.year,
            month: today.month,
            week_start,
            use_24h,
            input_mode: InputMode::Normal,
            store,
            status: String::new(),
            command_buffer: String::new(),
            editor: None,
            selected_hour: 9,
            selected_event_idx: 0,
            cached_events,
            cache_dirty: false,
        }
    }

    fn follow_cursor(&mut self) -> (r: Request)
        requires
            old(self)@.wf(),
        ensures
            final(self)@.wf(),
            (final(self)@, r@) == follow_cursor(old(self)@),
    {
        if self.cursor_date.year != self.year || self.cursor_date.month != self.month {
            self.year = self.cursor_date.year;
            self.month = self.cursor_date.month;
            Request::Refresh
        } else {
            Request::Done
        }
    }

    fn month_move(&mut self, n: i64) -> (r: Request)
        requires
            old(self)@.wf(),
            -7 <= n <= 7,
        ensures
            final(self)@.wf(),
            (final(self)@, r@) == month_move(old(self)@, n as int),
    {
        match self.cursor_date.checked_add_days(n) {
            Some(d) => {
                proof {
                    lemma_date_at(d);
                }
                self.cursor_date = d;
                self.follow_cursor()
            },
            None => Request::OutOfRange,
        }
    }

    fn plain_move(&mut self, n: i64, refresh: bool) -> (r: Request)
        requires
            old(self)@.wf(),
            -7 <= n <= 7,
        ensures
            final(self)@.wf(),
            (final(self)@, r@) == plain_move(
                old(self)@,
                n as int,
                if refresh {
                    RequestView::Refresh
                } else {
                    RequestView::Done
                },
            ),
    {
        match self.cursor_date.checked_add_days(n) {
            Some(d) => {
                proof {
                    lemma_date_at(d);
                }
                self.cursor_date = d;
                if refresh {
                    Request::Refresh
                } else {
                    Request::Done
                }
            },
            None => Request::OutOfRange,
        }
    }

    fn month_jump(&mut self, y: i32, m: u32) -> (r: Request)
        requires
            old(self)@.wf(),
        ensures
            final(self)@.wf(),
            (final(self)@, r@) == month_jump(old(self)@, y as int, m as int),
    {
        match Date::from_ymd(y, m, 1) {
            Some(d) => {
                self.year = y;
                self.month = m;
                self.cursor_date = d;
                Request::Refresh
            },
            None => Request::OutOfRange,
        }
    }

    /// The index in the cache of the selected occurrence of the cursor's day.
    fn selected_index(&self) -> (r: Option<usize>)
        requires
            self@.wf(),
        ensures
            r is None <==> selected(self@) is None,
            r matches Some(i) ==> i < self.cached_events@.len() && selected(self@) == Some(
                self.cached_events@[i as int]@,
            ),
    {
        let ghost cached = self@.cached_events;
        let ghost p = |o: OccurrenceView| o.start.date == self.cursor_date;
        let n = self.cached_events.len();
        let idx = self.selected_event_idx;
        let mut k: usize = 0;
        let mut i: usize = 0;
        while i < n
            invariant
                n == self.cached_events@.len(),
                cached == self@.cached_events,
                p == (|o: OccurrenceView| o.start.date == self.cursor_date),
                idx == self.selected_event_idx,
                i <= n,
                k == keep(cached.take(i as int), p).len(),
                k <= idx,
            decreases n - i,
        {
            proof {
                lemma_keep_step(cached, p, i as int);
                assert(cached[i as int] == self.cached_events@[i as int]@);
            }
            if self.cached_events[i].occurrence_start.date == self.cursor_date {
                if k == idx {
                    proof {
                        lemma_keep_prefix(cached, p, i + 1);
                        assert(keep(cached.take(i + 1), p)[k as int] == cached[i as int]);
                    }
                    return Some(i);
                }
                k += 1;
            }
            i += 1;
        }
        assert(cached.take(n as int) =~= cached);
        None
    }

    /// Apply a keyboard action: change the session and say what the caller
    /// has to do next.
    #[verifier::rlimit(40)]
    pub fn apply_action(&mut self, action: Action, today: Date) -> (r: Request)
        requires
            old(self)@.wf(),
            today.wf(),
        ensures
            final(self)@.wf(),
            (final(self)@, r@) == step(old(self)@, action, today),
    {
        match action {
            Action::NoAction => Request::Ignore,
            Action::Quit => Request::Quit,
            Action::MoveForward => match self.view_mode {
                ViewMode::Month => self.month_move(1),
                _ => {
                    self.selected_hour = if self.selected_hour < 23 {
                        self.selected_hour + 1
                    } else {
                        23
                    };
                    Request::Done
                },
            },
            Action::MoveBackward => match self.view_mode {
                ViewMode::Month => self.month_move(-1),
                _ => {
                    self.selected_hour = if self.selected_hour > 0 {
                        self.selected_hour - 1
                    } else {
                        0
                    };
                    Request::Done
                },
            },
            Action::MovePrevWeek => match self.view_mode {
                ViewMode::Month => self.month_move(-7),
                ViewMode::Week => self.plain_move(-1, false),
                ViewMode::Day => self.plain_move(-1, true),
            },
            Action::MoveNextWeek => match self.view_mode {
                ViewMode::Month => self.month_move(7),
                ViewMode::Week => self.plain_move(1, false),
                ViewMode::Day => self.plain_move(1, true),
            },
            Action::PrevMonth => {
                let (y, m) = prev_month(self.year, self.month);
                self.month_jump(y, m)
            },
            Action::NextMonth => {
                let (y, m) = next_month(self.year, self.month);
                self.month_jump(y, m)
            },
            Action::JumpToday => {
                self.cursor_date = today;
                self.year = today.year;
                self.month = today.month;
                Request::Refresh
            },
            Action::CycleView => {
                self.view_mode = self.view_mode.next();
                Request::Refresh
            },
            Action::MonthView => {
                self.view_mode = ViewMode::Month;
                Request::Refresh
            },
            Action::WeekView => {
                self.view_mode = ViewMode::Week;
                Request::Refresh
            },
            Action::DayView => {
                self.view_mode = ViewMode::Day;
                Request::Refresh
            },
            Action::OpenDay => {
                if self.view_mode == ViewMode::Month {
                    self.view_mode = ViewMode::Day;
                    Request::Refresh
                } else {
                    Request::Done
                }
            },
            Action::AddEvent => {
                let editor = EditorState::new_for_date(self.cursor_date, self.selected_hour);
                self.editor = Some(editor);
                self.input_mode = InputMode::EventEditor;
                Request::Done
            },
            Action::EditEvent => match self.selected_index() {
                Some(i) => {
                    assert(self@.cached_events[i as int] == self.cached_events@[i as int]@);
                    let editor = EditorState::from_event(&self.cached_events[i].event);
                    self.editor = Some(editor);
                    self.input_mode = InputMode::EventEditor;
                    Request::Done
                },
                None => {
                    self.status = String::from_str("No event selected");
                    Request::Done
                },
            },
            Action::DeleteEvent => match self.selected_index() {
                Some(i) => {
                    let id = self.cached_events[i].event.id.clone();
                    let title = self.cached_events[i].event.title.clone();
                    Request::Delete { id, title }
                },
                None => {
                    self.status = String::from_str("No event selected");
                    Request::Done
                },
            },
            Action::NextField => {
                match self.editor.take() {
                    Some(mut e) => {
                        e.active_field = e.active_field.next();
                        self.editor = Some(e);
                    },
                    None => {},
                }
                Request::Done
            },
            Action::SaveEvent => match self.editor.take() {
                Some(e) => Request::Save(e),
                None => Request::Done,
            },
            Action::CancelEdit => {
                self.editor = None;
                self.input_mode = InputMode::Normal;
                self.status = String::new();
                Request::Done
            },
            Action::TypeChar(c) => {
                self.type_char(c);
                Request::Done
            },
            Action::Backspace => {
                self.backspace();
                Request::Done
            },
            Action::EnterCommand => {
                self.input_mode = InputMode::Command;
                self.command_buffer = String::new();
                Request::Done
            },
            Action::SubmitCommand => {
                let cmd = self.command_buffer.clone();
                self.input_mode = InputMode::Normal;
                self.command_buffer = String::new();
                self.execute_command(cmd.as_str())
            },
            Action::CancelCommand => {
                self.input_mode = InputMode::Normal;
                self.command_buffer = String::new();
                Request::Done
            },
            Action::Search => {
                self.input_mode = InputMode::Command;
                self.command_buffer = String::from_str("search ");
                Request::Done
            },
        }
    }

    fn type_char(&mut self, c: char)
        requires
            old(self)@.wf(),
        ensures
            final(self)@.wf(),
            final(self)@ == type_char(old(self)@, c),
    {
        if self.input_mode == InputMode::EventEditor {
            match self.editor.take() {
                Some(mut e) => {
                    let v = e.active_value_mut();
                    push_char(v, c);
                    self.editor = Some(e);
                },
                None => {},
            }
        } else if self.input_mode == InputMode::Command {
            push_char(&mut self.command_buffer, c);
        }
    }

    fn backspace(&mut self)
        requires
            old(self)@.wf(),
        ensures
            final(self)@.wf(),
            final(self)@ == backspace(old(self)@),
    {
        if self.input_mode == InputMode::EventEditor {
            match self.editor.take() {
                Some(mut e) => {
                    let v = e.active_value_mut();
                    let _ = pop_char(v);
                    self.editor = Some(e);
                },
                None => {},
            }
        } else if self.input_mode == InputMode::Command {
            let _ = pop_char(&mut self.command_buffer);
        }
    }

    /// Execute a command typed after `:`: `view month|week|day` (or 1, 2,
    /// 3), `goto YYYY-MM-DD`, `search <query>`; `q` and `quit` only explain
    /// how to quit.
    pub fn execute_command(&mut self, cmd: &str) -> (r: Request)
        requires
            old(self)@.wf(),
        ensures
            final(self)@.wf(),
            (final(self)@, r@) == run_command(old(self)@, cmd@),
    {
        let t = trim(cmd);
        let k = first_space(t);
        let n = t.unicode_len();
        let first = t.substring_char(0, k);
        if same_text(first, "view") {
            if k < n {
                let mode = t.substring_char(k + 1, n);
                let m = trim(mode);
                if same_text(m, "month") || same_text(m, "1") {
                    self.view_mode = ViewMode::Month;
                    self.status = String::new();
                    Request::Refresh
                } else if same_text(m, "week") || same_text(m, "2") {
                    self.view_mode = ViewMode::Week;
                    self.status = String::new();
                    Request::Refresh
                } else if same_text(m, "day") || same_text(m, "3") {
                    self.view_mode = ViewMode::Day;
                    self.status = String::new();
                    Request::Refresh
                } else {
                    self.status = concat("Unknown view: ", mode);
                    Request::Done
                }
            } else {
                self.status = String::from_str("Usage: :view month|week|day");
                Request::Done
            }
        } else if same_text(first, "goto") {
            if k < n {
                let ds = t.substring_char(k + 1, n);
                self.goto_date(Date::parse(trim(ds), "%Y-%m-%d"))
            } else {
                self.status = String::from_str("Usage: :goto YYYY-MM-DD");
                Request::Done
            }
        } else if same_text(first, "search") {
            if k < n {
                let q = t.substring_char(k + 1, n);
                Request::Search(lowercase(trim(q)))
            } else {
                self.status = String::from_str("Usage: :search <query>");
                Request::Done
            }
        } else if same_text(first, "q") || same_text(first, "quit") {
            self.status = String::from_str("Use 'q' key to quit");
            Request::Done
        } else {
            self.status = concat("Unknown command: ", first);
            Request::Done
        }
    }

    /// Go to a date read for `:goto`: the cursor moves to it and the view
    /// follows to its month, the status clears and a reload follows; a date
    /// that did not read is reported.
    pub fn goto_date(&mut self, parsed: Result<Date, String>) -> (r: Request)
        requires
            old(self)@.wf(),
            parsed matches Ok(d) ==> d.wf(),
        ensures
            final(self)@.wf(),
            (final(self)@, r@) == goto_outcome(old(self)@, date_result_view(parsed)),
    {
        match parsed {
            Ok(d) => {
                self.cursor_date = d;
                self.year = d.year;
                self.month = d.month;
                self.status = String::new();
                Request::Refresh
            },
            Err(e) => {
                self.status = concat("Invalid date: ", e.as_str());
                Request::Done
            },
        }
    }

    /// The window of date-times whose events the current view shows.
    pub fn visible_window(&self) -> (r: Option<(DateTime, DateTime)>)
        requires
            self@.wf(),
        ensures
            r == visible_window(self@),
            r matches Some(w) ==> w.0.wf() && w.1.wf(),
    {
        let midnight = Time::midnight();
        match self.view_mode {
            ViewMode::Month => {
                let first = match Date::from_ymd(self.year, self.month, 1) {
                    Some(d) => d,
                    None => {
                        assert(false);
                        return None;
                    },
                };
                match first.checked_add_days(-7) {
                    Some(s) => match s.checked_add_days(49) {
                        Some(e) => {
                            proof {
                                lemma_date_at(s);
                                lemma_date_at(e);
                            }
                            Some((DateTime::new(s, midnight), DateTime::new(e, midnight)))
                        },
                        None => None,
                    },
                    None => None,
                }
            },
            ViewMode::Week => week_window(self.cursor_date, self.week_start),
            ViewMode::Day => match self.cursor_date.checked_add_days(1) {
                Some(e) => {
                    proof {
                        lemma_date_at(e);
                    }
                    Some((DateTime::new(self.cursor_date, midnight), DateTime::new(e, midnight)))
                },
                None => None,
            },
        }
    }

    /// Reload the cached events of the visible window from the stored
    /// events (`None` when the store could not be read: the cache is then
    /// emptied), and select the first event. Returns `false`, changing
    /// nothing, when the window or the expansion of the stored events
    /// leaves the supported dates.
    pub fn refresh_cache(&mut self, stored: Option<&Vec<Event>>) -> (done: bool)
        requires
            old(self)@.wf(),
            stored matches Some(v) ==> all_events_wf(v@),
        ensures
            final(self)@.wf(),
            done <==> (visible_window(old(self)@) matches Some(w) && (stored matches Some(v)
                ==> forall|i: int|
                0 <= i < v@.len() ==> event_expandable(#[trigger] v@[i]@, w.0, w.1))),
            !done ==> final(self)@ == old(self)@,
            done ==> final(self)@ == (AppView {
                cached_events: final(self)@.cached_events,
                selected_event_idx: 0,
                ..old(self)@
            }),
            done && stored is None ==> final(self)@.cached_events.len() == 0,
            done ==> (stored matches Some(v) ==> (visible_window(old(self)@) matches Some(w) && {
                &&& final(self)@.cached_events.to_multiset() == all_occurrences(
                    views(v@),
                    w.0,
                    w.1,
                ).to_multiset()
                &&& crate::events::sorted_by_start::<EventOccurrence>(final(self)@.cached_events)
                &&& forall|t: DateTime|
                    #[trigger] crate::events::starting_at::<EventOccurrence>(
                        final(self)@.cached_events,
                        t,
                    ) == crate::events::starting_at::<EventOccurrence>(
                        all_occurrences(views(v@), w.0, w.1),
                        t,
                    )
            })),
    {
        let (a, b) = match self.visible_window() {
            Some(w) => w,
            None => {
                return false;
            },
        };
        match stored {
            None => {
                self.cached_events = Vec::new();
                self.selected_event_idx = 0;
                assert(views(self.cached_events@) =~= Seq::<OccurrenceView>::empty());
                true
            },
            Some(evs) => match query_range(evs, a, b) {
                Some(v) => {
                    self.cached_events = v;
                    self.selected_event_idx = 0;
                    assert forall|i: int| 0 <= i < self@.cached_events.len() implies (
                    #[trigger] self@.cached_events[i]).event.wf() && self@.cached_events[i].start.wf() by {
                        assert(self@.cached_events[i] == self.cached_events@[i]@);
                    }
                    true
                },
                None => false,
            },
        }
    }

    /// After a delete request: report the outcome; a successful delete is
    /// followed by a reload (the result is whether to reload).
    pub fn finish_delete(&mut self, title: &str, outcome: Result<(), EventStoreError>) -> (refresh: bool)
        requires
            old(self)@.wf(),
        ensures
            final(self)@.wf(),
            match outcome {
                Ok(_) => final(self)@ == with_status(old(self)@, "Deleted: "@ + title@) && refresh,
                Err(e) => final(self)@ == with_status(old(self)@, "Delete failed: "@ + error_text(e))
                    && !refresh,
            },
    {
        match outcome {
            Ok(_) => {
                self.status = concat("Deleted: ", title);
                true
            },
            Err(e) => {
                let m = e.message();
                self.status = concat("Delete failed: ", m.as_str());
                false
            },
        }
    }

    /// After a save request: on success show the message and return to
    /// normal mode, followed by a reload; on failure report it and give the
    /// editor back.
    pub fn finish_save(&mut self, editor: EditorState, outcome: Result<String, String>) -> (refresh: bool)
        requires
            old(self)@.wf(),
        ensures
            final(self)@.wf(),
            match outcome {
                Ok(msg) => final(self)@ == (AppView {
                    status: msg@,
                    input_mode: InputMode::Normal,
                    ..old(self)@
                }) && refresh,
                Err(e) => final(self)@ == (AppView {
                    status: "Save failed: "@ + e@,
                    editor: Some(editor@),
                    ..old(self)@
                }) && !refresh,
            },
    {
        match outcome {
            Ok(msg) => {
                self.status = msg;
                self.input_mode = InputMode::Normal;
                true
            },
            Err(e) => {
                self.status = concat("Save failed: ", e.as_str());
                self.editor = Some(editor);
                false
            },
        }
    }

    /// After a search request for `query`: jump to the first stored event
    /// whose lowercase title holds it and report how many do (the result is
    /// then `true`: a reload follows), or report that none does, or that the
    /// events could not be listed.
    pub fn finish_search(&mut self, query: &str, listed: Result<Vec<Event>, EventStoreError>) -> (refresh: bool)
        requires
            old(self)@.wf(),
            listed matches Ok(v) ==> all_events_wf(v@),
        ensures
            final(self)@.wf(),
            (final(self)@, refresh) == search_outcome(old(self)@, query@, listed_view(listed)),
    {
        let evs = match listed {
            Ok(v) => v,
            Err(e) => {
                let m = e.message();
                self.status = concat("Search failed: ", m.as_str());
                return false;
            },
        };
        let ghost vs = views(evs@);
        let ghost p = |e: EventView| contains_seq(str_lowercase(e.title), query@);
        let n = evs.len();
        let mut count: usize = 0;
        let mut first: Option<usize> = None;
        let mut i: usize = 0;
        while i < n
            invariant
                n == evs@.len(),
                vs == views(evs@),
                p == (|e: EventView| contains_seq(str_lowercase(e.title), query@)),
                i <= n,
                count == keep(vs.take(i as int), p).len(),
                count <= i,
                first is None <==> count == 0,
                first matches Some(f) ==> f < n && keep(vs.take(i as int), p)[0] == vs[f as int],
            decreases n - i,
        {
            proof {
                lemma_keep_step(vs, p, i as int);
                assert(vs[i as int] == evs@[i as int]@);
            }
            let title = lowercase(evs[i].title.as_str());
            if contains_str(title.as_str(), query) {
                if count == 0 {
                    first = Some(i);
                }
                count += 1;
            }
            i += 1;
        }
        assert(vs.take(n as int) =~= vs);
        assert(title_matches(vs, query@) == keep(vs, p));
        assert(listed_view(listed) == Ok::<Seq<EventView>, Seq<char>>(vs));
        match first {
            None => {
                let mut msg = String::from_str("No events matching '");
                msg.append(query);
                msg.append("'");
                assert(msg@ =~= "No events matching '"@ + query@ + "'"@);
                self.status = msg;
                assert(keep(vs, p).len() == 0);
                false
            },
            Some(f) => {
                let d = evs[f].start.date;
                assert(vs[f as int] == evs@[f as int]@);
                self.cursor_date = d;
                self.year = d.year;
                self.month = d.month;
                let mut msg = String::from_str("Found ");
                let num = fmt_usize(count);
                msg.append(num.as_str());
                msg.append(" event(s) matching '");
                msg.append(query);
                msg.append("'");
                assert(msg@ =~= "Found "@ + int_decimal(count as int) + " event(s) matching '"@ + query@ + "'"@);
                self.status = msg;
                true
            },
        }
    }
}

/// Typing a character and then erasing it gives back the session as it
/// was, in every mode.
pub proof fn lemma_backspace_undoes_type(s: AppView, c: char)
    ensures
        backspace(type_char(s, c)) == s,
{
    if s.input_mode == InputMode::EventEditor {
        match s.editor {
            Some(e) => {
                let f = e.active_field;
                let v = e.value_of(f);
                let e1 = e.with_value(f, v.push(c));
                assert(e1.active_field == f);
                assert(e1.value_of(f) == v.push(c));
                assert(pop_text(v.push(c)) =~= v);
                let e2 = e1.with_value(f, v);
                assert(e2 == e);
            },
            None => {},
        }
    } else if s.input_mode == InputMode::Command {
        assert(pop_text(s.command_buffer.push(c)) =~= s.command_buffer);
    }
}

/// Going to the next month and back to the previous one shows the month
/// shown before, with the cursor on its first day, wherever both months
/// are within the supported dates.
pub proof fn lemma_next_then_prev_month(s: AppView, today: Date)
    requires
        s.wf(),
        valid_ymd(next_ym(s.year as int, s.month as int).0, next_ym(s.year as int, s.month as int).1, 1),
    ensures
        ({
            let (s1, r1) = step(s, Action::NextMonth, today);
            let (s2, r2) = step(s1, Action::PrevMonth, today);
            &&& r1 == RequestView::Refresh
            &&& r2 == RequestView::Refresh
            &&& s2.year == s.year
            &&& s2.month == s.month
            &&& s2.cursor_date == Date { year: s.year, month: s.month, day: 1 }
            &&& s2 == AppView { cursor_date: s2.cursor_date, ..s }
        }),
{
    let (s1, r1) = step(s, Action::NextMonth, today);
    assert(valid_ymd(s.year as int, s.month as int, 1)) by {
        crate::datetime::lemma_year_length(s.year as int);
    }
}

/// Entering command mode and cancelling it leaves normal mode with an empty
/// command buffer and the rest of the session as it was.
pub proof fn lemma_cancel_command(s: AppView, today: Date)
    ensures
        ({
            let (s1, _) = step(s, Action::EnterCommand, today);
            let (s2, r2) = step(s1, Action::CancelCommand, today);
            &&& r2 == RequestView::Done
            &&& s2 == AppView { input_mode: InputMode::Normal, command_buffer: seq![], ..s }
        }),
{
}

/// Whether a step took the cursor `n` days from where it was in `s` (to
/// `s1`), or, where that day is not supported, left the session as it was
/// and reported it.
pub open spec fn moved_by(s: AppView, s1: AppView, r: RequestView, n: int) -> bool {
    if day_in_range(s.cursor_date.num() + n) {
        &&& s1.cursor_date.wf()
        &&& s1.cursor_date.num() == s.cursor_date.num() + n
        &&& s1.view_mode == s.view_mode
        &&& r != RequestView::OutOfRange
    } else {
        s1 == s && r == RequestView::OutOfRange
    }
}

/// In month view `j` and `k` move the cursor a day forward and back, `l`
/// and `h` a week forward and back, and the displayed month follows the
/// cursor.
pub proof fn lemma_month_view_moves(s: AppView, today: Date)
    requires
        s.wf(),
        s.view_mode == ViewMode::Month,
    ensures
        ({
            let (s1, r1) = step(s, Action::MoveForward, today);
            moved_by(s, s1, r1, 1) && (s1.year == s1.cursor_date.year && s1.month
                == s1.cursor_date.month || r1 == RequestView::OutOfRange)
        }),
        ({
            let (s1, r1) = step(s, Action::MoveBackward, today);
            moved_by(s, s1, r1, -1) && (s1.year == s1.cursor_date.year && s1.month
                == s1.cursor_date.month || r1 == RequestView::OutOfRange)
        }),
        ({
            let (s1, r1) = step(s, Action::MoveNextWeek, today);
            moved_by(s, s1, r1, 7) && (s1.year == s1.cursor_date.year && s1.month
                == s1.cursor_date.month || r1 == RequestView::OutOfRange)
        }),
        ({
            let (s1, r1) = step(s, Action::MovePrevWeek, today);
            moved_by(s, s1, r1, -7) && (s1.year == s1.cursor_date.year && s1.month
                == s1.cursor_date.month || r1 == RequestView::OutOfRange)
        }),
{
    let n = s.cursor_date.num();
    if day_in_range(n + 1) {
        crate::datetime::lemma_date_exists(n + 1);
    }
    if day_in_range(n - 1) {
        crate::datetime::lemma_date_exists(n - 1);
    }
    if day_in_range(n + 7) {
        crate::datetime::lemma_date_exists(n + 7);
    }
    if day_in_range(n - 7) {
        crate::datetime::lemma_date_exists(n - 7);
    }
}

/// In week and day view `l` and `h` move the cursor a day forward and back.
pub proof fn lemma_week_day_view_moves(s: AppView, today: Date)
    requires
        s.wf(),
        s.view_mode != ViewMode::Month,
    ensures
        moved_by(
            s,
            step(s, Action::MoveNextWeek, today).0,
            step(s, Action::MoveNextWeek, today).1,
            1,
        ),
        moved_by(
            s,
            step(s, Action::MovePrevWeek, today).0,
            step(s, Action::MovePrevWeek, today).1,
            -1,
        ),
{
    let n = s.cursor_date.num();
    if day_in_range(n + 1) {
        crate::datetime::lemma_date_exists(n + 1);
    }
    if day_in_range(n - 1) {
        crate::datetime::lemma_date_exists(n - 1);
    }
}

/// In month view a week forward and a week back, or a day forward and a day
/// back, bring the cursor back to the day it was on, and the displayed month
/// to that day's month.
pub proof fn lemma_month_view_moves_undo(s: AppView, today: Date)
    requires
        s.wf(),
        s.view_mode == ViewMode::Month,
    ensures
        day_in_range(s.cursor_date.num() + 7) ==> {
            let (s1, _) = step(s, Action::MoveNextWeek, today);
            let (s2, r2) = step(s1, Action::MovePrevWeek, today);
            &&& s2.cursor_date == s.cursor_date
            &&& s2.year == s.cursor_date.year
            &&& s2.month == s.cursor_date.month
            &&& r2 != RequestView::OutOfRange
        },
        day_in_range(s.cursor_date.num() + 1) ==> {
            let (s1, _) = step(s, Action::MoveForward, today);
            let (s2, r2) = step(s1, Action::MoveBackward, today);
            &&& s2.cursor_date == s.cursor_date
            &&& s2.year == s.cursor_date.year
            &&& s2.month == s.cursor_date.month
            &&& r2 != RequestView::OutOfRange
        },
{
    let n = s.cursor_date.num();
    lemma_valid_in_range(s.cursor_date);
    lemma_month_view_moves(s, today);
    if day_in_range(n + 7) {
        let (s1, _) = step(s, Action::MoveNextWeek, today);
        assert(s1.wf());
        lemma_month_view_moves(s1, today);
        let (s2, _) = step(s1, Action::MovePrevWeek, today);
        crate::datetime::lemma_day_number_injective(s2.cursor_date, s.cursor_date);
    }
    if day_in_range(n + 1) {
        let (s1, _) = step(s, Action::MoveForward, today);
        assert(s1.wf());
        lemma_month_view_moves(s1, today);
        let (s2, _) = step(s1, Action::MoveBackward, today);
        crate::datetime::lemma_day_number_injective(s2.cursor_date, s.cursor_date);
    }
}

/// In week and day view `j` and `k` move the selected hour one hour later
/// and earlier, staying within the day, and leave the cursor where it is;
/// `t` always brings the cursor and the displayed month to today.
pub proof fn lemma_hour_moves_and_today(s: AppView, today: Date)
    requires
        s.wf(),
    ensures
        s.view_mode != ViewMode::Month ==> {
            let (s1, r1) = step(s, Action::MoveForward, today);
            &&& s1.selected_hour as int == (if s.selected_hour < 23 {
                s.selected_hour + 1
            } else {
                23
            })
            &&& s1.cursor_date == s.cursor_date
            &&& r1 == RequestView::Done
        },
        s.view_mode != ViewMode::Month ==> {
            let (s1, r1) = step(s, Action::MoveBackward, today);
            &&& s1.selected_hour as int == (if s.selected_hour > 0 {
                s.selected_hour - 1
            } else {
                0
            })
            &&& s1.cursor_date == s.cursor_date
            &&& r1 == RequestView::Done
        },
        s.view_mode != ViewMode::Month && 0 < s.selected_hour < 23 ==> {
            let (s1, _) = step(s, Action::MoveForward, today);
            step(s1, Action::MoveBackward, today).0 == s
        },
        ({
            let (s1, r1) = step(s, Action::JumpToday, today);
            &&& s1.cursor_date == today
            &&& s1.year == today.year
            &&& s1.month == today.month
            &&& s1.view_mode == s.view_mode
            &&& r1 == RequestView::Refresh
        }),
{
}

} // verus!
