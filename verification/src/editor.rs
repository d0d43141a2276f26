//! The event editor: the text fields of an event being created or edited.

use vstd::prelude::*;

use crate::datetime::{
    date_text, datetime_result_view, hm_text, lemma_day_number_order, lemma_ts_order, parsed_datetime,
    ts, ymd_lt, Date, DateTime,
};
use crate::events::{
    error_text, is_hyphenated_uuid, opt_string_view, Event, EventStoreError, EventView,
};
use crate::input::EditorField;
use crate::recurrence::{Frequency, RecurrenceRule, RuleView};
use crate::text::{concat, fmt_pad2, lowercase, padded_decimal, str_lowercase};

verus! {

/// State for the event editor overlay.
pub struct EditorState {
    /// Which field is currently focused.
    pub active_field: EditorField,
    pub title: String,
    pub start_date: String,
    pub start_time: String,
    pub end_date: String,
    pub end_time: String,
    pub location: String,
    pub calendar: String,
    pub recurrence: String,
    /// If editing an existing event, its ID.
    pub editing_id: Option<String>,
}

/// What an editor holds: the focused field and the field texts.
pub struct EditorView {
    pub active_field: EditorField,
    pub title: Seq<char>,
    pub start_date: Seq<char>,
    pub start_time: Seq<char>,
    pub end_date: Seq<char>,
    pub end_time: Seq<char>,
    pub location: Seq<char>,
    pub calendar: Seq<char>,
    pub recurrence: Seq<char>,
    pub editing_id: Option<Seq<char>>,
}

impl View for EditorState {
    type V = EditorView;

    open spec fn view(&self) -> EditorView {
        EditorView {
            active_field: self.active_field,
            title: self.title@,
            start_date: self.start_date@,
            start_time: self.start_time@,
            end_date: self.end_date@,
            end_time: self.end_time@,
            location: self.location@,
            calendar: self.calendar@,
            recurrence: self.recurrence@,
            editing_id: opt_string_view(self.editing_id),
        }
    }
}

impl EditorView {
    /// The text of field `f`.
    pub open spec fn value_of(self, f: EditorField) -> Seq<char> {
        match f {
            EditorField::Title => self.title,
            EditorField::StartDate => self.start_date,
            EditorField::StartTime => self.start_time,
            EditorField::EndDate => self.end_date,
            EditorField::EndTime => self.end_time,
            EditorField::Location => self.location,
            EditorField::Calendar => self.calendar,
            EditorField::Recurrence => self.recurrence,
        }
    }

    /// The editor with the text of field `f` replaced by `v`.
    pub open spec fn with_value(self, f: EditorField, v: Seq<char>) -> EditorView {
        match f {
            EditorField::Title => EditorView { title: v, ..self },
            EditorField::StartDate => EditorView { start_date: v, ..self },
            EditorField::StartTime => EditorView { start_time: v, ..self },
            EditorField::EndDate => EditorView { end_date: v, ..self },
            EditorField::EndTime => EditorView { end_time: v, ..self },
            EditorField::Location => EditorView { location: v, ..self },
            EditorField::Calendar => EditorView { calendar: v, ..self },
            EditorField::Recurrence => EditorView { recurrence: v, ..self },
        }
    }
}

/// The start time of a new event at `hour`: `HH:00`.
pub open spec fn hour_text(hour: int) -> Seq<char> {
    padded_decimal(hour as nat, 2) + ":00"@
}

/// The hour a new event at `hour` ends: the next hour, but no later than 23.
pub open spec fn end_hour(hour: int) -> int {
    if hour + 1 < 23 {
        hour + 1
    } else {
        23
    }
}

/// A new editor on `date` at `hour`: empty, except for the dates, the
/// times (`hour` to the next hour, no later than 23) and the default calendar.
pub open spec fn new_editor_view(date: Date, hour: int) -> EditorView {
    EditorView {
        active_field: EditorField::Title,
        title: Seq::empty(),
        start_date: date_text(date),
        start_time: hour_text(hour),
        end_date: date_text(date),
        end_time: hour_text(end_hour(hour)),
        location: Seq::empty(),
        calendar: "default"@,
        recurrence: Seq::empty(),
        editing_id: None,
    }
}

/// An editor holding an event: its title, dates as `YYYY-MM-DD`, times as
/// `HH:MM`, location (or nothing), calendar, recurrence frequency name (or
/// nothing) and id.
pub open spec fn editor_view_of(e: EventView) -> EditorView {
    EditorView {
        active_field: EditorField::Title,
        title: e.title,
        start_date: date_text(e.start.date),
        start_time: hm_text(e.start.time),
        end_date: date_text(e.end.date),
        end_time: hm_text(e.end.time),
        location: match e.location {
            Some(l) => l,
            None => Seq::empty(),
        },
        calendar: e.calendar,
        recurrence: match e.recurrence {
            Some(rule) => rule.freq.name_spec(),
            None => Seq::empty(),
        },
        editing_id: Some(e.id),
    }
}

impl EditorState {
    /// A new empty editor for creating an event on `date` at `hour`, lasting
    /// until the next hour (no later than 23:00), in the default calendar.
    pub fn new_for_date(date: Date, hour: u8) -> (r: Self)
        requires
            date.wf(),
            hour < 255,
        ensures
            r@ == new_editor_view(date, hour as int),
    {
        let mut start_time = fmt_pad2(hour as u32);
        start_time.append(":00");
        let end_hour: u8 = if hour + 1 < 23 {
            hour + 1
        } else {
            23
        };
        let mut end_time = fmt_pad2(end_hour as u32);
        end_time.append(":00");
        EditorState {
            active_field: EditorField::Title,
            title: String::new(),
            start_date: date.format_ymd(),
            start_time,
            end_date: date.format_ymd(),
            end_time,
            location: String::new(),
            calendar: String::from_str("default"),
            recurrence: String::new(),
            editing_id: None,
        }
    }

    /// An editor pre-filled with an existing event's data: dates as
    /// `YYYY-MM-DD`, times as `HH:MM`, the location or nothing, and the
    /// recurrence frequency's name or nothing.
    pub fn from_event(event: &Event) -> (r: Self)
        requires
            event.start.wf(),
            event.end.wf(),
        ensures
            r@ == editor_view_of(event@),
    {
        let location = match &event.location {
            Some(l) => l.clone(),
            None => String::new(),
        };
        let recurrence = match &event.recurrence {
            Some(rule) => String::from_str(rule.freq.name()),
            None => String::new(),
        };
        EditorState {
            active_field: EditorField::Title,
            title: event.title.clone(),
            start_date: event.start.date.format_ymd(),
            start_time: event.start.time.format_hm(),
            end_date: event.end.date.format_ymd(),
            end_time: event.end.time.format_hm(),
            location,
            calendar: event.calendar.clone(),
            recurrence,
            editing_id: Some(event.id.clone()),
        }
    }

    /// The currently active field's value, for editing in place.
    pub fn active_value_mut(&mut self) -> (r: &mut String)
        ensures
            r@ == old(self)@.value_of(old(self).active_field),
            final(self)@ == old(self)@.with_value(old(self).active_field, final(r)@),
    {
        match self.active_field {
            EditorField::Title => &mut self.title,
            EditorField::StartDate => &mut self.start_date,
            EditorField::StartTime => &mut self.start_time,
            EditorField::EndDate => &mut self.end_date,
            EditorField::EndTime => &mut self.end_time,
            EditorField::Location => &mut self.location,
            EditorField::Calendar => &mut self.calendar,
            EditorField::Recurrence => &mut self.recurrence,
        }
    }

    /// The currently active field's value.
    pub fn active_value(&self) -> (r: &str)
        ensures
            r@ == self@.value_of(self.active_field),
    {
        match self.active_field {
            EditorField::Title => self.title.as_str(),
            EditorField::StartDate => self.start_date.as_str(),
            EditorField::StartTime => self.start_time.as_str(),
            EditorField::EndDate => self.end_date.as_str(),
            EditorField::EndTime => self.end_time.as_str(),
            EditorField::Location => self.location.as_str(),
            EditorField::Calendar => self.calendar.as_str(),
            EditorField::Recurrence => self.recurrence.as_str(),
        }
    }
}

/// Whether `a` is no later than `b`, comparing dates and then times of day
/// field by field (as `chrono::NaiveDateTime` orders).
pub open spec fn dt_le(a: DateTime, b: DateTime) -> bool {
    if a.date.year != b.date.year {
        a.date.year < b.date.year
    } else if a.date.month != b.date.month {
        a.date.month < b.date.month
    } else if a.date.day != b.date.day {
        a.date.day < b.date.day
    } else if a.time.secs != b.time.secs {
        a.time.secs < b.time.secs
    } else {
        a.time.frac <= b.time.frac
    }
}

fn dt_le_exec(a: &DateTime, b: &DateTime) -> (r: bool)
    ensures
        r == dt_le(*a, *b),
{
    if a.date.year != b.date.year {
        a.date.year < b.date.year
    } else if a.date.month != b.date.month {
        a.date.month < b.date.month
    } else if a.date.day != b.date.day {
        a.date.day < b.date.day
    } else if a.time.secs != b.time.secs {
        a.time.secs < b.time.secs
    } else {
        a.time.frac <= b.time.frac
    }
}

/// The format the editor's date and time fields are read with.
pub open spec fn editor_stamp_format() -> Seq<char> {
    "%Y-%m-%dT%H:%M"@
}

/// The date-time a date field and a time field give.
pub open spec fn editor_stamp(date: Seq<char>, time: Seq<char>) -> Result<DateTime, Seq<char>> {
    parsed_datetime(date + "T"@ + time, editor_stamp_format())
}

/// The start and end an editor gives, its date-time fields having read as
/// `start` and `end`, or why it gives none: a title is required, both
/// date-times must have read, and the end must come after the start.
pub open spec fn editor_times_from(
    e: EditorView,
    start: Result<DateTime, Seq<char>>,
    end: Result<DateTime, Seq<char>>,
) -> Result<(DateTime, DateTime), Seq<char>> {
    if e.title.len() == 0 {
        Err("Title is required"@)
    } else {
        match start {
            Err(x) => Err("Invalid start: "@ + x),
            Ok(s) => match end {
                Err(x) => Err("Invalid end: "@ + x),
                Ok(t) => if dt_le(t, s) {
                    Err("End time must be after start time"@)
                } else {
                    Ok((s, t))
                },
            },
        }
    }
}

/// The start and end an editor gives, or why it gives none.
pub open spec fn editor_times(e: EditorView) -> Result<(DateTime, DateTime), Seq<char>> {
    editor_times_from(
        e,
        editor_stamp(e.start_date, e.start_time),
        editor_stamp(e.end_date, e.end_time),
    )
}

/// The recurrence frequency an editor asks for: none when the field is
/// empty or names no frequency (in any case).
pub open spec fn editor_frequency(e: EditorView) -> Option<Frequency> {
    if e.recurrence.len() == 0 {
        None
    } else {
        Frequency::from_lowercase_spec(str_lowercase(e.recurrence))
    }
}

/// The location an editor gives: none when the field is empty.
pub open spec fn editor_location(e: EditorView) -> Option<Seq<char>> {
    if e.location.len() == 0 {
        None
    } else {
        Some(e.location)
    }
}

/// A recurrence rule with frequency `f` and the defaults otherwise.
pub open spec fn default_rule(f: Frequency) -> RuleView {
    RuleView { freq: f, interval: 1, count: None, until: None, by_weekday: seq![] }
}

pub open spec fn rule_opt_view(r: Option<RecurrenceRule>) -> Option<RuleView> {
    match r {
        Some(x) => Some(x@),
        None => None,
    }
}

/// What the editor's fields give for an event.
pub struct EditorFields {
    pub start: DateTime,
    pub end: DateTime,
    pub location: Option<String>,
    pub calendar: String,
    pub recurrence: Option<RecurrenceRule>,
}

impl EditorFields {
    /// Whether these are the fields that the editor `e` gives.
    pub open spec fn of(self, e: EditorView) -> bool {
        &&& editor_times(e) == Ok::<(DateTime, DateTime), Seq<char>>((self.start, self.end))
        &&& opt_string_view(self.location) == editor_location(e)
        &&& self.calendar@ == e.calendar
        &&& rule_opt_view(self.recurrence) == match editor_frequency(e) {
            Some(f) => Some(default_rule(f)),
            None => None,
        }
    }
}

impl EditorState {
    /// Read the editor's fields for saving: `Err` with the reason when there
    /// is no title, a date-time does not read as `YYYY-MM-DDTHH:MM`, or the
    /// end is not after the start.
    pub fn fields(&self) -> (r: Result<EditorFields, String>)
        ensures
            match r {
                Ok(f) => f.of(self@),
                Err(m) => editor_times(self@) == Err::<(DateTime, DateTime), Seq<char>>(m@),
            },
    {
        let mut start_text = self.start_date.clone();
        start_text.append("T");
        start_text.append(self.start_time.as_str());
        let start = DateTime::parse(start_text.as_str(), "%Y-%m-%dT%H:%M");
        let mut end_text = self.end_date.clone();
        end_text.append("T");
        end_text.append(self.end_time.as_str());
        let end = DateTime::parse(end_text.as_str(), "%Y-%m-%dT%H:%M");
        self.fields_from(start, end)
    }

    /// The editor's fields for saving, its start and end fields having read
    /// as `start` and `end`.
    pub fn fields_from(&self, start: Result<DateTime, String>, end: Result<DateTime, String>) -> (r:
        Result<EditorFields, String>)
        ensures
            match r {
                Ok(f) => {
                    &&& editor_times_from(self@, datetime_result_view(start), datetime_result_view(end))
                        == Ok::<(DateTime, DateTime), Seq<char>>((f.start, f.end))
                    &&& opt_string_view(f.location) == editor_location(self@)
                    &&& f.calendar@ == self@.calendar
                    &&& rule_opt_view(f.recurrence) == match editor_frequency(self@) {
                        Some(q) => Some(default_rule(q)),
                        None => None,
                    }
                },
                Err(m) => editor_times_from(
                    self@,
                    datetime_result_view(start),
                    datetime_result_view(end),
                ) == Err::<(DateTime, DateTime), Seq<char>>(m@),
            },
    {
        if self.title.unicode_len() == 0 {
            return Err(String::from_str("Title is required"));
        }
        let start = match start {
            Ok(x) => x,
            Err(e) => {
                return Err(concat("Invalid start: ", e.as_str()));
            },
        };
        let end = match end {
            Ok(x) => x,
            Err(e) => {
                return Err(concat("Invalid end: ", e.as_str()));
            },
        };
        if dt_le_exec(&end, &start) {
            return Err(String::from_str("End time must be after start time"));
        }
        let recurrence = if self.recurrence.unicode_len() == 0 {
            None
        } else {
            let l = lowercase(self.recurrence.as_str());
            match Frequency::from_lowercase(l.as_str()) {
                Some(f) => {
                    let mut rule = RecurrenceRule::default();
                    rule.freq = f;
                    assert(rule.by_weekday@ =~= Seq::<u8>::empty());
                    assert(rule@ == default_rule(f));
                    Some(rule)
                },
                None => None,
            }
        };
        let location = if self.location.unicode_len() == 0 {
            None
        } else {
            Some(self.location.clone())
        };
        Ok(EditorFields { start, end, location, calendar: self.calendar.clone(), recurrence })
    }

    /// The new event the editor describes: a fresh id, the editor's title
    /// and fields, no description, color or reminders.
    pub fn new_event(&self, fields: EditorFields) -> (r: Event)
        ensures
            is_hyphenated_uuid(r@.id),
            r@ == (EventView {
                id: r@.id,
                title: self.title@,
                description: None,
                start: fields.start,
                end: fields.end,
                location: opt_string_view(fields.location),
                calendar: fields.calendar@,
                color: None,
                reminders: seq![],
                recurrence: rule_opt_view(fields.recurrence),
            }),
    {
        let mut event = Event::new(self.title.clone(), fields.start, fields.end);
        event.location = fields.location;
        event.calendar = fields.calendar;
        event.recurrence = fields.recurrence;
        assert(event@.reminders =~= Seq::<i32>::empty());
        event
    }

    /// Update a stored event with the editor's title and fields; its id,
    /// description, color and reminders stay.
    pub fn update_event(&self, event: &mut Event, fields: EditorFields)
        ensures
            final(event)@ == (EventView {
                title: self.title@,
                start: fields.start,
                end: fields.end,
                location: opt_string_view(fields.location),
                calendar: fields.calendar@,
                recurrence: rule_opt_view(fields.recurrence),
                ..old(event)@
            }),
    {
        event.title = self.title.clone();
        event.start = fields.start;
        event.end = fields.end;
        event.location = fields.location;
        event.calendar = fields.calendar;
        event.recurrence = fields.recurrence;
    }
}

/// The status message after saving an event: `Updated: <title>` for an
/// existing event, `Created: <title>` for a new one.
pub fn saved_message(updated: bool, title: &str) -> (r: String)
    ensures
        r@ == (if updated {
            "Updated: "@
        } else {
            "Created: "@
        }) + title@,
{
    if updated {
        concat("Updated: ", title)
    } else {
        concat("Created: ", title)
    }
}

/// The reason a save failed at the store: `<step> failed: <error>`.
pub fn store_failure(step: &str, e: &EventStoreError) -> (r: String)
    ensures
        r@ == step@ + " failed: "@ + error_text(*e),
{
    let mut s = String::from_str(step);
    s.append(" failed: ");
    let m = e.message();
    s.append(m.as_str());
    s
}

/// For date-times on valid dates (a time read from text may hold a leap
/// second), the editor's ordering is that of the days, then of the times
/// within a day.
pub proof fn lemma_dt_le_by_day(a: DateTime, b: DateTime)
    requires
        a.date.wf(),
        b.date.wf(),
    ensures
        dt_le(a, b) <==> (a.date.num() < b.date.num() || (a.date.num() == b.date.num() && (
        a.time.secs < b.time.secs || (a.time.secs == b.time.secs && a.time.frac
            <= b.time.frac)))),
{
    if ymd_lt(
        a.date.year as int,
        a.date.month as int,
        a.date.day as int,
        b.date.year as int,
        b.date.month as int,
        b.date.day as int,
    ) {
        lemma_day_number_order(a.date, b.date);
    } else if ymd_lt(
        b.date.year as int,
        b.date.month as int,
        b.date.day as int,
        a.date.year as int,
        a.date.month as int,
        a.date.day as int,
    ) {
        lemma_day_number_order(b.date, a.date);
    } else {
        assert(a.date == b.date);
    }
}

/// For valid date-times the editor's ordering is that of their timestamps.
pub proof fn lemma_dt_le_by_timestamp(a: DateTime, b: DateTime)
    requires
        a.wf(),
        b.wf(),
    ensures
        dt_le(a, b) <==> ts(a) <= ts(b),
{
    lemma_dt_le_by_day(a, b);
    lemma_ts_order(a, b);
}

/// With a title and both date-times read as valid date-times, the editor
/// gives exactly those times when the end comes after the start, and
/// refuses them exactly when it does not.
pub proof fn lemma_editor_times_order(e: EditorView, start: DateTime, end: DateTime)
    requires
        e.title.len() > 0,
        start.wf(),
        end.wf(),
    ensures
        ts(start) < ts(end) ==> editor_times_from(
            e,
            Ok::<DateTime, Seq<char>>(start),
            Ok::<DateTime, Seq<char>>(end),
        ) == Ok::<(DateTime, DateTime), Seq<char>>((start, end)),
        ts(end) <= ts(start) ==> editor_times_from(
            e,
            Ok::<DateTime, Seq<char>>(start),
            Ok::<DateTime, Seq<char>>(end),
        ) == Err::<(DateTime, DateTime), Seq<char>>("End time must be after start time"@),
{
    lemma_dt_le_by_timestamp(end, start);
}

} // verus!
