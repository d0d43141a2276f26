//! Event data model, occurrence expansion and the pure parts of the event
//! store: ordering stored events, expanding them over a query range, and the
//! windows that day and look-ahead queries cover.

use vstd::prelude::*;

use crate::datetime::{
    date_at, datetime_at, day_in_range, lemma_datetime_at, lemma_date_at, lemma_ts_day_shift, lemma_ts_order, lemma_valid_in_range,
    local_today, nanos_per_day, ts, Date, DateTime, Delta, Time,
};
use crate::recurrence::{RecurrenceRule, RuleView};
use crate::seqs::{keep, lemma_keep_append, lemma_keep_none, lemma_keep_single};
use crate::text::concat;

verus! {

/// A calendar event.
pub struct Event {
    /// Unique event identifier.
    pub id: String,
    /// Event title/summary.
    pub title: String,
    /// Optional description.
    pub description: Option<String>,
    /// Start date-time.
    pub start: DateTime,
    /// End date-time.
    pub end: DateTime,
    /// Optional location.
    pub location: Option<String>,
    /// Calendar name this event belongs to.
    pub calendar: String,
    /// Display color (hex string like "#88c0d0").
    pub color: Option<String>,
    /// Reminder offsets in minutes before the event.
    pub reminders: Vec<i32>,
    /// Optional recurrence rule.
    pub recurrence: Option<RecurrenceRule>,
}

/// What an event is: its fields, with strings and lists as sequences.
pub struct EventView {
    pub id: Seq<char>,
    pub title: Seq<char>,
    pub description: Option<Seq<char>>,
    pub start: DateTime,
    pub end: DateTime,
    pub location: Option<Seq<char>>,
    pub calendar: Seq<char>,
    pub color: Option<Seq<char>>,
    pub reminders: Seq<i32>,
    pub recurrence: Option<RuleView>,
}

pub open spec fn opt_string_view(s: Option<String>) -> Option<Seq<char>> {
    match s {
        Some(x) => Some(x@),
        None => None,
    }
}

impl View for Event {
    type V = EventView;

    open spec fn view(&self) -> EventView {
        EventView {
            id: self.id@,
            title: self.title@,
            description: opt_string_view(self.description),
            start: self.start,
            end: self.end,
            location: opt_string_view(self.location),
            calendar: self.calendar@,
            color: opt_string_view(self.color),
            reminders: self.reminders@,
            recurrence: match self.recurrence {
                Some(r) => Some(r@),
                None => None,
            },
        }
    }
}

/// A copy of an optional string.
pub fn copy_opt_string(s: &Option<String>) -> (r: Option<String>)
    ensures
        opt_string_view(r) == opt_string_view(*s),
{
    match s {
        Some(x) => Some(x.clone()),
        None => None,
    }
}

/// The name of the calendar an event belongs to when none is given.
pub fn default_calendar() -> (r: String)
    ensures
        r@ == "default"@,
{
    String::from_str("default")
}

/// Whether `s` has the form of a hyphenated lowercase UUID.
pub open spec fn is_hyphenated_uuid(s: Seq<char>) -> bool {
    &&& s.len() == 36
    &&& forall|i: int|
        0 <= i < 36 ==> if i == 8 || i == 13 || i == 18 || i == 23 {
            #[trigger] s[i] == '-'
        } else {
            ('0' <= s[i] <= '9') || ('a' <= s[i] <= 'f')
        }
}

/// `uuid::Uuid::new_v4().to_string()`: a fresh random identifier. What it is
/// depends on chance; every outcome is a UUID in its hyphenated lowercase form.
#[verifier::external_body]
fn new_uuid_string() -> (r: String)
    ensures
        is_hyphenated_uuid(r@),
{
    uuid::Uuid::new_v4().to_string()
}

impl EventView {
    pub open spec fn wf(self) -> bool {
        &&& self.start.wf()
        &&& self.end.wf()
        &&& (self.recurrence matches Some(r) ==> r.wf())
    }

    /// Start times of the occurrences within `[range_start, range_end)`: those
    /// of the recurrence rule, or for a one-off event its start when it
    /// falls in that range.
    pub open spec fn occurrences_spec(self, range_start: DateTime, range_end: DateTime) -> Seq<
        DateTime,
    > {
        match self.recurrence {
            Some(rule) => rule.occurrences_spec(self.start, range_start, range_end),
            None => if ts(range_start) <= ts(self.start) < ts(range_end) {
                seq![self.start]
            } else {
                seq![]
            },
        }
    }

    /// Whether expanding the event over a range ending at `range_end` stays
    /// within the supported dates.
    pub open spec fn expansion_defined(self, range_end: DateTime) -> bool {
        self.recurrence matches Some(rule) ==> rule.expansion_defined(self.start, range_end)
    }

    /// Length of the event in nanoseconds.
    pub open spec fn duration_nanos(self) -> int {
        ts(self.end) - ts(self.start)
    }

    /// Timestamp from which an occurrence lasting as long as the event
    /// reaches midnight at the start of `date`.
    pub open spec fn overlap_window_start(self, date: Date) -> int {
        ts(day_start(date)) - self.duration_nanos()
    }
}

/// Midnight at the start of `date`.
pub open spec fn day_start(date: Date) -> DateTime {
    DateTime { date, time: Time { secs: 0, frac: 0 } }
}

/// The last whole second of `date` (23:59:59).
pub open spec fn day_end(date: Date) -> DateTime {
    DateTime { date, time: Time { secs: 86_399, frac: 0 } }
}

/// One nanosecond after 23:59:59 on `date`: an occurrence starting before it
/// starts no later than that second.
pub open spec fn after_day_end(date: Date) -> DateTime {
    DateTime { date, time: Time { secs: 86_399, frac: 1 } }
}

/// Midnight at the start of the day after `date`.
pub open spec fn next_day_start(date: Date) -> DateTime {
    DateTime { date: date_at(date.num() + 1), time: Time { secs: 0, frac: 0 } }
}

/// Query window of a day: `[date 00:00:00, date 23:59:59 + 1 second)`.
pub fn day_window(date: Date) -> (r: Option<(DateTime, DateTime)>)
    requires
        date.wf(),
    ensures
        r is Some <==> day_in_range(date.num() + 1),
        r matches Some(w) ==> w.0 == day_start(date) && w.1 == next_day_start(date) && w.1.wf(),
{
    let start = DateTime::new(date, Time::midnight());
    let last = DateTime::new(date, Time { secs: 86_399, frac: 0 });
    assert(ts(last) + 1_000_000_000 == ts(start) + nanos_per_day());
    assert((ts(last) + 1_000_000_000) / nanos_per_day() == date.num() + 1) by {
        assert(ts(start) == date.num() * nanos_per_day());
        assert(ts(last) + 1_000_000_000 == (date.num() + 1) * nanos_per_day());
    }
    match last.checked_add(Delta::seconds(1)) {
        Some(end) => {
            proof {
                lemma_ts_day_shift(end, start, 1);
                lemma_date_at(end.date);
            }
            Some((start, end))
        },
        None => None,
    }
}

impl Event {
    /// Create a new event with a generated UUID, in the default calendar,
    /// with no description, location, color, reminders or recurrence.
    pub fn new(title: String, start: DateTime, end: DateTime) -> (r: Self)
        ensures
            is_hyphenated_uuid(r@.id),
            r@.title == title@,
            r.start == start,
            r.end == end,
            r.description is None,
            r.location is None,
            r@.calendar == "default"@,
            r.color is None,
            r@.reminders.len() == 0,
            r.recurrence is None,
    {
        Event {
            id: new_uuid_string(),
            title,
            description: None,
            start,
            end,
            location: None,
            calendar: String::from_str("default"),
            color: None,
            reminders: Vec::new(),
            recurrence: None,
        }
    }

    /// A copy of this event.
    pub fn copy(&self) -> (r: Event)
        ensures
            r@ == self@,
    {
        let recurrence = match &self.recurrence {
            Some(rule) => Some(rule.copy()),
            None => None,
        };
        let mut reminders: Vec<i32> = Vec::new();
        let n = self.reminders.len();
        let mut i: usize = 0;
        while i < n
            invariant
                n == self.reminders@.len(),
                i <= n,
                reminders@ == self.reminders@.subrange(0, i as int),
            decreases n - i,
        {
            reminders.push(self.reminders[i]);
            i += 1;
        }
        assert(reminders@ == self.reminders@);
        Event {
            id: self.id.clone(),
            title: self.title.clone(),
            description: copy_opt_string(&self.description),
            start: self.start,
            end: self.end,
            location: copy_opt_string(&self.location),
            calendar: self.calendar.clone(),
            color: copy_opt_string(&self.color),
            reminders,
            recurrence,
        }
    }

    /// Duration of the event.
    pub fn duration(&self) -> (r: Delta)
        requires
            self@.wf(),
        ensures
            r.wf(),
            r.value() == self@.duration_nanos(),
    {
        self.end.signed_duration_since(&self.start)
    }

    /// Check if this event (or any recurrence) overlaps with the given date:
    /// some occurrence starts no later than 23:59:59 on it and ends no
    /// earlier than its midnight, as for a one-off event.
    pub fn occurs_on(&self, date: Date) -> (r: bool)
        requires
            self@.wf(),
            date.wf(),
            self.recurrence is Some ==> day_in_range(
                self@.overlap_window_start(date) / nanos_per_day(),
            ) && self@.expansion_defined(after_day_end(date)),
        ensures
            r == (match self@.recurrence {
                Some(rule) => rule.occurrences_spec(
                    self.start,
                    datetime_at(self@.overlap_window_start(date)),
                    after_day_end(date),
                ).len() > 0,
                None => ts(self.start) <= ts(day_end(date)) && ts(self.end) >= ts(day_start(date)),
            }),
    {
        let day_begin = DateTime::new(date, Time::midnight());
        let day_last = DateTime::new(date, Time { secs: 86_399, frac: 0 });
        match &self.recurrence {
            Some(rule) => {
                let back = self.start.signed_duration_since(&self.end);
                match day_begin.checked_add(back) {
                    Some(window_start) => {
                        proof {
                            lemma_datetime_at(window_start);
                        }
                        let window_end = DateTime::new(date, Time { secs: 86_399, frac: 1 });
                        match rule.checked_occurrences(self.start, window_start, window_end) {
                            Some(occurrences) => occurrences.len() != 0,
                            None => false,
                        }
                    },
                    None => false,
                }
            },
            None => self.start.le(&day_last) && day_begin.le(&self.end),
        }
    }

    /// Get all occurrence start times within a date range.
    /// For non-recurring events, returns the single start time if it falls in
    /// range.
    pub fn occurrences_in_range(&self, range_start: DateTime, range_end: DateTime) -> (r: Vec<
        DateTime,
    >)
        requires
            self@.wf(),
            range_start.wf(),
            range_end.wf(),
            self@.expansion_defined(range_end),
        ensures
            r@ == self@.occurrences_spec(range_start, range_end),
    {
        match self.checked_occurrences_in_range(range_start, range_end) {
            Some(v) => v,
            None => Vec::new(),
        }
    }

    /// The occurrences as `occurrences_in_range` computes them, or `None`
    /// on the inputs where expansion would leave the supported dates.
    pub fn checked_occurrences_in_range(&self, range_start: DateTime, range_end: DateTime) -> (r:
        Option<Vec<DateTime>>)
        requires
            self@.wf(),
            range_start.wf(),
            range_end.wf(),
        ensures
            r is Some <==> self@.expansion_defined(range_end),
            r matches Some(v) ==> v@ == self@.occurrences_spec(range_start, range_end) && (forall|
                i: int,
            | 0 <= i < v@.len() ==> (#[trigger] v@[i]).wf()),
    {
        match &self.recurrence {
            Some(rule) => rule.checked_occurrences(self.start, range_start, range_end),
            None => {
                if range_start.le(&self.start) && self.start.lt(&range_end) {
                    let mut v = Vec::new();
                    v.push(self.start);
                    Some(v)
                } else {
                    Some(Vec::new())
                }
            },
        }
    }
}

/// An expanded event occurrence (for rendering).
/// This represents a single occurrence of a potentially recurring event.
pub struct EventOccurrence {
    /// The original event.
    pub event: Event,
    /// The start time of this specific occurrence.
    pub occurrence_start: DateTime,
    /// The end time of this specific occurrence.
    pub occurrence_end: DateTime,
}

/// What an occurrence is.
pub struct OccurrenceView {
    pub event: EventView,
    pub start: DateTime,
    pub end: DateTime,
}

impl View for EventOccurrence {
    type V = OccurrenceView;

    open spec fn view(&self) -> OccurrenceView {
        OccurrenceView {
            event: self.event@,
            start: self.occurrence_start,
            end: self.occurrence_end,
        }
    }
}

/// Values with a start time, by which they are ordered.
pub trait Timed: View + Sized {
    /// The start time of a value with view `v`.
    spec fn key_of(v: Self::V) -> DateTime;

    /// The start time.
    fn start_time(&self) -> (r: DateTime)
        ensures
            r == Self::key_of(self@),
    ;
}

impl Timed for Event {
    open spec fn key_of(v: EventView) -> DateTime {
        v.start
    }

    fn start_time(&self) -> (r: DateTime) {
        self.start
    }
}

impl Timed for EventOccurrence {
    open spec fn key_of(v: OccurrenceView) -> DateTime {
        v.start
    }

    fn start_time(&self) -> (r: DateTime) {
        self.occurrence_start
    }
}

/// The views of a sequence of values.
pub open spec fn views<T: View>(s: Seq<T>) -> Seq<T::V> {
    s.map_values(|x: T| x@)
}

/// Whether the values are in order of start time.
pub open spec fn sorted_by_start<T: Timed>(s: Seq<T::V>) -> bool {
    forall|i: int, j: int| 0 <= i < j < s.len() ==> ts(T::key_of(s[i])) <= ts(T::key_of(s[j]))
}

/// Whether every value has a valid start time.
pub open spec fn all_keys_wf<T: Timed>(s: Seq<T::V>) -> bool {
    forall|i: int| 0 <= i < s.len() ==> (#[trigger] T::key_of(s[i])).wf()
}

/// The values of `s` that start at `k`, in order.
pub open spec fn starting_at<T: Timed>(s: Seq<T::V>, k: DateTime) -> Seq<T::V> {
    keep(s, starts_at::<T>(k))
}

/// Whether a value starts at `k`.
pub open spec fn starts_at<T: Timed>(k: DateTime) -> spec_fn(T::V) -> bool {
    |x: T::V| T::key_of(x) == k
}

/// Inserting the first remaining value at a place before which no value
/// starts later and after which every value starts later keeps, for every
/// start time, the order of the values starting then.
proof fn lemma_insert_stable<T: Timed>(vb: Seq<T::V>, vrb: Seq<T::V>, p: int, k: DateTime)
    requires
        0 <= p <= vb.len(),
        vrb.len() > 0,
        forall|i: int| p <= i < vb.len() ==> ts(T::key_of(vrb[0])) < ts(T::key_of(#[trigger] vb[i])),
    ensures
        starting_at::<T>(vb.insert(p, vrb[0]), k) + starting_at::<T>(vrb.remove(0), k)
            == starting_at::<T>(vb, k) + starting_at::<T>(vrb, k),
{
    let e = vrb[0];
    let pk = starts_at::<T>(k);
    let a = vb.take(p);
    let b = vb.skip(p);
    let rest = vrb.remove(0);
    assert(vb =~= a + b);
    assert(vb.insert(p, e) =~= (a + seq![e]) + b);
    assert(vrb =~= seq![e] + rest);
    assert(starting_at::<T>(vb, k) == keep(vb, pk));
    assert(starting_at::<T>(vrb, k) == keep(vrb, pk));
    assert(starting_at::<T>(rest, k) == keep(rest, pk));
    assert(starting_at::<T>(vb.insert(p, e), k) == keep(vb.insert(p, e), pk));
    lemma_keep_append(a, b, pk);
    lemma_keep_append(a + seq![e], b, pk);
    lemma_keep_append(a, seq![e], pk);
    lemma_keep_append(seq![e], rest, pk);
    lemma_keep_single(e, pk);
    let ka = keep(a, pk);
    let kb = keep(b, pk);
    let ke = keep(seq![e], pk);
    let kr = keep(rest, pk);
    assert(keep(vb.insert(p, e), pk) == ka + ke + kb);
    assert(keep(vb, pk) == ka + kb);
    assert(keep(vrb, pk) == ke + kr);
    if T::key_of(e) == k {
        assert forall|i: int| 0 <= i < b.len() implies !pk(#[trigger] b[i]) by {
            assert(b[i] == vb[p + i]);
        }
        lemma_keep_none(b, pk);
        assert(kb =~= Seq::<T::V>::empty());
        assert(ka + ke + kb + kr =~= ka + kb + (ke + kr));
    } else {
        assert(ke =~= Seq::<T::V>::empty());
        assert(ka + ke + kb + kr =~= ka + kb + (ke + kr));
    }
}

/// Sort values by start time. Values with equal start times keep their
/// relative order.
pub fn sort_by_start<T: Timed>(v: Vec<T>) -> (r: Vec<T>)
    requires
        all_keys_wf::<T>(views(v@)),
    ensures
        r@.len() == v@.len(),
        views(r@).to_multiset() == views(v@).to_multiset(),
        sorted_by_start::<T>(views(r@)),
        all_keys_wf::<T>(views(r@)),
        forall|k: DateTime| #[trigger] starting_at::<T>(views(r@), k) == starting_at::<T>(views(v@), k),
{
    broadcast use vstd::seq_lib::group_to_multiset_ensures;

    let ghost orig = views(v@);
    let mut rest = v;
    let mut sorted: Vec<T> = Vec::new();
    while rest.len() > 0
        invariant
            views(sorted@).to_multiset().add(views(rest@).to_multiset()) == orig.to_multiset(),
            sorted_by_start::<T>(views(sorted@)),
            all_keys_wf::<T>(views(sorted@)),
            all_keys_wf::<T>(views(rest@)),
            sorted@.len() + rest@.len() == orig.len(),
            forall|i: int| 0 <= i < sorted@.len() ==> T::key_of((#[trigger] sorted@[i])@).wf(),
            forall|k: DateTime|
                #[trigger] starting_at::<T>(views(sorted@), k) + starting_at::<T>(views(rest@), k)
                    == starting_at::<T>(orig, k),
        decreases rest@.len(),
    {
        let ghost rest_before = rest@;
        let e = rest.remove(0);
        assert(views(rest@) =~= views(rest_before).remove(0));
        assert(views(rest_before)[0] == e@);
        let key = e.start_time();
        assert(key.wf()) by {
            assert(T::key_of(views(rest_before)[0]).wf());
        }
        let mut p: usize = 0;
        while p < sorted.len() && sorted[p].start_time().le(&key)
            invariant
                p <= sorted@.len(),
                key.wf(),
                all_keys_wf::<T>(views(sorted@)),
                forall|i: int| 0 <= i < sorted@.len() ==> T::key_of((#[trigger] sorted@[i])@).wf(),
                forall|i: int| 0 <= i < p ==> ts(T::key_of(#[trigger] views(sorted@)[i])) <= ts(key),
            decreases sorted@.len() - p,
        {
            assert(T::key_of(views(sorted@)[p as int]).wf());
            p += 1;
        }
        assert(p < sorted@.len() ==> ts(key) < ts(T::key_of(views(sorted@)[p as int]))) by {
            if p < sorted@.len() {
                assert(T::key_of(views(sorted@)[p as int]).wf());
            }
        }
        let ghost sorted_before = sorted@;
        sorted.insert(p, e);
        assert(views(sorted@) =~= views(sorted_before).insert(p as int, e@));
        proof {
            vstd::seq_lib::to_multiset_insert(views(sorted_before), p as int, e@);
            vstd::seq_lib::to_multiset_remove(views(rest_before), 0);
            assert(views(sorted@).to_multiset() == views(sorted_before).to_multiset().insert(e@));
            assert(views(rest@).to_multiset() == views(rest_before).to_multiset().remove(e@));
            assert(views(rest_before).contains(e@));
            vstd::seq_lib::to_multiset_contains(views(rest_before), e@);
            assert(views(rest_before).to_multiset().count(e@) > 0);
            assert(views(sorted@).to_multiset().add(views(rest@).to_multiset()) =~= views(
                sorted_before,
            ).to_multiset().add(views(rest_before).to_multiset()));
        }
        assert forall|k: DateTime|
            #[trigger] starting_at::<T>(views(sorted@), k) + starting_at::<T>(views(rest@), k)
                == starting_at::<T>(orig, k) by {
            let vb = views(sorted_before);
            assert forall|i: int| p <= i < vb.len() implies ts(T::key_of(views(rest_before)[0])) < ts(
                T::key_of(#[trigger] vb[i]),
            ) by {
                if i > p {
                    assert(ts(T::key_of(vb[p as int])) <= ts(T::key_of(vb[i])));
                }
            }
            lemma_insert_stable::<T>(vb, views(rest_before), p as int, k);
            assert(starting_at::<T>(views(sorted_before), k) + starting_at::<T>(views(rest_before), k)
                == starting_at::<T>(orig, k));
        }
        assert(sorted_by_start::<T>(views(sorted@))) by {
            let vs = views(sorted@);
            let vb = views(sorted_before);
            assert forall|i: int, j: int| 0 <= i < j < vs.len() implies ts(T::key_of(vs[i])) <= ts(
                T::key_of(vs[j]),
            ) by {
                if j < p {
                } else if j == p {
                    assert(vs[i] == vb[i]);
                } else if i < p {
                    assert(vs[j] == vb[j - 1]);
                    assert(vs[i] == vb[i]);
                    assert(ts(T::key_of(vb[i])) <= ts(key));
                } else if i == p {
                    assert(vs[j] == vb[j - 1]);
                    assert(ts(key) < ts(T::key_of(vb[p as int])));
                } else {
                    assert(vs[j] == vb[j - 1]);
                    assert(vs[i] == vb[i - 1]);
                }
            }
        }
        assert(all_keys_wf::<T>(views(sorted@))) by {
            let vs = views(sorted@);
            let vb = views(sorted_before);
            assert forall|i: int| 0 <= i < vs.len() implies (#[trigger] T::key_of(vs[i])).wf() by {
                if i < p {
                    assert(vs[i] == vb[i]);
                } else if i > p {
                    assert(vs[i] == vb[i - 1]);
                }
            }
        }
        assert forall|i: int| 0 <= i < sorted@.len() implies T::key_of(
            (#[trigger] sorted@[i])@,
        ).wf() by {
            assert(views(sorted@)[i] == sorted@[i]@);
        }
        assert(all_keys_wf::<T>(views(rest@))) by {
            let vr = views(rest@);
            let vrb = views(rest_before);
            assert forall|i: int| 0 <= i < vr.len() implies (#[trigger] T::key_of(vr[i])).wf() by {
                assert(vr[i] == vrb[i + 1]);
            }
        }
    }
    assert(views(rest@) =~= Seq::<T::V>::empty());
    assert forall|k: DateTime| #[trigger] starting_at::<T>(views(sorted@), k) == starting_at::<T>(
        views(v@),
        k,
    ) by {
        assert(starting_at::<T>(views(rest@), k) =~= Seq::<T::V>::empty());
        assert(starting_at::<T>(views(sorted@), k) + starting_at::<T>(views(rest@), k)
            =~= starting_at::<T>(views(sorted@), k));
    }
    sorted
}

/// The occurrence at `start` of an event with view `e`.
pub open spec fn occurrence_at(e: EventView, start: DateTime) -> OccurrenceView {
    OccurrenceView { event: e, start, end: datetime_at(ts(start) + e.duration_nanos()) }
}

/// The occurrences of one event within `[range_start, range_end)`, in order.
pub open spec fn event_occurrences(e: EventView, range_start: DateTime, range_end: DateTime) -> Seq<
    OccurrenceView,
> {
    e.occurrences_spec(range_start, range_end).map_values(|o: DateTime| occurrence_at(e, o))
}

/// The occurrences of a list of events, event by event.
pub open spec fn all_occurrences(evs: Seq<EventView>, range_start: DateTime, range_end: DateTime) -> Seq<
    OccurrenceView,
>
    decreases evs.len(),
{
    if evs.len() == 0 {
        seq![]
    } else {
        all_occurrences(evs.drop_last(), range_start, range_end) + event_occurrences(
            evs.last(),
            range_start,
            range_end,
        )
    }
}

/// Whether expanding an event over the range stays within the supported
/// dates, occurrence ends included.
pub open spec fn event_expandable(e: EventView, range_start: DateTime, range_end: DateTime) -> bool {
    &&& e.expansion_defined(range_end)
    &&& forall|i: int|
        0 <= i < e.occurrences_spec(range_start, range_end).len() ==> day_in_range(
            (ts(#[trigger] e.occurrences_spec(range_start, range_end)[i]) + e.duration_nanos())
                / nanos_per_day(),
        )
}

/// Query events that occur within a range, expanding recurrences: every
/// occurrence of every event within `[start, end)`, with its end time,
/// ordered by occurrence start. `None` on the inputs where the date
/// arithmetic leaves the supported dates.
pub fn query_range(events: &Vec<Event>, start: DateTime, end: DateTime) -> (r: Option<
    Vec<EventOccurrence>,
>)
    requires
        forall|i: int| 0 <= i < events@.len() ==> (#[trigger] events@[i])@.wf(),
        start.wf(),
        end.wf(),
    ensures
        r is Some <==> forall|i: int|
            0 <= i < events@.len() ==> event_expandable(#[trigger] events@[i]@, start, end),
        r matches Some(v) ==> {
            &&& views(v@).to_multiset() == all_occurrences(views(events@), start, end).to_multiset()
            &&& sorted_by_start::<EventOccurrence>(views(v@))
            &&& forall|k: int|
                0 <= k < v@.len() ==> (#[trigger] v@[k])@.event.wf()
                    && v@[k].occurrence_start.wf()
            &&& forall|t: DateTime|
                #[trigger] starting_at::<EventOccurrence>(views(v@), t) == starting_at::<
                    EventOccurrence,
                >(all_occurrences(views(events@), start, end), t)
        },
{
    let ghost evs = views(events@);
    let mut acc: Vec<EventOccurrence> = Vec::new();
    let n = events.len();
    let mut i: usize = 0;
    while i < n
        invariant
            n == events@.len(),
            evs == views(events@),
            i <= n,
            start.wf(),
            end.wf(),
            forall|k: int| 0 <= k < events@.len() ==> (#[trigger] events@[k])@.wf(),
            forall|k: int| 0 <= k < i ==> event_expandable(#[trigger] events@[k]@, start, end),
            views(acc@) == all_occurrences(evs.take(i as int), start, end),
            forall|k: int|
                0 <= k < acc@.len() ==> (#[trigger] acc@[k]).occurrence_start.wf() && acc@[k]@.event.wf(),
        decreases n - i,
    {
        let event = &events[i];
        let ghost ev = event@;
        assert(evs[i as int] == ev);
        let occs = match event.checked_occurrences_in_range(start, end) {
            Some(o) => o,
            None => {
                assert(!event_expandable(events@[i as int]@, start, end));
                return None;
            },
        };
        let duration = event.duration();
        let m = occs.len();
        let mut j: usize = 0;
        let ghost acc_start = views(acc@);
        while j < m
            invariant
                m == occs@.len(),
                occs@ == ev.occurrences_spec(start, end),
                forall|k: int| 0 <= k < occs@.len() ==> (#[trigger] occs@[k]).wf(),
                duration.wf(),
                ev.wf(),
                duration.value() == ev.duration_nanos(),
                ev == event@,
                i < n,
                n == events@.len(),
                ev == events@[i as int]@,
                j <= m,
                views(acc@) == acc_start + event_occurrences(ev, start, end).take(j as int),
                forall|k: int| 0 <= k < j ==> day_in_range(
                    (ts(#[trigger] occs@[k]) + ev.duration_nanos()) / nanos_per_day(),
                ),
                forall|k: int|
                0 <= k < acc@.len() ==> (#[trigger] acc@[k]).occurrence_start.wf() && acc@[k]@.event.wf(),
            decreases m - j,
        {
            let occ_start = occs[j];
            let occ_end = match occ_start.checked_add(duration) {
                Some(e) => e,
                None => {
                    assert(!event_expandable(ev, start, end)) by {
                        assert(!day_in_range(
                            (ts(occs@[j as int]) + ev.duration_nanos()) / nanos_per_day(),
                        ));
                    }
                    assert(!event_expandable(events@[i as int]@, start, end));
                    return None;
                },
            };
            let ghost before = views(acc@);
            acc.push(EventOccurrence { event: event.copy(), occurrence_start: occ_start, occurrence_end: occ_end });
            proof {
                lemma_datetime_at(occ_end);
                assert(views(acc@) =~= before.push(occurrence_at(ev, occ_start)));
                assert(event_occurrences(ev, start, end).take(j + 1) =~= event_occurrences(
                    ev,
                    start,
                    end,
                ).take(j as int).push(occurrence_at(ev, occ_start)));
            }
            j += 1;
        }
        proof {
            assert(event_occurrences(ev, start, end).take(m as int) =~= event_occurrences(
                ev,
                start,
                end,
            ));
            assert(evs.take(i + 1).drop_last() =~= evs.take(i as int));
            assert(evs.take(i + 1).last() == ev);
            assert(event_expandable(ev, start, end));
        }
        i += 1;
    }
    assert(evs.take(n as int) =~= evs);
    let ghost va = views(acc@);
    let ghost acc_seq = acc@;
    let sorted = sort_by_start(acc);
    proof {
        broadcast use vstd::seq_lib::group_to_multiset_ensures;

        let vs = views(sorted@);
        assert forall|k: int| 0 <= k < sorted@.len() implies (#[trigger] sorted@[k])@.event.wf()
            && sorted@[k].occurrence_start.wf() by {
            assert(vs[k] == sorted@[k]@);
            assert(vs.contains(vs[k]));
            assert(vs.to_multiset().count(vs[k]) > 0);
            assert(va.contains(vs[k]));
            let j = va.index_of(vs[k]);
            assert(va[j] == acc_seq[j]@);
            assert(acc_seq[j].occurrence_start.wf() && acc_seq[j]@.event.wf());
        }
    }
    Some(sorted)
}

/// Whether every event of a list is well formed.
pub open spec fn all_events_wf(events: Seq<Event>) -> bool {
    forall|i: int| 0 <= i < events.len() ==> (#[trigger] events[i])@.wf()
}

/// Whether expanding every event over `[start, end)` stays within the
/// supported dates.
pub open spec fn all_expandable(events: Seq<Event>, start: DateTime, end: DateTime) -> bool {
    forall|i: int| 0 <= i < events.len() ==> event_expandable(#[trigger] events[i]@, start, end)
}

/// Query events for a specific date: the occurrences within
/// `[date 00:00:00, date 23:59:59 + 1 second)`.
pub fn query_date(events: &Vec<Event>, date: Date) -> (r: Option<Vec<EventOccurrence>>)
    requires
        all_events_wf(events@),
        date.wf(),
    ensures
        r is Some <==> day_in_range(date.num() + 1) && all_expandable(
            events@,
            day_start(date),
            next_day_start(date),
        ),
        r matches Some(v) ==> {
            &&& views(v@).to_multiset() == all_occurrences(
                views(events@),
                day_start(date),
                next_day_start(date),
            ).to_multiset()
            &&& sorted_by_start::<EventOccurrence>(views(v@))
            &&& forall|t: DateTime|
                #[trigger] starting_at::<EventOccurrence>(views(v@), t) == starting_at::<
                    EventOccurrence,
                >(all_occurrences(views(events@), day_start(date), next_day_start(date)), t)
        },
{
    match day_window(date) {
        Some((start, end)) => {
            proof {
                lemma_valid_in_range(date);
            }
            query_range(events, start, end)
        },
        None => None,
    }
}

/// Query events for today's local date.
pub fn today(events: &Vec<Event>) -> (r: Option<Vec<EventOccurrence>>)
    requires
        all_events_wf(events@),
    ensures
        exists|date: Date|
            call_ensures(local_today, (), date) && date.wf() && (r is Some <==> day_in_range(
                date.num() + 1,
            ) && all_expandable(
                events@,
                day_start(date),
                next_day_start(date),
            )) && (r matches Some(v) ==> views(v@).to_multiset() == all_occurrences(
                views(events@),
                day_start(date),
                next_day_start(date),
            ).to_multiset()),
{
    let date = local_today();
    query_date(events, date)
}

/// How far ahead `next_event` looks: 365 days.
pub open spec fn look_ahead_nanos() -> int {
    365 * nanos_per_day()
}

/// The next upcoming occurrence after `now`, looking ahead one year: the
/// occurrence with the earliest start among those within
/// `[now, now + 365 days)`, or `Some(None)` when there is none. `None` on the
/// inputs where the date arithmetic leaves the supported dates.
pub fn next_event(events: &Vec<Event>, now: DateTime) -> (r: Option<Option<EventOccurrence>>)
    requires
        all_events_wf(events@),
        now.wf(),
    ensures
        r is Some <==> day_in_range((ts(now) + look_ahead_nanos()) / nanos_per_day()) && all_expandable(
            events@,
            now,
            datetime_at(ts(now) + look_ahead_nanos()),
        ),
        r matches Some(first) ==> {
            let all = all_occurrences(
                views(events@),
                now,
                datetime_at(ts(now) + look_ahead_nanos()),
            );
            &&& (first is None <==> all.len() == 0)
            &&& first matches Some(o) ==> all.contains(o@) && (forall|j: int|
                0 <= j < all.len() ==> ts(o.occurrence_start) <= ts(#[trigger] all[j].start))
                && o@ == starting_at::<EventOccurrence>(all, o.occurrence_start)[0]
        },
{
    let end = match now.checked_add(Delta::days(365)) {
        Some(e) => e,
        None => {
            return None;
        },
    };
    proof {
        lemma_datetime_at(end);
    }
    let mut occs = match query_range(events, now, end) {
        Some(v) => v,
        None => {
            return None;
        },
    };
    let ghost all = all_occurrences(views(events@), now, end);
    let ghost v0 = views(occs@);
    let ghost t0 = if v0.len() > 0 { v0[0].start } else { now };
    assert(starting_at::<EventOccurrence>(v0, t0) == starting_at::<EventOccurrence>(all, t0));
    proof {
        broadcast use vstd::seq_lib::group_to_multiset_ensures;

        assert(v0.to_multiset().len() == v0.len());
        assert(all.to_multiset().len() == all.len());
        assert(v0.len() == all.len());
    }
    if occs.len() == 0 {
        return Some(None);
    }
    let first = occs.remove(0);
    proof {
        broadcast use vstd::seq_lib::group_to_multiset_ensures;

        assert(first@ == v0[0]);
        assert(v0.contains(v0[0]));
        assert(v0.to_multiset().count(first@) > 0);
        assert(all.contains(first@));
        assert forall|j: int| 0 <= j < all.len() implies ts(first.occurrence_start) <= ts(
            #[trigger] all[j].start,
        ) by {
            assert(all.contains(all[j]));
            assert(all.to_multiset().count(all[j]) > 0);
            assert(v0.contains(all[j]));
            let k = v0.index_of(all[j]);
            if k > 0 {
                assert(ts(EventOccurrence::key_of(v0[0])) <= ts(EventOccurrence::key_of(v0[k])));
            }
        }
        let pk = starts_at::<EventOccurrence>(t0);
        assert(v0 =~= seq![v0[0]] + v0.drop_first());
        lemma_keep_append(seq![v0[0]], v0.drop_first(), pk);
        lemma_keep_single(v0[0], pk);
        assert(starting_at::<EventOccurrence>(v0, t0)[0] == v0[0]);
    }
    Some(Some(first))
}

/// Count events on a specific date (for month view indicators).
pub fn count_on_date(events: &Vec<Event>, date: Date) -> (r: Option<usize>)
    requires
        all_events_wf(events@),
        date.wf(),
    ensures
        r is Some <==> day_in_range(date.num() + 1) && all_expandable(
            events@,
            day_start(date),
            next_day_start(date),
        ),
        r matches Some(n) ==> n == all_occurrences(
            views(events@),
            day_start(date),
            next_day_start(date),
        ).len(),
{
    match query_date(events, date) {
        Some(v) => {
            proof {
                broadcast use vstd::seq_lib::group_to_multiset_ensures;

                let all = all_occurrences(views(events@), day_start(date), next_day_start(date));
                assert(views(v@).to_multiset().len() == views(v@).len());
                assert(all.to_multiset().len() == all.len());
                assert(views(v@).len() == v@.len());
            }
            Some(v.len())
        },
        None => None,
    }
}

/// The result of joining a path component onto a directory path with
/// `std::path::Path::join`, both written as text.
pub uninterp spec fn joined_path(dir: Seq<char>, name: Seq<char>) -> Seq<char>;

/// `std::path::Path::join` on text paths: the result is determined by the
/// directory and the component. It is read back with `to_string_lossy`; the
/// inputs are text already, so nothing is replaced there.
#[verifier::external_body]
fn path_join(dir: &str, name: &str) -> (r: String)
    ensures
        r@ == joined_path(dir@, name@),
{
    std::path::Path::new(dir).join(name).to_string_lossy().into_owned()
}

/// `dirs::data_local_dir`: the user's local data directory, when the
/// platform has one. What it is depends on the environment; nothing is
/// stated of it. The path is read as text with `to_string_lossy`, so a
/// directory whose name is not valid Unicode reaches the library with
/// replacement characters in place of the invalid bytes.
#[verifier::external_body]
fn local_data_dir() -> (r: Option<String>) {
    dirs::data_local_dir().map(|p| p.to_string_lossy().into_owned())
}

/// The event directory under a base data directory (`/tmp` when there is
/// none): `<base>/koyomi/events`.
pub open spec fn data_dir_under(base: Option<Seq<char>>) -> Seq<char> {
    let b = match base {
        Some(x) => x,
        None => "/tmp"@,
    };
    joined_path(joined_path(b, "koyomi"@), "events"@)
}

/// The event directory under `base`.
pub fn data_dir_from(base: Option<String>) -> (r: String)
    ensures
        r@ == data_dir_under(opt_string_view(base)),
{
    let b = match base {
        Some(x) => x,
        None => String::from_str("/tmp"),
    };
    let k = path_join(b.as_str(), "koyomi");
    path_join(k.as_str(), "events")
}

/// The default event directory: `koyomi/events` under the local data
/// directory, or under `/tmp` where there is none.
pub fn default_data_dir() -> (r: String)
    ensures
        exists|base: Option<Seq<char>>| r@ == data_dir_under(base),
{
    let base = local_data_dir();
    data_dir_from(base)
}

/// Local YAML-based event storage: one `<event id>.yaml` file per event in
/// a data directory.
pub struct EventStore {
    data_dir: String,
}

impl EventStore {
    /// The store's data directory.
    pub closed spec fn dir(self) -> Seq<char> {
        self.data_dir@
    }

    /// The store kept in `data_dir`.
    pub fn at(data_dir: String) -> (r: Self)
        ensures
            r.dir() == data_dir@,
    {
        EventStore { data_dir }
    }

    /// The store's data directory.
    pub fn data_dir(&self) -> (r: &str)
        ensures
            r@ == self.dir(),
    {
        self.data_dir.as_str()
    }

    /// The file of the event `id`: `<data_dir>/<id>.yaml`.
    pub fn event_path(&self, id: &str) -> (r: String)
        ensures
            r@ == joined_path(self.dir(), id@ + ".yaml"@),
    {
        let name = concat(id, ".yaml");
        path_join(self.data_dir.as_str(), name.as_str())
    }
}

/// Errors from event store operations.
pub enum EventStoreError {
    Io(String),
    Serialize(String),
    Deserialize(String),
    NotFound(String),
}

/// The text of an error, as it displays.
pub open spec fn error_text(e: EventStoreError) -> Seq<char> {
    match e {
        EventStoreError::Io(s) => "I/O error: "@ + s@,
        EventStoreError::Serialize(s) => "serialization error: "@ + s@,
        EventStoreError::Deserialize(s) => "deserialization error: "@ + s@,
        EventStoreError::NotFound(s) => "event not found: "@ + s@,
    }
}

impl EventStoreError {
    /// The error message, as the error displays.
    pub fn message(&self) -> (r: String)
        ensures
            r@ == error_text(*self),
    {
        match self {
            EventStoreError::Io(s) => concat("I/O error: ", s.as_str()),
            EventStoreError::Serialize(s) => concat("serialization error: ", s.as_str()),
            EventStoreError::Deserialize(s) => concat("deserialization error: ", s.as_str()),
            EventStoreError::NotFound(s) => concat("event not found: ", s.as_str()),
        }
    }
}

} // verus!
