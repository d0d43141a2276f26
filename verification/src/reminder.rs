//! Reminder scheduling and notification.
//!
//! Decides which reminders of upcoming event occurrences are due, firing
//! each (event, occurrence, reminder offset) at most once.

use vstd::prelude::*;

use crate::datetime::{day_in_range, hm_text, local_now, nanos_per_day, ts, DateTime, Delta};
use crate::events::{EventOccurrence, OccurrenceView};
use crate::text::{fmt_decimal, int_decimal};

verus! {

/// A fired reminder: event id, occurrence start and reminder offset in minutes.
pub type ReminderKey = (Seq<char>, DateTime, i32);

/// A reminder that may fire: event id, event title, occurrence start and
/// offset in minutes.
pub type ReminderCandidate = (Seq<char>, Seq<char>, DateTime, i32);

/// Nanoseconds in `m` minutes.
pub open spec fn minutes_nanos(m: int) -> int {
    m * 60 * 1_000_000_000
}

/// The reminders of one occurrence, in the order of the event's reminder list.
pub open spec fn occurrence_candidates(o: OccurrenceView) -> Seq<ReminderCandidate> {
    o.event.reminders.map_values(|m: i32| (o.event.id, o.event.title, o.start, m))
}

/// The reminders of a list of occurrences, occurrence by occurrence.
pub open spec fn candidates(occs: Seq<OccurrenceView>) -> Seq<ReminderCandidate>
    decreases occs.len(),
{
    if occs.len() == 0 {
        seq![]
    } else {
        candidates(occs.drop_last()) + occurrence_candidates(occs.last())
    }
}

pub open spec fn candidate_key(c: ReminderCandidate) -> ReminderKey {
    (c.0, c.2, c.3)
}

/// Whether the reminder time of `c` (its start less its offset) has come at `now`.
pub open spec fn is_due(now: DateTime, c: ReminderCandidate) -> bool {
    ts(now) >= ts(c.2) - minutes_nanos(c.3 as int)
}

/// What a notification says.
pub struct NotificationView {
    pub event_title: Seq<char>,
    pub event_start: DateTime,
    pub minutes_before: i32,
    pub event_id: Seq<char>,
}

pub open spec fn notification_of(c: ReminderCandidate) -> NotificationView {
    NotificationView { event_title: c.1, event_start: c.2, minutes_before: c.3, event_id: c.0 }
}

/// Going through the candidates in order: each one that is due and whose key
/// has not fired yet fires, its key is recorded and its notification issued.
/// The result is the keys fired by the end, and the notifications in order.
pub open spec fn fire_all(fired: Seq<ReminderKey>, cands: Seq<ReminderCandidate>, now: DateTime) -> (
    Seq<ReminderKey>,
    Seq<NotificationView>,
)
    decreases cands.len(),
{
    if cands.len() == 0 {
        (fired, seq![])
    } else {
        let (f, n) = fire_all(fired, cands.drop_last(), now);
        let c = cands.last();
        if is_due(now, c) && !f.contains(candidate_key(c)) {
            (f.push(candidate_key(c)), n.push(notification_of(c)))
        } else {
            (f, n)
        }
    }
}

/// Whether the reminder time of every candidate is a supported date-time.
pub open spec fn reminder_times_defined(occs: Seq<OccurrenceView>) -> bool {
    forall|i: int, j: int|
        0 <= i < occs.len() && 0 <= j < occs[i].event.reminders.len() ==> day_in_range(
            (ts(occs[i].start) - minutes_nanos(#[trigger] occs[i].event.reminders[j] as int))
                / nanos_per_day(),
        )
}

/// Whether the reminder time of every reminder of the occurrences is a
/// supported date-time (what `check` and `upcoming_reminders_at` need).
pub fn reminder_times_supported(occurrences: &Vec<EventOccurrence>) -> (r: bool)
    requires
        forall|i: int|
            0 <= i < occurrences@.len() ==> (#[trigger] occurrences@[i]).occurrence_start.wf(),
    ensures
        r == reminder_times_defined(views_of(occurrences@)),
{
    let ghost occs = views_of(occurrences@);
    let n = occurrences.len();
    let mut i: usize = 0;
    while i < n
        invariant
            n == occurrences@.len(),
            occs == views_of(occurrences@),
            i <= n,
            forall|k: int|
                0 <= k < occurrences@.len() ==> (#[trigger] occurrences@[k]).occurrence_start.wf(),
            forall|a: int, b: int|
                0 <= a < i && 0 <= b < occs[a].event.reminders.len() ==> day_in_range(
                    (ts(occs[a].start) - minutes_nanos(#[trigger] occs[a].event.reminders[b] as int))
                        / nanos_per_day(),
                ),
        decreases n - i,
    {
        let occ = &occurrences[i];
        assert(occs[i as int] == occ@);
        let m = occ.event.reminders.len();
        let mut j: usize = 0;
        while j < m
            invariant
                m == occ.event.reminders@.len(),
                i < n,
                n == occurrences@.len(),
                occs == views_of(occurrences@),
                occ@ == occs[i as int],
                occ.occurrence_start.wf(),
                j <= m,
                forall|a: int, b: int|
                    0 <= a < i && 0 <= b < occs[a].event.reminders.len() ==> day_in_range(
                        (ts(occs[a].start) - minutes_nanos(#[trigger] occs[a].event.reminders[b] as int))
                            / nanos_per_day(),
                    ),
                forall|b: int|
                    0 <= b < j ==> day_in_range(
                        (ts(occs[i as int].start) - minutes_nanos(
                            #[trigger] occs[i as int].event.reminders[b] as int,
                        )) / nanos_per_day(),
                    ),
            decreases m - j,
        {
            let mins = occ.event.reminders[j];
            assert(occs[i as int].event.reminders[j as int] == mins);
            if occ.occurrence_start.checked_add(Delta::minutes(-(mins as i64))).is_none() {
                assert(!reminder_times_defined(occs));
                return false;
            }
            j += 1;
        }
        i += 1;
    }
    true
}

/// Tracks which reminders have already been fired to avoid duplicates.
pub struct ReminderScheduler {
    fired: Vec<(String, DateTime, i32)>,
}

pub open spec fn key_view(k: (String, DateTime, i32)) -> ReminderKey {
    (k.0@, k.1, k.2)
}

impl View for ReminderScheduler {
    type V = Seq<ReminderKey>;

    closed spec fn view(&self) -> Seq<ReminderKey> {
        self.fired@.map_values(|k: (String, DateTime, i32)| key_view(k))
    }
}

impl ReminderScheduler {
    /// Every fired key is recorded once.
    pub open spec fn wf(self) -> bool {
        self@.no_duplicates()
    }

    /// A scheduler that has fired nothing.
    pub fn new() -> (r: Self)
        ensures
            r.wf(),
            r@ == Seq::<ReminderKey>::empty(),
    {
        let r = ReminderScheduler { fired: Vec::new() };
        assert(r@ =~= Seq::<ReminderKey>::empty());
        r
    }

    /// Whether a key has fired.
    fn has_fired(&self, id: &String, start: DateTime, minutes: i32) -> (r: bool)
        ensures
            r == self@.contains((id@, start, minutes)),
    {
        let n = self.fired.len();
        let mut i: usize = 0;
        while i < n
            invariant
                n == self.fired@.len(),
                i <= n,
                forall|k: int| 0 <= k < i ==> self@[k] != (id@, start, minutes),
            decreases n - i,
        {
            let k = &self.fired[i];
            assert(self@[i as int] == key_view(self.fired@[i as int]));
            if k.0 == *id && k.1 == start && k.2 == minutes {
                assert(self@[i as int] == (id@, start, minutes));
                return true;
            }
            i += 1;
        }
        assert(!self@.contains((id@, start, minutes))) by {
            if self@.contains((id@, start, minutes)) {
                let k = self@.index_of((id@, start, minutes));
                assert(self@[k] == (id@, start, minutes));
            }
        }
        false
    }

    /// Check which reminders fire at `now` among the reminders of the
    /// occurrences: those whose reminder time has come and that have not
    /// fired before. They are recorded as fired and their notifications
    /// returned, in order.
    pub fn check(&mut self, now: DateTime, occurrences: &Vec<EventOccurrence>) -> (r: Vec<
        ReminderNotification,
    >)
        requires
            old(self).wf(),
            now.wf(),
            forall|i: int|
                0 <= i < occurrences@.len() ==> (#[trigger] occurrences@[i]).occurrence_start.wf(),
            reminder_times_defined(views_of(occurrences@)),
        ensures
            final(self).wf(),
            (final(self)@, notification_views(r@)) == fire_all(
                old(self)@,
                candidates(views_of(occurrences@)),
                now,
            ),
    {
        let ghost occs = views_of(occurrences@);
        let ghost start_fired = self@;
        let mut notifications: Vec<ReminderNotification> = Vec::new();
        let n = occurrences.len();
        let mut i: usize = 0;
        while i < n
            invariant
                n == occurrences@.len(),
                occs == views_of(occurrences@),
                i <= n,
                now.wf(),
                forall|k: int|
                    0 <= k < occurrences@.len() ==> (#[trigger] occurrences@[k]).occurrence_start.wf(),
                reminder_times_defined(occs),
                self.wf(),
                (self@, notification_views(notifications@)) == fire_all(
                    start_fired,
                    candidates(occs.take(i as int)),
                    now,
                ),
            decreases n - i,
        {
            let occ = &occurrences[i];
            assert(occs[i as int] == occ@);
            let ghost before = candidates(occs.take(i as int));
            let m = occ.event.reminders.len();
            let mut j: usize = 0;
            while j < m
                invariant
                    m == occ.event.reminders@.len(),
                    i < n,
                    n == occurrences@.len(),
                    occs == views_of(occurrences@),
                    occ@ == occs[i as int],
                    occ.occurrence_start.wf(),
                    j <= m,
                    now.wf(),
                    reminder_times_defined(occs),
                    self.wf(),
                    (self@, notification_views(notifications@)) == fire_all(
                        start_fired,
                        before + occurrence_candidates(occ@).take(j as int),
                        now,
                    ),
                decreases m - j,
            {
                let mins = occ.event.reminders[j];
                let ghost c: ReminderCandidate = (
                    occ.event.id@,
                    occ.event.title@,
                    occ.occurrence_start,
                    mins,
                );
                let ghost prefix = before + occurrence_candidates(occ@).take(j as int);
                assert(occurrence_candidates(occ@)[j as int] == c);
                assert((before + occurrence_candidates(occ@).take(j + 1)).drop_last() =~= prefix);
                assert((before + occurrence_candidates(occ@).take(j + 1)).last() == c);
                assert(occs[i as int].event.reminders[j as int] == mins);
                let reminder_time = match occ.occurrence_start.checked_add(
                    Delta::minutes(-(mins as i64)),
                ) {
                    Some(t) => t,
                    None => {
                        assert(false);
                        return notifications;
                    },
                };
                if reminder_time.le(&now) {
                    let ghost f0 = self@;
                    if !self.has_fired(&occ.event.id, occ.occurrence_start, mins) {
                        let ghost n0 = notification_views(notifications@);
                        self.fired.push((occ.event.id.clone(), occ.occurrence_start, mins));
                        notifications.push(
                            ReminderNotification {
                                event_title: occ.event.title.clone(),
                                event_start: occ.occurrence_start,
                                minutes_before: mins,
                                event_id: occ.event.id.clone(),
                            },
                        );
                        assert(self@ =~= f0.push(candidate_key(c)));
                        assert(notification_views(notifications@) =~= n0.push(
                            notification_of(c),
                        ));
                        assert(self@.no_duplicates()) by {
                            assert forall|a: int, b: int|
                                0 <= a < b < self@.len() implies self@[a] != self@[b] by {
                                if b == self@.len() - 1 {
                                    assert(self@[b] == candidate_key(c));
                                    assert(f0[a] == self@[a]);
                                    assert(f0.contains(self@[a]));
                                }
                            }
                        }
                    }
                }
                j += 1;
            }
            proof {
                assert(occurrence_candidates(occ@).take(m as int) =~= occurrence_candidates(occ@));
                assert(occs.take(i + 1).drop_last() =~= occs.take(i as int));
                assert(occs.take(i + 1).last() == occ@);
            }
            i += 1;
        }
        assert(occs.take(n as int) =~= occs);
        notifications
    }

    /// Clear all fired reminders (e.g., at start of new day).
    pub fn clear(&mut self)
        ensures
            final(self).wf(),
            final(self)@ == Seq::<ReminderKey>::empty(),
    {
        self.fired = Vec::new();
        assert(self@ =~= Seq::<ReminderKey>::empty());
    }

    /// Number of fired reminders tracked.
    pub fn fired_count(&self) -> (r: usize)
        ensures
            r == self@.len(),
    {
        self.fired.len()
    }
}

impl Default for ReminderScheduler {
    fn default() -> (r: Self)
        ensures
            r.wf(),
            r@ == Seq::<ReminderKey>::empty(),
    {
        Self::new()
    }
}

/// The views of a sequence of occurrences.
pub open spec fn views_of(s: Seq<EventOccurrence>) -> Seq<OccurrenceView> {
    s.map_values(|o: EventOccurrence| o@)
}

/// A notification that a reminder has fired.
pub struct ReminderNotification {
    /// The event title.
    pub event_title: String,
    /// The event start time.
    pub event_start: DateTime,
    /// How many minutes before the event this reminder was set.
    pub minutes_before: i32,
    /// The event ID.
    pub event_id: String,
}

impl View for ReminderNotification {
    type V = NotificationView;

    open spec fn view(&self) -> NotificationView {
        NotificationView {
            event_title: self.event_title@,
            event_start: self.event_start,
            minutes_before: self.minutes_before,
            event_id: self.event_id@,
        }
    }
}

pub open spec fn notification_views(s: Seq<ReminderNotification>) -> Seq<NotificationView> {
    s.map_values(|n: ReminderNotification| n@)
}

/// The text of a notification: `Reminder: "<title>" starts at HH:MM (<m> min)`.
pub open spec fn notification_text(n: NotificationView) -> Seq<char> {
    "Reminder: \""@ + n.event_title + "\" starts at "@ + hm_text(n.event_start.time) + " ("@
        + int_decimal(n.minutes_before as int) + " min)"@
}

impl ReminderNotification {
    /// The notification as it is shown.
    pub fn to_display_string(&self) -> (r: String)
        requires
            self.event_start.wf(),
        ensures
            r@ == notification_text(self@),
    {
        let mut s = String::from_str("Reminder: \"");
        s.append(self.event_title.as_str());
        s.append("\" starts at ");
        let hm = self.event_start.time.format_hm();
        s.append(hm.as_str());
        s.append(" (");
        let m = fmt_decimal(self.minutes_before as i64);
        s.append(m.as_str());
        s.append(" min)");
        s
    }
}

/// The key under which a notification's reminder is recorded.
pub open spec fn notification_key(n: NotificationView) -> ReminderKey {
    (n.event_id, n.event_start, n.minutes_before)
}

/// What one check does to the fired keys: the keys fired before stay, in
/// order, and the keys of the issued notifications follow, one each; none of
/// those was fired before; every due reminder has fired by the end; and no
/// key is recorded twice.
pub proof fn lemma_fire_all(fired: Seq<ReminderKey>, cands: Seq<ReminderCandidate>, now: DateTime)
    ensures
        ({
            let (f, ns) = fire_all(fired, cands, now);
            &&& f.len() == fired.len() + ns.len()
            &&& f.subrange(0, fired.len() as int) == fired
            &&& forall|k: int|
                0 <= k < ns.len() ==> f[fired.len() + k] == notification_key(#[trigger] ns[k])
            &&& forall|k: int| 0 <= k < ns.len() ==> !fired.contains(notification_key(#[trigger] ns[k]))
            &&& forall|i: int|
                0 <= i < cands.len() && is_due(now, #[trigger] cands[i]) ==> f.contains(
                    candidate_key(cands[i]),
                )
            &&& fired.no_duplicates() ==> f.no_duplicates()
        }),
    decreases cands.len(),
{
    if cands.len() > 0 {
        let prev = cands.drop_last();
        lemma_fire_all(fired, prev, now);
        let (f0, n0) = fire_all(fired, prev, now);
        let c = cands.last();
        let (f, ns) = fire_all(fired, cands, now);
        assert forall|i: int|
            0 <= i < cands.len() && is_due(now, #[trigger] cands[i]) implies f.contains(
                candidate_key(cands[i]),
            ) by {
            if i < cands.len() - 1 {
                assert(cands[i] == prev[i]);
                let k = f0.index_of(candidate_key(prev[i]));
                if is_due(now, c) && !f0.contains(candidate_key(c)) {
                    assert(f[k] == f0[k]);
                }
            } else {
                if is_due(now, c) && !f0.contains(candidate_key(c)) {
                    assert(f[f.len() - 1] == candidate_key(c));
                }
            }
        }
        if is_due(now, c) && !f0.contains(candidate_key(c)) {
            assert(f.subrange(0, fired.len() as int) =~= f0.subrange(0, fired.len() as int));
            assert forall|k: int| 0 <= k < ns.len() implies f[fired.len() + k] == notification_key(
                #[trigger] ns[k],
            ) by {
                if k < n0.len() {
                    assert(ns[k] == n0[k]);
                }
            }
            assert forall|k: int| 0 <= k < ns.len() implies !fired.contains(
                notification_key(#[trigger] ns[k]),
            ) by {
                if k < n0.len() {
                    assert(ns[k] == n0[k]);
                } else {
                    if fired.contains(candidate_key(c)) {
                        let x = fired.index_of(candidate_key(c));
                        assert(f0[x] == fired[x]) by {
                            assert(f0.subrange(0, fired.len() as int)[x] == f0[x]);
                        }
                    }
                }
            }
            if fired.no_duplicates() {
                assert forall|a: int, b: int| 0 <= a < b < f.len() implies f[a] != f[b] by {
                    if b == f.len() - 1 {
                        assert(f0.contains(f[a]));
                    }
                }
            }
        }
    } else {
        let (f, ns) = fire_all(fired, cands, now);
        assert(f.subrange(0, fired.len() as int) =~= fired);
    }
}

/// A reminder fires at most once: whatever a first check fired, a second
/// check on the scheduler it left fires none of it again.
pub proof fn lemma_fired_once(
    fired: Seq<ReminderKey>,
    first: Seq<ReminderCandidate>,
    now1: DateTime,
    second: Seq<ReminderCandidate>,
    now2: DateTime,
)
    ensures
        ({
            let (f1, n1) = fire_all(fired, first, now1);
            let (f2, n2) = fire_all(f1, second, now2);
            forall|a: int, b: int|
                0 <= a < n1.len() && 0 <= b < n2.len() ==> notification_key(#[trigger] n1[a])
                    != notification_key(#[trigger] n2[b])
        }),
{
    lemma_fire_all(fired, first, now1);
    let (f1, n1) = fire_all(fired, first, now1);
    lemma_fire_all(f1, second, now2);
    let (f2, n2) = fire_all(f1, second, now2);
    assert forall|a: int, b: int|
        0 <= a < n1.len() && 0 <= b < n2.len() implies notification_key(#[trigger] n1[a])
            != notification_key(#[trigger] n2[b]) by {
        assert(f1[fired.len() + a] == notification_key(n1[a]));
        assert(f1.contains(notification_key(n1[a])));
    }
}

/// A check in which every due reminder has fired before fires nothing and
/// records nothing.
proof fn lemma_fire_none(fired: Seq<ReminderKey>, cands: Seq<ReminderCandidate>, now: DateTime)
    requires
        forall|i: int|
            0 <= i < cands.len() && is_due(now, #[trigger] cands[i]) ==> fired.contains(
                candidate_key(cands[i]),
            ),
    ensures
        fire_all(fired, cands, now) == (fired, Seq::<NotificationView>::empty()),
    decreases cands.len(),
{
    if cands.len() > 0 {
        let prev = cands.drop_last();
        assert forall|i: int|
            0 <= i < prev.len() && is_due(now, #[trigger] prev[i]) implies fired.contains(
                candidate_key(prev[i]),
            ) by {
            assert(prev[i] == cands[i]);
        }
        lemma_fire_none(fired, prev, now);
        let c = cands.last();
        assert(is_due(now, c) ==> fired.contains(candidate_key(cands[cands.len() - 1])));
    }
}

/// A second check at the same time over the same occurrences fires nothing
/// and leaves the fired keys as the first check left them.
pub proof fn lemma_check_again_fires_nothing(
    fired: Seq<ReminderKey>,
    cands: Seq<ReminderCandidate>,
    now: DateTime,
)
    ensures
        ({
            let (f1, n1) = fire_all(fired, cands, now);
            fire_all(f1, cands, now) == (f1, Seq::<NotificationView>::empty())
        }),
{
    lemma_fire_all(fired, cands, now);
    let (f1, n1) = fire_all(fired, cands, now);
    lemma_fire_none(f1, cands, now);
}

/// The text of an upcoming reminder: `<title> in <m> min`.
pub open spec fn upcoming_text(title: Seq<char>, minutes: int) -> Seq<char> {
    title + " in "@ + int_decimal(minutes) + " min"@
}

/// Nanoseconds from `now` to the reminder time of `c`.
pub open spec fn time_until(now: DateTime, c: ReminderCandidate) -> int {
    ts(c.2) - minutes_nanos(c.3 as int) - ts(now)
}

/// The upcoming reminders of the candidates at `now`: those whose reminder
/// time is still ahead, by an hour or less in whole minutes, with the whole
/// minutes left.
pub open spec fn upcoming(cands: Seq<ReminderCandidate>, now: DateTime) -> Seq<Seq<char>>
    decreases cands.len(),
{
    if cands.len() == 0 {
        seq![]
    } else {
        let rest = upcoming(cands.drop_last(), now);
        let c = cands.last();
        let left = time_until(now, c);
        if left > 0 && left / minutes_nanos(1) <= 60 {
            rest.push(upcoming_text(c.1, left / minutes_nanos(1)))
        } else {
            rest
        }
    }
}

/// The upcoming reminders of the occurrences at `now`, as status lines.
pub fn upcoming_reminders_at(occurrences: &Vec<EventOccurrence>, now: DateTime) -> (r: Vec<String>)
    requires
        now.wf(),
        forall|i: int|
            0 <= i < occurrences@.len() ==> (#[trigger] occurrences@[i]).occurrence_start.wf(),
        reminder_times_defined(views_of(occurrences@)),
    ensures
        r@.map_values(|s: String| s@) == upcoming(candidates(views_of(occurrences@)), now),
{
    let ghost occs = views_of(occurrences@);
    let mut out: Vec<String> = Vec::new();
    let n = occurrences.len();
    let mut i: usize = 0;
    while i < n
        invariant
            n == occurrences@.len(),
            occs == views_of(occurrences@),
            i <= n,
            now.wf(),
            forall|k: int|
                0 <= k < occurrences@.len() ==> (#[trigger] occurrences@[k]).occurrence_start.wf(),
            reminder_times_defined(occs),
            out@.map_values(|s: String| s@) == upcoming(candidates(occs.take(i as int)), now),
        decreases n - i,
    {
        let occ = &occurrences[i];
        assert(occs[i as int] == occ@);
        let ghost before = candidates(occs.take(i as int));
        let m = occ.event.reminders.len();
        let mut j: usize = 0;
        while j < m
            invariant
                m == occ.event.reminders@.len(),
                i < n,
                n == occurrences@.len(),
                occs == views_of(occurrences@),
                occ@ == occs[i as int],
                occ.occurrence_start.wf(),
                j <= m,
                now.wf(),
                reminder_times_defined(occs),
                out@.map_values(|s: String| s@) == upcoming(
                    before + occurrence_candidates(occ@).take(j as int),
                    now,
                ),
            decreases m - j,
        {
            let mins = occ.event.reminders[j];
            let ghost c: ReminderCandidate = (
                occ.event.id@,
                occ.event.title@,
                occ.occurrence_start,
                mins,
            );
            let ghost prefix = before + occurrence_candidates(occ@).take(j as int);
            assert(occurrence_candidates(occ@)[j as int] == c);
            assert((before + occurrence_candidates(occ@).take(j + 1)).drop_last() =~= prefix);
            assert((before + occurrence_candidates(occ@).take(j + 1)).last() == c);
            assert(occs[i as int].event.reminders[j as int] == mins);
            let reminder_time = match occ.occurrence_start.checked_add(
                Delta::minutes(-(mins as i64)),
            ) {
                Some(t) => t,
                None => {
                    assert(false);
                    return out;
                },
            };
            let ghost o0 = out@.map_values(|s: String| s@);
            if now.lt(&reminder_time) {
                let until = reminder_time.signed_duration_since(&now);
                let until_mins = until.num_minutes();
                proof {
                    let left = time_until(now, c);
                    assert(left == until.value());
                    assert(left > 0);
                    assert(until.secs >= 0) by (nonlinear_arith)
                        requires
                            until.secs * 1_000_000_000 + until.nanos > 0,
                            0 <= until.nanos < 1_000_000_000,
                    ;
                    assert(until.secs == left / 1_000_000_000) by (nonlinear_arith)
                        requires
                            left == until.secs * 1_000_000_000 + until.nanos,
                            0 <= until.nanos < 1_000_000_000,
                    ;
                    vstd::arithmetic::div_mod::lemma_div_denominator(left, 1_000_000_000, 60);
                    assert(until_mins == left / minutes_nanos(1));
                }
                if until_mins <= 60 {
                    let mut line = occ.event.title.clone();
                    line.append(" in ");
                    let num = fmt_decimal(until_mins);
                    line.append(num.as_str());
                    line.append(" min");
                    out.push(line);
                    assert(out@.map_values(|s: String| s@) =~= o0.push(
                        upcoming_text(c.1, time_until(now, c) / minutes_nanos(1)),
                    ));
                }
            }
            j += 1;
        }
        proof {
            assert(occurrence_candidates(occ@).take(m as int) =~= occurrence_candidates(occ@));
            assert(occs.take(i + 1).drop_last() =~= occs.take(i as int));
            assert(occs.take(i + 1).last() == occ@);
        }
        i += 1;
    }
    assert(occs.take(n as int) =~= occs);
    out
}

/// All upcoming reminders of the occurrences as a summary for the status
/// line, at the current local time.
pub fn upcoming_reminders(occurrences: &Vec<EventOccurrence>) -> (r: Vec<String>)
    requires
        forall|i: int|
            0 <= i < occurrences@.len() ==> (#[trigger] occurrences@[i]).occurrence_start.wf(),
        reminder_times_defined(views_of(occurrences@)),
    ensures
        exists|now: DateTime|
            call_ensures(local_now, (), now) && now.wf() && r@.map_values(|s: String| s@) == upcoming(
                candidates(views_of(occurrences@)),
                now,
            ),
{
    let now = local_now();
    upcoming_reminders_at(occurrences, now)
}

/// The end of the window in which `check` looks for reminders: 24 hours
/// after `now`; `None` when that leaves the supported dates.
pub fn look_ahead_end(now: DateTime) -> (r: Option<DateTime>)
    requires
        now.wf(),
    ensures
        r is Some <==> day_in_range((ts(now) + 24 * 3600 * 1_000_000_000) / nanos_per_day()),
        r matches Some(x) ==> x.wf() && ts(x) == ts(now) + 24 * 3600 * 1_000_000_000,
{
    now.checked_add(Delta::hours(24))
}

} // verus!
