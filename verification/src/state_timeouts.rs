//! Timers of declared state timeouts.
//!
//! A timer is armed when an entity enters a state with a timeout, when an
//! action that resets the timeout runs in that state, and when an entity is
//! found in such a state without a timer. Every arming takes the next number of
//! the entity, and a timer whose number is no longer the entity's last one does
//! nothing.

use vstd::prelude::*;
use vstd::string::*;

use crate::ordered::is_text_before;
use crate::ordered::text_before;
use crate::ordered::OrdMap;
use crate::ordered::SortKey;
use crate::stream::EntityEvent;
use crate::stream::EventModel;
use crate::text::same;
use crate::text::texts;
use crate::text::views;
use crate::time::elapsed_nanos;
use crate::time::elapsed_nanos_of;
use crate::time::is_not_after;
use crate::time::not_after;
use crate::time::Duration;
use crate::time::Timestamp;

verus! {

/// The place of the last event that brought the entity into `state` from
/// another one.
pub open spec fn entry_place(events: Seq<EventModel>, state: Seq<char>) -> Option<int>
    decreases events.len(),
{
    if events.len() == 0 {
        None
    } else if events.last().to_status == state && events.last().from_status != state {
        Some(events.len() - 1)
    } else {
        entry_place(events.drop_last(), state)
    }
}

/// The latest time of an event from place `from` up to `to` whose action is one
/// of `reset_on`.
pub open spec fn latest_reset(
    events: Seq<EventModel>,
    reset_on: Seq<Seq<char>>,
    from: int,
    to: int,
) -> Option<Timestamp>
    decreases to - from,
{
    if to <= from {
        None
    } else {
        let before = latest_reset(events, reset_on, from, to - 1);
        let e = events[to - 1];
        if !reset_on.contains(e.action) {
            before
        } else if before is Some && !not_after(before->0, e.timestamp) {
            before
        } else {
            Some(e.timestamp)
        }
    }
}

/// When the clock of a state was last set: at the latest reset since the entity
/// came into the state, else when it came; none where that event is no longer
/// retained.
pub open spec fn clock_reset(
    events: Seq<EventModel>,
    state: Seq<char>,
    reset_on: Seq<Seq<char>>,
) -> Option<Timestamp> {
    match entry_place(events, state) {
        None => None,
        Some(i) => match latest_reset(events, reset_on, i + 1, events.len() as int) {
            Some(t) => Some(t),
            None => Some(events[i].timestamp),
        },
    }
}

fn find_entry(events: &Vec<EntityEvent>, state: &str) -> (r: Option<usize>)
    ensures
        match r {
            Some(i) => entry_place(views(events@), state@) == Some(i as int) && i < events.len(),
            None => entry_place(views(events@), state@) is None,
        },
{
    let ghost all = views(events@);
    let mut n: usize = events.len();
    proof {
        assert(all.take(n as int) =~= all);
    }
    while n > 0
        invariant
            n <= events.len(),
            all == views(events@),
            entry_place(all, state@) == entry_place(all.take(n as int), state@),
        decreases n,
    {
        proof {
            assert(all.take(n as int).last() == events@[n - 1]@);
            assert(all.take(n as int).drop_last() =~= all.take(n - 1));
        }
        let e = &events[n - 1];
        if same(e.to_status.as_str(), state) && !same(e.from_status.as_str(), state) {
            return Some(n - 1);
        }
        n = n - 1;
    }
    None
}

fn is_listed(names: &Vec<String>, name: &str) -> (r: bool)
    ensures
        r == texts(names@).contains(name@),
{
    let ghost all = texts(names@);
    let mut i: usize = 0;
    while i < names.len()
        invariant
            i <= names.len(),
            all == texts(names@),
            forall|k: int| 0 <= k < i ==> #[trigger] all[k] != name@,
        decreases names.len() - i,
    {
        proof {
            assert(all[i as int] == names@[i as int]@);
        }
        if same(names[i].as_str(), name) {
            return true;
        }
        i = i + 1;
    }
    false
}

/// When the clock of a state was last set.
pub fn compute_state_clock_reset_ts(
    events: &Vec<EntityEvent>,
    current_state: &str,
    reset_on: &Vec<String>,
) -> (r: Option<Timestamp>)
    ensures
        r == clock_reset(views(events@), current_state@, texts(reset_on@)),
{
    let ghost all = views(events@);
    let ghost resets = texts(reset_on@);
    let entry: usize = match find_entry(events, current_state) {
        Some(i) => i,
        None => return None,
    };
    let mut latest: Option<Timestamp> = None;
    let mut i: usize = entry + 1;
    while i < events.len()
        invariant
            entry + 1 <= i <= events.len(),
            all == views(events@),
            resets == texts(reset_on@),
            latest == latest_reset(all, resets, entry + 1, i as int),
        decreases events.len() - i,
    {
        proof {
            assert(all[i as int] == events@[i as int]@);
        }
        if is_listed(reset_on, events[i].action.as_str()) {
            let t = events[i].timestamp;
            latest = match latest {
                Some(p) => if is_not_after(p, t) {
                    Some(t)
                } else {
                    Some(p)
                },
                None => Some(t),
            };
        }
        i = i + 1;
    }
    proof {
        assert(all[entry as int] == events@[entry as int]@);
    }
    match latest {
        Some(t) => Some(t),
        None => Some(events[entry].timestamp),
    }
}

/// An entity instance: its tenant, its type and its identifier.
#[derive(Clone, Debug, PartialEq, Eq)]
pub struct EntityKey {
    pub tenant: String,
    pub entity_type: String,
    pub entity_id: String,
}

impl View for EntityKey {
    type V = (Seq<char>, Seq<char>, Seq<char>);

    open spec fn view(&self) -> (Seq<char>, Seq<char>, Seq<char>) {
        (self.tenant@, self.entity_type@, self.entity_id@)
    }
}

impl EntityKey {
    pub fn new(tenant: &str, entity_type: &str, entity_id: &str) -> (r: Self)
        ensures
            r@ == (tenant@, entity_type@, entity_id@),
    {
        EntityKey {
            tenant: tenant.to_owned(),
            entity_type: entity_type.to_owned(),
            entity_id: entity_id.to_owned(),
        }
    }
}

impl SortKey for EntityKey {
    open spec fn before(
        a: (Seq<char>, Seq<char>, Seq<char>),
        b: (Seq<char>, Seq<char>, Seq<char>),
    ) -> bool {
        text_before(a.0, b.0) || (a.0 == b.0 && (text_before(a.1, b.1) || (a.1 == b.1
            && text_before(a.2, b.2))))
    }

    proof fn before_is_irreflexive(a: (Seq<char>, Seq<char>, Seq<char>)) {
        String::before_is_irreflexive(a.0);
        String::before_is_irreflexive(a.1);
        String::before_is_irreflexive(a.2);
    }

    proof fn before_is_transitive(
        a: (Seq<char>, Seq<char>, Seq<char>),
        b: (Seq<char>, Seq<char>, Seq<char>),
        c: (Seq<char>, Seq<char>, Seq<char>),
    ) {
        if text_before(a.0, b.0) && text_before(b.0, c.0) {
            String::before_is_transitive(a.0, b.0, c.0);
        }
        if text_before(a.1, b.1) && text_before(b.1, c.1) {
            String::before_is_transitive(a.1, b.1, c.1);
        }
        if text_before(a.2, b.2) && text_before(b.2, c.2) {
            String::before_is_transitive(a.2, b.2, c.2);
        }
    }

    proof fn before_is_total(
        a: (Seq<char>, Seq<char>, Seq<char>),
        b: (Seq<char>, Seq<char>, Seq<char>),
    ) {
        String::before_is_total(a.0, b.0);
        String::before_is_total(a.1, b.1);
        String::before_is_total(a.2, b.2);
    }

    fn is_before(&self, other: &Self) -> (r: bool) {
        is_text_before(self.tenant.as_str(), other.tenant.as_str()) || (self.tenant == other.tenant
            && (is_text_before(self.entity_type.as_str(), other.entity_type.as_str()) || (
        self.entity_type == other.entity_type && is_text_before(
            self.entity_id.as_str(),
            other.entity_id.as_str(),
        ))))
    }

    fn duplicate(&self) -> (r: Self) {
        EntityKey {
            tenant: self.tenant.clone(),
            entity_type: self.entity_type.clone(),
            entity_id: self.entity_id.clone(),
        }
    }
}

/// The last number given to each entity's timers, and how many timers of each
/// entity type are armed and have not fired.
#[derive(Clone, Debug, PartialEq, Eq)]
pub struct StateTimeoutTracker {
    pub seqs: OrdMap<EntityKey, u64>,
    pub pending_by_type: OrdMap<String, u64>,
}

/// How many timers of a type are pending.
pub open spec fn count_of(pending: Map<Seq<char>, u64>, entity_type: Seq<char>) -> u64 {
    if pending.contains_key(entity_type) {
        pending[entity_type]
    } else {
        0
    }
}

/// The pending timers with one more of a type.
pub open spec fn counted_up(pending: Map<Seq<char>, u64>, entity_type: Seq<char>) -> Map<
    Seq<char>,
    u64,
> {
    pending.insert(entity_type, (count_of(pending, entity_type) + 1) as u64)
}

/// The pending timers with one less of a type, down to none.
pub open spec fn counted_off(pending: Map<Seq<char>, u64>, entity_type: Seq<char>) -> Map<
    Seq<char>,
    u64,
> {
    if count_of(pending, entity_type) > 0 {
        pending.insert(entity_type, (count_of(pending, entity_type) - 1) as u64)
    } else {
        pending
    }
}

impl StateTimeoutTracker {
    pub open spec fn wf(&self) -> bool {
        &&& self.seqs.wf()
        &&& self.pending_by_type.wf()
    }

    /// The last number of an entity, and zero where it has none.
    pub open spec fn seq_of(&self, key: (Seq<char>, Seq<char>, Seq<char>)) -> u64 {
        if self.seqs@.contains_key(key) {
            self.seqs@[key]
        } else {
            0
        }
    }

    /// How many timers of a type are pending.
    pub open spec fn pending_of(&self, entity_type: Seq<char>) -> u64 {
        count_of(self.pending_by_type@, entity_type)
    }

    pub fn new() -> (r: Self)
        ensures
            r.wf(),
            r.seqs@ == Map::<(Seq<char>, Seq<char>, Seq<char>), u64>::empty(),
            r.pending_by_type@ == Map::<Seq<char>, u64>::empty(),
    {
        StateTimeoutTracker { seqs: OrdMap::new(), pending_by_type: OrdMap::new() }
    }

    /// Takes the next number of an entity.
    pub fn bump(&mut self, key: &EntityKey) -> (r: u64)
        requires
            old(self).wf(),
            old(self).seq_of(key@) < u64::MAX,
        ensures
            final(self).wf(),
            r == old(self).seq_of(key@) + 1,
            final(self).seqs@ == old(self).seqs@.insert(key@, r),
            final(self).pending_by_type == old(self).pending_by_type,
    {
        let next: u64 = match self.seqs.get(key) {
            Some(n) => *n + 1,
            None => 1,
        };
        self.seqs.insert(key.duplicate(), next);
        next
    }

    /// The last number of an entity.
    pub fn current(&self, key: &EntityKey) -> (r: u64)
        requires
            self.wf(),
        ensures
            r == self.seq_of(key@),
    {
        match self.seqs.get(key) {
            Some(n) => *n,
            None => 0,
        }
    }

    /// Counts one more pending timer of a type.
    pub fn inc_pending(&mut self, entity_type: &str)
        requires
            old(self).wf(),
            old(self).pending_of(entity_type@) < u64::MAX,
        ensures
            final(self).wf(),
            final(self).seqs == old(self).seqs,
            final(self).pending_by_type@ == counted_up(old(self).pending_by_type@, entity_type@),
    {
        let key = entity_type.to_owned();
        let next: u64 = match self.pending_by_type.get(&key) {
            Some(n) => *n + 1,
            None => 1,
        };
        self.pending_by_type.insert(key, next);
    }

    /// Counts one pending timer of a type less, down to none.
    pub fn dec_pending(&mut self, entity_type: &str)
        requires
            old(self).wf(),
        ensures
            final(self).wf(),
            final(self).seqs == old(self).seqs,
            final(self).pending_by_type@ == counted_off(old(self).pending_by_type@, entity_type@),
    {
        let key = entity_type.to_owned();
        let left: u64 = match self.pending_by_type.get(&key) {
            Some(n) => *n,
            None => 0,
        };
        if left > 0 {
            self.pending_by_type.insert(key, left - 1);
        }
    }

    /// The pending timers of each type, in the order of the types.
    pub fn pending_snapshot(&self) -> (r: Vec<(String, u64)>)
        requires
            self.wf(),
        ensures
            r@.len() == self.pending_by_type.list().len(),
            forall|i: int|
                0 <= i < r@.len() ==> (#[trigger] r@[i]).0@ == self.pending_by_type.list()[i]
                    && r@[i].1 == self.pending_by_type@[r@[i].0@],
            self.pending_by_type.list().to_set() == self.pending_by_type@.dom(),
    {
        let n: usize = self.pending_by_type.len();
        let mut out: Vec<(String, u64)> = Vec::new();
        let mut i: usize = 0;
        proof {
            self.pending_by_type.places();
        }
        while i < n
            invariant
                i <= n,
                n == self.pending_by_type.list().len(),
                self.wf(),
                out.len() == i,
                forall|k: int|
                    0 <= k < i ==> (#[trigger] out@[k]).0@ == self.pending_by_type.list()[k]
                        && out@[k].1 == self.pending_by_type@[out@[k].0@],
            decreases n - i,
        {
            let key = self.pending_by_type.key_at(i).clone();
            let count: u64 = *self.pending_by_type.value_at(i);
            out.push((key, count));
            i = i + 1;
        }
        out
    }

    /// Drops the number of an entity that is gone.
    pub fn forget(&mut self, tenant: &str, entity_type: &str, entity_id: &str)
        requires
            old(self).wf(),
        ensures
            final(self).wf(),
            final(self).seqs@ == old(self).seqs@.remove((tenant@, entity_type@, entity_id@)),
            final(self).pending_by_type == old(self).pending_by_type,
    {
        let key = EntityKey::new(tenant, entity_type, entity_id);
        let _known = self.seqs.remove(&key);
    }

    /// How many entities have a number.
    pub fn size(&self) -> (r: usize)
        requires
            self.wf(),
        ensures
            r == self.seqs@.dom().len(),
    {
        self.seqs.len()
    }

    /// Whether a timer that was armed with `armed_seq` is still its entity's.
    pub fn is_live(&self, key: &EntityKey, armed_seq: u64) -> (r: bool)
        requires
            self.wf(),
        ensures
            r == (self.seq_of(key@) == armed_seq),
    {
        self.current(key) == armed_seq
    }
}

/// Counting a timer and counting it off again leaves every count as it was.
pub proof fn counting_off_undoes_counting(
    pending: Map<Seq<char>, u64>,
    entity_type: Seq<char>,
    other: Seq<char>,
)
    requires
        count_of(pending, entity_type) < u64::MAX,
    ensures
        count_of(counted_off(counted_up(pending, entity_type), entity_type), other) == count_of(
            pending,
            other,
        ),
{
}

/// A declared timeout of a state.
#[derive(Clone, Debug, PartialEq, Eq)]
pub struct StateTimeout {
    pub state: String,
    pub after_seconds: u64,
    pub reset_on: Vec<String>,
    pub on_timeout: String,
}

/// Why a timer is armed.
#[derive(Clone, Copy, Debug, PartialEq, Eq, Structural)]
pub enum ArmReason {
    /// The entity came into the state.
    Entry,
    /// An action set the clock back.
    Reset,
    /// The entity was found in the state without a timer, with time left.
    Found,
    /// The entity was found in the state without a timer, its time over.
    Overdue,
}

/// A timer to start.
#[derive(Clone, Debug, PartialEq, Eq)]
pub struct ArmedTimer {
    /// The place of its declaration.
    pub place: usize,
    pub state: String,
    pub on_timeout: String,
    pub delay: Duration,
    pub seq: u64,
    pub reason: ArmReason,
}

/// What an [`ArmedTimer`] holds.
pub struct TimerModel {
    pub place: usize,
    pub state: Seq<char>,
    pub on_timeout: Seq<char>,
    pub delay: nat,
    pub seq: u64,
    pub reason: ArmReason,
}

impl View for ArmedTimer {
    type V = TimerModel;

    open spec fn view(&self) -> TimerModel {
        TimerModel {
            place: self.place,
            state: self.state@,
            on_timeout: self.on_timeout@,
            delay: self.delay@,
            seq: self.seq,
            reason: self.reason,
        }
    }
}

/// What a dispatch did to an entity, as far as its timers are concerned.
pub struct Transition {
    pub events: Seq<EventModel>,
    pub post_state: Seq<char>,
    pub action: Seq<char>,
    pub now: Timestamp,
}

/// The state before the last event.
pub open spec fn pre_state(t: Transition) -> Seq<char> {
    if t.events.len() == 0 {
        Seq::empty()
    } else {
        t.events.last().from_status
    }
}

/// The budget of a timeout in nanoseconds.
pub open spec fn budget_nanos(after_seconds: u64) -> nat {
    (after_seconds * 1_000_000_000) as nat
}

/// Why the timer of a declared timeout is armed, if it is. `seq` is the
/// entity's last number: an entity without one has no timer.
pub open spec fn arm_reason(t: Transition, timeout: StateTimeout, seq: u64) -> Option<ArmReason> {
    if timeout.state@ != t.post_state {
        None
    } else if pre_state(t) != t.post_state {
        Some(ArmReason::Entry)
    } else if texts(timeout.reset_on@).contains(t.action) {
        Some(ArmReason::Reset)
    } else if seq == 0 {
        match clock_reset(t.events, t.post_state, texts(timeout.reset_on@)) {
            Some(since) => if elapsed_nanos(t.now, since) >= budget_nanos(timeout.after_seconds) {
                Some(ArmReason::Overdue)
            } else {
                Some(ArmReason::Found)
            },
            None => Some(ArmReason::Found),
        }
    } else {
        None
    }
}

/// How long a timer waits: the whole budget, except for an entity that was
/// found in its state, which waits for what is left of it.
pub open spec fn arm_delay(t: Transition, timeout: StateTimeout, reason: ArmReason) -> nat {
    let budget = budget_nanos(timeout.after_seconds);
    match reason {
        ArmReason::Entry => budget,
        ArmReason::Reset => budget,
        ArmReason::Overdue => 0,
        ArmReason::Found => match clock_reset(
            t.events,
            t.post_state,
            texts(timeout.reset_on@),
        ) {
            Some(since) => (budget - elapsed_nanos(t.now, since)) as nat,
            None => budget,
        },
    }
}

/// Whether a timer of the state that was left is made stale.
pub open spec fn leaves_timed_state(t: Transition, timeouts: Seq<StateTimeout>) -> bool {
    pre_state(t) != t.post_state && exists|i: int|
        0 <= i < timeouts.len() && (#[trigger] timeouts[i]).state@ == pre_state(t)
}

/// The entity's last number after the first `n` timeouts were looked at.
pub open spec fn armed_seq(
    t: Transition,
    timeouts: Seq<StateTimeout>,
    start: u64,
    n: int,
) -> u64
    decreases n,
{
    if n <= 0 {
        start
    } else {
        let before = armed_seq(t, timeouts, start, n - 1);
        if arm_reason(t, timeouts[n - 1], before) is Some {
            (before + 1) as u64
        } else {
            before
        }
    }
}

/// The timers that the first `n` timeouts start.
pub open spec fn armed(
    t: Transition,
    timeouts: Seq<StateTimeout>,
    start: u64,
    n: int,
) -> Seq<TimerModel>
    decreases n,
{
    if n <= 0 {
        Seq::empty()
    } else {
        let before = armed(t, timeouts, start, n - 1);
        let seq = armed_seq(t, timeouts, start, n - 1);
        match arm_reason(t, timeouts[n - 1], seq) {
            None => before,
            Some(reason) => before.push(
                TimerModel {
                    place: (n - 1) as usize,
                    state: timeouts[n - 1].state@,
                    on_timeout: timeouts[n - 1].on_timeout@,
                    delay: arm_delay(t, timeouts[n - 1], reason),
                    seq: (seq + 1) as u64,
                    reason,
                },
            ),
        }
    }
}

/// The number from which the timers of a dispatch are counted.
pub open spec fn arm_start(t: Transition, timeouts: Seq<StateTimeout>, current: u64) -> u64 {
    if leaves_timed_state(t, timeouts) {
        (current + 1) as u64
    } else {
        current
    }
}

proof fn armed_seq_is_bounded(t: Transition, timeouts: Seq<StateTimeout>, start: u64, n: int)
    requires
        0 <= n,
        start + n <= u64::MAX,
    ensures
        start <= armed_seq(t, timeouts, start, n) <= start + n,
        armed(t, timeouts, start, n).len() == armed_seq(t, timeouts, start, n) - start,
    decreases n,
{
    if n > 0 {
        armed_seq_is_bounded(t, timeouts, start, n - 1);
    }
}

fn was_timed(timeouts: &Vec<StateTimeout>, state: &str) -> (r: bool)
    ensures
        r == exists|i: int| 0 <= i < timeouts@.len() && (#[trigger] timeouts@[i]).state@ == state@,
{
    let mut i: usize = 0;
    while i < timeouts.len()
        invariant
            i <= timeouts.len(),
            forall|k: int| 0 <= k < i ==> (#[trigger] timeouts@[k]).state@ != state@,
        decreases timeouts.len() - i,
    {
        if same(timeouts[i].state.as_str(), state) {
            return true;
        }
        i = i + 1;
    }
    false
}

/// Decides which timers a dispatch starts, and takes their numbers. Where there
/// is a journal it starts none: the timeouts are committed with the event, and a
/// timer here would race the one that owns them.
pub fn arm_state_timeouts_if_needed(
    tracker: &mut StateTimeoutTracker,
    has_journal: bool,
    timeouts: &Vec<StateTimeout>,
    key: &EntityKey,
    events: &Vec<EntityEvent>,
    post_state: &str,
    action: &str,
    now: Timestamp,
) -> (r: Vec<ArmedTimer>)
    requires
        old(tracker).wf(),
        old(tracker).seq_of(key@) + timeouts.len() < u64::MAX,
        old(tracker).pending_of(key@.1) + timeouts.len() <= u64::MAX,
    ensures
        final(tracker).wf(),
        has_journal ==> r@.len() == 0 && *final(tracker) == *old(tracker),
        !has_journal ==> {
            let t = Transition {
                events: views(events@),
                post_state: post_state@,
                action: action@,
                now,
            };
            let n = timeouts@.len() as int;
            let start = arm_start(t, timeouts@, old(tracker).seq_of(key@));
            &&& views(r@) == armed(t, timeouts@, start, n)
            &&& final(tracker).seq_of(key@) == armed_seq(t, timeouts@, start, n)
            &&& final(tracker).pending_of(key@.1) == old(tracker).pending_of(key@.1) + r@.len()
            &&& forall|other: (Seq<char>, Seq<char>, Seq<char>)|
                other != key@ ==> #[trigger] final(tracker).seq_of(other) == old(tracker).seq_of(
                    other,
                )
            &&& forall|other: Seq<char>|
                other != key@.1 ==> #[trigger] final(tracker).pending_of(other) == old(
                    tracker,
                ).pending_of(other)
        },
{
    if has_journal {
        return Vec::new();
    }
    let ghost t = Transition {
        events: views(events@),
        post_state: post_state@,
        action: action@,
        now,
    };
    let ghost current = tracker.seq_of(key@);
    let pre = if events.len() == 0 {
        String::new()
    } else {
        events[events.len() - 1].from_status.clone()
    };
    proof {
        if events@.len() > 0 {
            assert(t.events.last() == events@[events@.len() - 1]@);
        }
        assert(pre@ == pre_state(t));
    }
    let changed = !same(pre.as_str(), post_state);
    if changed && was_timed(timeouts, pre.as_str()) {
        let _stale: u64 = tracker.bump(key);
    }
    let ghost start = arm_start(t, timeouts@, current);
    let mut out: Vec<ArmedTimer> = Vec::new();
    let mut i: usize = 0;
    proof {
        assert(tracker.seq_of(key@) == start);
        assert(views(out@) =~= Seq::<TimerModel>::empty());
    }
    while i < timeouts.len()
        invariant
            i <= timeouts.len(),
            tracker.wf(),
            start <= current + 1,
            current + timeouts.len() < u64::MAX,
            current == old(tracker).seq_of(key@),
            start == arm_start(t, timeouts@, current),
            t == (Transition {
                events: views(events@),
                post_state: post_state@,
                action: action@,
                now,
            }),
            changed == (pre_state(t) != t.post_state),
            tracker.seq_of(key@) == armed_seq(t, timeouts@, start, i as int),
            views(out@) == armed(t, timeouts@, start, i as int),
            out.len() <= i,
            tracker.pending_of(key@.1) == old(tracker).pending_of(key@.1) + out.len(),
            old(tracker).pending_of(key@.1) + timeouts.len() <= u64::MAX,
            forall|other: (Seq<char>, Seq<char>, Seq<char>)|
                other != key@ ==> #[trigger] tracker.seq_of(other) == old(tracker).seq_of(other),
            forall|other: Seq<char>|
                other != key@.1 ==> #[trigger] tracker.pending_of(other) == old(
                    tracker,
                ).pending_of(other),
        decreases timeouts.len() - i,
    {
        let timeout = &timeouts[i];
        proof {
            armed_seq_is_bounded(t, timeouts@, start, i as int);
        }
        if same(timeout.state.as_str(), post_state) {
            let budget: u128 = timeout.after_seconds as u128 * 1_000_000_000;
            let plan: Option<(ArmReason, u128)> = if changed {
                Some((ArmReason::Entry, budget))
            } else if is_listed(&timeout.reset_on, action) {
                Some((ArmReason::Reset, budget))
            } else if tracker.current(key) == 0 {
                match compute_state_clock_reset_ts(events, post_state, &timeout.reset_on) {
                    Some(since) => {
                        let elapsed: u128 = elapsed_nanos_of(now, since);
                        if elapsed >= budget {
                            Some((ArmReason::Overdue, 0))
                        } else {
                            Some((ArmReason::Found, budget - elapsed))
                        }
                    },
                    None => Some((ArmReason::Found, budget)),
                }
            } else {
                None
            };
            match plan {
                None => {},
                Some((reason, nanos)) => {
                    proof {
                        assert(arm_reason(t, *timeout, tracker.seq_of(key@)) == Some(reason));
                        assert(arm_delay(t, *timeout, reason) == nanos);
                        assert(nanos <= crate::time::MAX_NANOS);
                    }
                    let ghost before = views(out@);
                    let ghost mid = *tracker;
                    let seq: u64 = tracker.bump(key);
                    tracker.inc_pending(key.entity_type.as_str());
                    proof {
                        assert forall|other: (Seq<char>, Seq<char>, Seq<char>)|
                            other != key@ implies #[trigger] tracker.seq_of(other) == old(
                            tracker,
                        ).seq_of(other) by {
                            assert(mid.seq_of(other) == old(tracker).seq_of(other));
                        }
                        assert forall|other: Seq<char>| other != key@.1 implies #[trigger]
                            tracker.pending_of(other) == old(tracker).pending_of(other) by {
                            assert(mid.pending_of(other) == old(tracker).pending_of(other));
                        }
                    }
                    let timer = ArmedTimer {
                        place: i,
                        state: timeout.state.clone(),
                        on_timeout: timeout.on_timeout.clone(),
                        delay: Duration::from_nanos(nanos),
                        seq,
                        reason,
                    };
                    let ghost shown = timer@;
                    out.push(timer);
                    proof {
                        assert(views(out@) =~= before.push(shown));
                    }
                },
            }
        }
        i = i + 1;
    }
    out
}

/// What a timer does when its time is over.
pub fn timer_fires(live: bool, status: Option<&str>, target_state: &str) -> (r: bool)
    ensures
        r == (live && status is Some && status->0@ == target_state@),
{
    match status {
        Some(s) => live && same(s, target_state),
        None => false,
    }
}

/// Every arming makes the entity's earlier timers stale: the number of a timer
/// that is armed is above every number that the entity had before.
pub proof fn arming_makes_earlier_timers_stale(
    t: Transition,
    timeouts: Seq<StateTimeout>,
    current: u64,
    earlier: u64,
)
    requires
        earlier <= current,
        current + timeouts.len() < u64::MAX,
        armed(t, timeouts, arm_start(t, timeouts, current), timeouts.len() as int).len() > 0,
    ensures
        armed_seq(t, timeouts, arm_start(t, timeouts, current), timeouts.len() as int) != earlier,
{
    armed_seq_is_bounded(
        t,
        timeouts,
        arm_start(t, timeouts, current),
        timeouts.len() as int,
    );
}

/// An entity that leaves a state with a timeout takes no timer of that state
/// along: every number that it had before is stale.
pub proof fn leaving_a_timed_state_cancels_its_timer(
    t: Transition,
    timeouts: Seq<StateTimeout>,
    current: u64,
    earlier: u64,
    place: int,
)
    requires
        earlier <= current,
        current + timeouts.len() < u64::MAX,
        t.events.len() > 0,
        t.events.last().from_status != t.post_state,
        0 <= place < timeouts.len(),
        timeouts[place].state@ == t.events.last().from_status,
    ensures
        armed_seq(t, timeouts, arm_start(t, timeouts, current), timeouts.len() as int) != earlier,
{
    armed_seq_is_bounded(
        t,
        timeouts,
        arm_start(t, timeouts, current),
        timeouts.len() as int,
    );
}

/// No timer waits longer than its declared budget.
pub proof fn a_timer_never_waits_past_its_budget(
    t: Transition,
    timeout: StateTimeout,
    seq: u64,
)
    requires
        arm_reason(t, timeout, seq) is Some,
    ensures
        arm_delay(t, timeout, arm_reason(t, timeout, seq)->0) <= budget_nanos(
            timeout.after_seconds,
        ),
{
}

/// Every timer that is armed is one that is declared: it carries the state and
/// the action of the timeout at its own place, its state is the one that the
/// entity is in, and its number is the next one. Coming into the state or a
/// reset waits for the whole of the declared time.
pub proof fn an_armed_timer_is_the_declared_one(
    t: Transition,
    timeouts: Seq<StateTimeout>,
    start: u64,
    n: int,
    k: int,
)
    requires
        0 <= n <= timeouts.len() <= usize::MAX,
        start + n <= u64::MAX,
        0 <= k < armed(t, timeouts, start, n).len(),
    ensures
        ({
            let timer = armed(t, timeouts, start, n)[k];
            let declared = timeouts[timer.place as int];
            let whole = declared.after_seconds as nat * 1_000_000_000;
            &&& timer.place < n
            &&& timer.state == declared.state@
            &&& timer.on_timeout == declared.on_timeout@
            &&& timer.state == t.post_state
            &&& timer.seq == start + k + 1
            &&& timer.delay <= whole
            &&& timer.reason is Entry || timer.reason is Reset ==> timer.delay == whole
            &&& timer.reason is Overdue ==> timer.delay == 0
            &&& timer.reason is Reset ==> exists|i: int|
                0 <= i < declared.reset_on@.len() && (#[trigger] declared.reset_on@[i])@
                    == t.action
            &&& timer.reason is Entry == (t.events.len() == 0 && t.post_state.len() > 0
                || t.events.len() > 0 && t.events.last().from_status != t.post_state)
            &&& forall|j: int|
                0 <= j < k ==> (#[trigger] armed(t, timeouts, start, n)[j]).place < timer.place
        }),
    decreases n,
{
    armed_seq_is_bounded(t, timeouts, start, n);
    let all = armed(t, timeouts, start, n);
    if n > 0 {
        armed_seq_is_bounded(t, timeouts, start, n - 1);
        let before = armed(t, timeouts, start, n - 1);
        if t.post_state.len() == 0 {
            assert(t.post_state =~= Seq::<char>::empty());
        }
        if k < before.len() {
            an_armed_timer_is_the_declared_one(t, timeouts, start, n - 1, k);
            assert forall|j: int| 0 <= j < k implies (#[trigger] all[j]).place
                < all[k].place by {
                assert(before[j] == all[j]);
            }
        } else {
            assert forall|j: int| 0 <= j < k implies (#[trigger] all[j]).place
                < all[k].place by {
                an_armed_timer_is_the_declared_one(t, timeouts, start, n - 1, j);
                assert(before[j] == all[j]);
            }
            let declared = timeouts[n - 1];
            if all[k].reason is Reset {
                let names = texts(declared.reset_on@);
                let i = choose|i: int| 0 <= i < names.len() && names[i] == t.action;
                assert(declared.reset_on@[i]@ == t.action);
            }
        }
    }
}

/// No declared timeout is passed over: where an entity comes into a state, or an
/// action sets the clock of its state back, every timeout that is declared for
/// the state has a timer.
pub proof fn every_timeout_of_the_state_is_armed(
    t: Transition,
    timeouts: Seq<StateTimeout>,
    start: u64,
    n: int,
    place: int,
)
    requires
        0 <= place < n <= timeouts.len() <= usize::MAX,
        start + n <= u64::MAX,
        timeouts[place].state@ == t.post_state,
        (t.events.len() > 0 && t.events.last().from_status != t.post_state) || (t.events.len()
            == 0 && t.post_state.len() > 0) || exists|i: int|
            0 <= i < timeouts[place].reset_on@.len() && (
            #[trigger] timeouts[place].reset_on@[i])@ == t.action,
    ensures
        exists|k: int|
            0 <= k < armed(t, timeouts, start, n).len() && (#[trigger] armed(
                t,
                timeouts,
                start,
                n,
            )[k]).place == place,
    decreases n,
{
    let all = armed(t, timeouts, start, n);
    let before = armed(t, timeouts, start, n - 1);
    if place < n - 1 {
        every_timeout_of_the_state_is_armed(t, timeouts, start, n - 1, place);
        let k = choose|k: int| 0 <= k < before.len() && (#[trigger] before[k]).place == place;
        assert(all[k] == before[k]);
    } else {
        let names = texts(timeouts[place].reset_on@);
        if exists|i: int|
            0 <= i < timeouts[place].reset_on@.len() && (
            #[trigger] timeouts[place].reset_on@[i])@ == t.action {
            let i = choose|i: int|
                0 <= i < timeouts[place].reset_on@.len() && (
                #[trigger] timeouts[place].reset_on@[i])@ == t.action;
            assert(names[i] == t.action);
        }
        assert(all[all.len() - 1].place == place);
    }
}

/// A dispatch that leaves an entity in its state, by an action that resets no
/// timeout of it, starts no timer where the entity has one already.
pub proof fn a_timed_entity_is_not_timed_twice(
    t: Transition,
    timeouts: Seq<StateTimeout>,
    start: u64,
    n: int,
)
    requires
        0 <= n <= timeouts.len(),
        start > 0,
        t.events.len() > 0,
        t.events.last().from_status == t.post_state,
        forall|i: int, j: int|
            0 <= i < timeouts.len() && 0 <= j < timeouts[i].reset_on@.len() ==> (
            #[trigger] timeouts[i].reset_on@[j])@ != t.action,
    ensures
        armed(t, timeouts, start, n).len() == 0,
        armed_seq(t, timeouts, start, n) == start,
    decreases n,
{
    if n > 0 {
        a_timed_entity_is_not_timed_twice(t, timeouts, start, n - 1);
        let names = texts(timeouts[n - 1].reset_on@);
        assert(!names.contains(t.action)) by {
            if names.contains(t.action) {
                let j = choose|j: int| 0 <= j < names.len() && names[j] == t.action;
                assert(timeouts[n - 1].reset_on@[j]@ == t.action);
            }
        }
    }
}

/// An entity that is found in its state without a timer waits for what is left:
/// the time that passed and the time that the timer waits make up the declared
/// time, and a time that is over leaves nothing to wait for.
pub proof fn a_found_timer_waits_for_what_is_left(
    t: Transition,
    timeout: StateTimeout,
    since: Timestamp,
)
    requires
        t.events.len() > 0,
        t.events.last().from_status == t.post_state,
        timeout.state@ == t.post_state,
        !texts(timeout.reset_on@).contains(t.action),
        clock_reset(t.events, t.post_state, texts(timeout.reset_on@)) == Some(since),
    ensures
        ({
            let whole = timeout.after_seconds as int * 1_000_000_000;
            let passed = elapsed_nanos(t.now, since) as int;
            let reason = arm_reason(t, timeout, 0);
            &&& reason is Some
            &&& passed >= whole ==> reason == Some(ArmReason::Overdue) && arm_delay(
                t,
                timeout,
                reason->0,
            ) == 0
            &&& passed < whole ==> reason == Some(ArmReason::Found) && arm_delay(
                t,
                timeout,
                reason->0,
            ) + passed == whole
        }),
{
}

proof fn an_entry_is_the_last_one(events: Seq<EventModel>, state: Seq<char>)
    ensures
        match entry_place(events, state) {
            Some(i) => {
                &&& 0 <= i < events.len()
                &&& events[i].to_status == state
                &&& events[i].from_status != state
                &&& forall|j: int|
                    i < j < events.len() ==> !((#[trigger] events[j]).to_status == state
                        && events[j].from_status != state)
            },
            None => forall|j: int|
                0 <= j < events.len() ==> !((#[trigger] events[j]).to_status == state
                    && events[j].from_status != state),
        },
    decreases events.len(),
{
    if events.len() > 0 && !(events.last().to_status == state && events.last().from_status
        != state) {
        let rest = events.drop_last();
        an_entry_is_the_last_one(rest, state);
        assert forall|j: int|
            0 <= j < events.len() && (entry_place(rest, state) is Some ==> entry_place(
                rest,
                state,
            )->0 < j) implies !((#[trigger] events[j]).to_status == state
            && events[j].from_status != state) by {
            if j < rest.len() {
                assert(rest[j] == events[j]);
            }
        }
    }
}

proof fn the_latest_reset_is_the_latest(
    events: Seq<EventModel>,
    reset_on: Seq<Seq<char>>,
    from: int,
    to: int,
)
    requires
        0 <= from <= to <= events.len(),
    ensures
        match latest_reset(events, reset_on, from, to) {
            Some(at) => {
                &&& exists|j: int|
                    from <= j < to && reset_on.contains((#[trigger] events[j]).action)
                        && events[j].timestamp == at
                &&& forall|j: int|
                    from <= j < to && reset_on.contains((#[trigger] events[j]).action)
                        ==> not_after(events[j].timestamp, at)
            },
            None => forall|j: int|
                from <= j < to ==> !reset_on.contains((#[trigger] events[j]).action),
        },
    decreases to - from,
{
    if from < to {
        the_latest_reset_is_the_latest(events, reset_on, from, to - 1);
        let before = latest_reset(events, reset_on, from, to - 1);
        let e = events[to - 1];
        if reset_on.contains(e.action) {
            if before is Some && !not_after(before->0, e.timestamp) {
                let j = choose|j: int|
                    from <= j < to - 1 && reset_on.contains((#[trigger] events[j]).action)
                        && events[j].timestamp == before->0;
                assert(events[j].timestamp == before->0);
            } else {
                assert(events[to - 1].timestamp == e.timestamp);
            }
        } else if before is Some {
            let j = choose|j: int|
                from <= j < to - 1 && reset_on.contains((#[trigger] events[j]).action)
                    && events[j].timestamp == before->0;
            assert(events[j].timestamp == before->0);
        }
    }
}

/// The clock of a state runs from the last event that brought the entity into it
/// or from a later reset: no reset since that event is later, and without one it
/// is that event's own time. There is no clock where no retained event brought
/// the entity into the state.
pub proof fn the_clock_runs_from_the_last_sign_of_progress(
    events: Seq<EventModel>,
    state: Seq<char>,
    reset_on: Seq<Seq<char>>,
    entry: int,
)
    requires
        0 <= entry < events.len(),
        events[entry].to_status == state,
        events[entry].from_status != state,
        forall|j: int|
            entry < j < events.len() ==> !((#[trigger] events[j]).to_status == state
                && events[j].from_status != state),
    ensures
        clock_reset(events, state, reset_on) is Some,
        ({
            let since = clock_reset(events, state, reset_on)->0;
            &&& forall|j: int|
                entry < j < events.len() && reset_on.contains((#[trigger] events[j]).action)
                    ==> not_after(events[j].timestamp, since)
            &&& (forall|j: int|
                entry < j < events.len() ==> !reset_on.contains((#[trigger] events[j]).action))
                ==> since == events[entry].timestamp
            &&& since != events[entry].timestamp ==> exists|j: int|
                entry < j < events.len() && reset_on.contains((#[trigger] events[j]).action)
                    && events[j].timestamp == since
        }),
{
    an_entry_is_the_last_one(events, state);
    let at = entry_place(events, state)->0;
    assert(at == entry);
    the_latest_reset_is_the_latest(events, reset_on, entry + 1, events.len() as int);
    let found = latest_reset(events, reset_on, entry + 1, events.len() as int);
    if found is Some {
        let j = choose|j: int|
            entry + 1 <= j < events.len() && reset_on.contains((#[trigger] events[j]).action)
                && events[j].timestamp == found->0;
        assert(events[j].timestamp == found->0);
    }
}

/// There is no clock where no retained event brought the entity into the state.
pub proof fn there_is_no_clock_without_an_entry(
    events: Seq<EventModel>,
    state: Seq<char>,
    reset_on: Seq<Seq<char>>,
)
    requires
        forall|j: int|
            0 <= j < events.len() ==> !((#[trigger] events[j]).to_status == state
                && events[j].from_status != state),
    ensures
        clock_reset(events, state, reset_on) is None,
{
    an_entry_is_the_last_one(events, state);
}

/// A timer fires only while it is live and its entity is still in the state that
/// it was armed for.
pub proof fn a_timer_fires_in_its_own_state_only(
    live: bool,
    status: Option<&str>,
    target_state: &str,
    r: bool,
)
    requires
        call_ensures(timer_fires, (live, status, target_state), r),
    ensures
        r ==> live && status is Some && status->0@ == target_state@,
        live && status is Some && status->0@ == target_state@ ==> r,
{
}

/// Each arming of an entity has a number of its own, one above the last, and
/// changes no other entity's.
pub proof fn each_arming_has_its_own_number()
    ensures
        forall|
            t: &mut StateTimeoutTracker,
            key: &EntityKey,
            r: u64,
            other: (Seq<char>, Seq<char>, Seq<char>),
        |
            t.wf() && t.seq_of(key@) < u64::MAX && #[trigger] call_ensures(
                StateTimeoutTracker::bump,
                (t, key),
                r,
            ) ==> {
                &&& t.seqs@.contains_key(key@) ==> r == t.seqs@[key@] + 1
                &&& !t.seqs@.contains_key(key@) ==> r == 1
                &&& final(t).seqs@.contains_key(key@) && final(t).seqs@[key@] == r
                &&& other != key@ && #[trigger] t.seqs@.contains_key(other) ==> final(t).seqs@.contains_key(other)
                    && final(t).seqs@[other] == t.seqs@[other]
            },
{
}

/// An entity that is forgotten is no longer known, and every other is as before.
pub proof fn only_the_named_entity_is_forgotten()
    ensures
        forall|
            t: &mut StateTimeoutTracker,
            tenant: &str,
            entity_type: &str,
            entity_id: &str,
            r: (),
            other: (Seq<char>, Seq<char>, Seq<char>),
        |
            t.wf() && #[trigger] call_ensures(
                StateTimeoutTracker::forget,
                (t, tenant, entity_type, entity_id),
                r,
            ) ==> {
                let key = (tenant@, entity_type@, entity_id@);
                &&& !final(t).seqs@.contains_key(key)
                &&& other != key ==> (#[trigger] t.seqs@.contains_key(other) == final(t).seqs@.contains_key(other))
                    && (t.seqs@.contains_key(other) ==> final(t).seqs@[other] == t.seqs@[other])
            },
{
}

/// A type without pending timers has none, and each one more and each one less
/// is counted for its own type, down to none.
pub proof fn timers_are_counted_by_type(
    pending: Map<Seq<char>, u64>,
    entity_type: Seq<char>,
    other: Seq<char>,
)
    requires
        pending.contains_key(entity_type) ==> pending[entity_type] < u64::MAX,
    ensures
        !pending.contains_key(entity_type) ==> count_of(pending, entity_type) == 0,
        pending.contains_key(entity_type) ==> count_of(pending, entity_type)
            == pending[entity_type],
        counted_up(pending, entity_type).contains_key(entity_type),
        !pending.contains_key(entity_type) ==> counted_up(pending, entity_type)[entity_type] == 1,
        pending.contains_key(entity_type) ==> counted_up(pending, entity_type)[entity_type]
            == pending[entity_type] + 1,
        pending.contains_key(entity_type) && pending[entity_type] > 0 ==> counted_off(
            pending,
            entity_type,
        )[entity_type] == pending[entity_type] - 1,
        !pending.contains_key(entity_type) || pending[entity_type] == 0 ==> counted_off(
            pending,
            entity_type,
        ) == pending,
        other != entity_type && pending.contains_key(other) ==> counted_up(
            pending,
            entity_type,
        )[other] == pending[other] && counted_off(pending, entity_type)[other] == pending[other],
{
}

} // verus!
