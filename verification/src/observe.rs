//! What observers of the server are told: replayable events of each entity,
//! progress of agents, design-time events and refresh hints.

use vstd::prelude::*;
use vstd::string::*;

use crate::json::Json;
use crate::json::JsonModel;
use crate::ordered::OrdMap;
use crate::text::views;

verus! {

/// The most events of one entity that can be replayed.
pub const OBSERVE_LOG_BUDGET: usize = 512;

/// An agent progress event for remote observation.
#[derive(Debug, PartialEq, Eq)]
pub struct AgentProgressEvent {
    /// Tenant that owns the related entity.
    pub tenant: String,
    /// Entity type that emitted the event.
    pub entity_type: String,
    /// Entity ID that emitted the event.
    pub entity_id: String,
    /// Monotonic per-entity event sequence.
    pub seq: u64,
    /// Event kind: "tool_call_started", "tool_call_completed",
    /// "task_started", "task_completed", "agent_completed".
    pub kind: String,
    /// The agent ID this event relates to.
    pub agent_id: String,
    /// Optional tool call ID (for tool_call_* events).
    pub tool_call_id: Option<String>,
    /// Optional tool name (for tool_call_* events).
    pub tool_name: Option<String>,
    /// Optional task ID (for task_* events).
    pub task_id: Option<String>,
    /// Optional result or status message.
    pub message: Option<String>,
    /// ISO-8601 timestamp when the event was created.
    pub timestamp: String,
    /// Optional structured payload.
    pub data: Option<Json>,
}

/// One replayable event of an entity.
#[derive(Debug, PartialEq, Eq)]
pub struct EntityObserveEvent {
    /// Tenant that owns the entity.
    pub tenant: String,
    /// Entity type for this event.
    pub entity_type: String,
    /// Entity instance ID.
    pub entity_id: String,
    /// Monotonic per-entity event sequence.
    pub seq: u64,
    /// Event name.
    pub event_name: String,
    /// Structured event payload.
    pub data: Json,
}

/// What an [`EntityObserveEvent`] holds.
pub struct ObserveModel {
    pub tenant: Seq<char>,
    pub entity_type: Seq<char>,
    pub entity_id: Seq<char>,
    pub seq: u64,
    pub event_name: Seq<char>,
    pub data: JsonModel,
}

impl View for EntityObserveEvent {
    type V = ObserveModel;

    open spec fn view(&self) -> ObserveModel {
        ObserveModel {
            tenant: self.tenant@,
            entity_type: self.entity_type@,
            entity_id: self.entity_id@,
            seq: self.seq,
            event_name: self.event_name@,
            data: self.data@,
        }
    }
}

impl EntityObserveEvent {
    pub fn copy(&self) -> (r: Self)
        ensures
            r@ == self@,
    {
        EntityObserveEvent {
            tenant: self.tenant.clone(),
            entity_type: self.entity_type.clone(),
            entity_id: self.entity_id.clone(),
            seq: self.seq,
            event_name: self.event_name.clone(),
            data: self.data.copy(),
        }
    }
}

/// Lightweight hint for the observe UI: which domain's data has changed.
#[derive(Clone, Copy, Debug, PartialEq, Eq, Structural)]
pub enum ObserveRefreshHint {
    Specs,
    Entities,
    Verification,
    Trajectories,
    Agents,
    Policies,
    EvolutionRecords,
    EvolutionInsights,
    UnmetIntents,
    FeatureRequests,
    OsApps,
    Decisions,
}

/// A design-time event emitted during spec loading and verification.
#[derive(Clone, Debug, PartialEq, Eq)]
pub struct DesignTimeEvent {
    /// Event kind: "spec_loaded", "verify_started", "verify_level", "verify_done".
    pub kind: String,
    /// Entity type this event relates to.
    pub entity_type: String,
    /// Tenant this event relates to.
    pub tenant: String,
    /// Human-readable summary.
    pub summary: String,
    /// Verification level name (for "verify_level" events).
    pub level: Option<String>,
    /// Whether this level/entity passed (for "verify_level" and "verify_done" events).
    pub passed: Option<bool>,
    /// ISO-8601 timestamp when the event was created.
    pub timestamp: String,
    /// Step number in the workflow (1=loaded, 2=verify_started, 3-6=L0-L3, 7=done).
    pub step_number: Option<u8>,
    /// Total steps in the workflow (always 7 for verification).
    pub total_steps: Option<u8>,
}

/// The hints that follow a design-time event: specs, verification and apps may
/// have changed.
pub fn design_time_refresh_hints() -> (r: Vec<ObserveRefreshHint>)
    ensures
        r@ == seq![
            ObserveRefreshHint::Specs,
            ObserveRefreshHint::Verification,
            ObserveRefreshHint::OsApps,
        ],
{
    let mut hints: Vec<ObserveRefreshHint> = Vec::new();
    hints.push(ObserveRefreshHint::Specs);
    hints.push(ObserveRefreshHint::Verification);
    hints.push(ObserveRefreshHint::OsApps);
    proof {
        assert(hints@ =~= seq![
            ObserveRefreshHint::Specs,
            ObserveRefreshHint::Verification,
            ObserveRefreshHint::OsApps,
        ]);
    }
    hints
}

/// The text of a failed write of a design-time event.
pub open spec fn design_time_failure(
    kind: Seq<char>,
    tenant: Seq<char>,
    entity_type: Seq<char>,
    backend: Seq<char>,
    error: Seq<char>,
) -> Seq<char> {
    "failed to persist design-time event "@ + kind + " for "@ + tenant + "/"@ + entity_type
        + " in "@ + backend + ": "@ + error
}

/// The text of a failed write of a design-time event.
pub fn design_time_event_failure(event: &DesignTimeEvent, backend: &str, error: &str) -> (r: String)
    ensures
        r@ == design_time_failure(
            event.kind@,
            event.tenant@,
            event.entity_type@,
            backend@,
            error@,
        ),
{
    let mut text = "failed to persist design-time event ".to_owned();
    text.append(event.kind.as_str());
    text.append(" for ");
    text.append(event.tenant.as_str());
    text.append("/");
    text.append(event.entity_type.as_str());
    text.append(" in ");
    text.append(backend);
    text.append(": ");
    text.append(error);
    text
}

/// The key of an entity: its tenant, its type and its identifier.
pub open spec fn entity_key(
    tenant: Seq<char>,
    entity_type: Seq<char>,
    entity_id: Seq<char>,
) -> Seq<char> {
    tenant + ":"@ + entity_type + ":"@ + entity_id
}

/// The key of an entity.
pub fn entity_key_of(tenant: &str, entity_type: &str, entity_id: &str) -> (r: String)
    ensures
        r@ == entity_key(tenant@, entity_type@, entity_id@),
{
    let mut text = tenant.to_owned();
    text.append(":");
    text.append(entity_type);
    text.append(":");
    text.append(entity_id);
    text
}

/// Whether an event with this sequence and name is in the log already.
pub open spec fn is_logged(log: Seq<ObserveModel>, e: ObserveModel) -> bool {
    exists|i: int|
        0 <= i < log.len() && (#[trigger] log[i]).seq == e.seq && log[i].event_name == e.event_name
}

/// The log of an entity after an event: a second one of the same sequence and
/// name is not taken, and the oldest events give way to the budget.
pub open spec fn logged(log: Seq<ObserveModel>, e: ObserveModel) -> Seq<ObserveModel> {
    if is_logged(log, e) {
        log
    } else if log.len() + 1 > OBSERVE_LOG_BUDGET {
        log.push(e).skip(log.len() + 1 - OBSERVE_LOG_BUDGET)
    } else {
        log.push(e)
    }
}

/// Enters an event in the log of its entity; tells whether it was taken.
pub fn log_event(log: &mut Vec<EntityObserveEvent>, event: EntityObserveEvent) -> (r: bool)
    ensures
        views(final(log)@) == logged(views(old(log)@), event@),
        r == !is_logged(views(old(log)@), event@),
        old(log).len() <= OBSERVE_LOG_BUDGET ==> final(log).len() <= OBSERVE_LOG_BUDGET,
{
    let ghost before = views(log@);
    let mut i: usize = 0;
    while i < log.len()
        invariant
            i <= log.len(),
            *log == *old(log),
            before == views(log@),
            forall|k: int|
                0 <= k < i ==> !((#[trigger] before[k]).seq == event@.seq && before[k].event_name
                    == event@.event_name),
        decreases log.len() - i,
    {
        proof {
            assert(before[i as int] == log@[i as int]@);
        }
        if log[i].seq == event.seq && log[i].event_name == event.event_name {
            return false;
        }
        i = i + 1;
    }
    let ghost e = event@;
    log.push(event);
    proof {
        assert(views(log@) =~= before.push(e));
    }
    let ghost all = log@;
    let total: usize = log.len();
    while log.len() > OBSERVE_LOG_BUDGET
        invariant
            all.len() == total,
            log.len() <= total,
            log@ == all.skip(total - log.len()),
            total <= OBSERVE_LOG_BUDGET ==> log.len() == total,
            total > OBSERVE_LOG_BUDGET ==> log.len() >= OBSERVE_LOG_BUDGET,
        decreases log.len(),
    {
        let _oldest = log.remove(0);
        proof {
            assert(log@ =~= all.skip(total - log.len()));
        }
    }
    proof {
        assert(views(log@) =~= logged(before, e));
    }
    true
}

/// The replayable events of every entity, and the last sequence that each
/// entity's observers were given.
#[derive(Debug, PartialEq, Eq)]
pub struct ObserveLog {
    pub sequences: OrdMap<String, u64>,
    pub events: OrdMap<String, Vec<EntityObserveEvent>>,
}

/// The last sequence of an entity, and zero where it has none.
pub open spec fn last_sequence(sequences: Map<Seq<char>, u64>, key: Seq<char>) -> u64 {
    if sequences.contains_key(key) {
        sequences[key]
    } else {
        0
    }
}

/// The sequences after the next one of an entity was taken.
pub open spec fn sequence_taken(sequences: Map<Seq<char>, u64>, key: Seq<char>) -> Map<
    Seq<char>,
    u64,
> {
    sequences.insert(key, (last_sequence(sequences, key) + 1) as u64)
}

/// The sequences after one of an entity was recorded: the last one does not go
/// back.
pub open spec fn sequence_noted(
    sequences: Map<Seq<char>, u64>,
    key: Seq<char>,
    seq: u64,
) -> Map<Seq<char>, u64> {
    let last = last_sequence(sequences, key);
    sequences.insert(
        key,
        if last >= seq {
            last
        } else {
            seq
        },
    )
}

impl ObserveLog {
    pub open spec fn wf(&self) -> bool {
        &&& self.sequences.wf()
        &&& self.events.wf()
    }

    /// The replayable events of the entity with this key.
    pub open spec fn log_of(&self, key: Seq<char>) -> Seq<ObserveModel> {
        if self.events@.contains_key(key) {
            views(self.events@[key])
        } else {
            Seq::empty()
        }
    }

    /// No entity has more events than the budget.
    pub open spec fn bounded(&self) -> bool {
        forall|key: Seq<char>| #[trigger]
            self.events@.contains_key(key) ==> self.events@[key].len() <= OBSERVE_LOG_BUDGET
    }

    pub fn new() -> (r: Self)
        ensures
            r.wf(),
            r.bounded(),
            forall|key: Seq<char>| #[trigger] r.log_of(key) == Seq::<ObserveModel>::empty(),
            r.sequences@ == Map::<Seq<char>, u64>::empty(),
    {
        ObserveLog { sequences: OrdMap::new(), events: OrdMap::new() }
    }

    /// Takes the next sequence of an entity.
    pub fn next_entity_event_sequence(
        &mut self,
        tenant: &str,
        entity_type: &str,
        entity_id: &str,
    ) -> (r: u64)
        requires
            old(self).wf(),
            last_sequence(
                old(self).sequences@,
                entity_key(tenant@, entity_type@, entity_id@),
            ) < u64::MAX,
        ensures
            final(self).wf(),
            final(self).events == old(self).events,
            ({
                let key = entity_key(tenant@, entity_type@, entity_id@);
                &&& r == last_sequence(old(self).sequences@, key) + 1
                &&& final(self).sequences@ == sequence_taken(old(self).sequences@, key)
            }),
    {
        let key = entity_key_of(tenant, entity_type, entity_id);
        let next: u64 = match self.sequences.get(&key) {
            Some(n) => *n + 1,
            None => 1,
        };
        self.sequences.insert(key, next);
        next
    }

    /// Enters an event in the log of its entity; tells whether it was taken.
    pub fn push_entity_observe_event(&mut self, event: EntityObserveEvent) -> (r: bool)
        requires
            old(self).wf(),
        ensures
            final(self).wf(),
            final(self).sequences == old(self).sequences,
            ({
                let key = entity_key(event@.tenant, event@.entity_type, event@.entity_id);
                &&& r == !is_logged(old(self).log_of(key), event@)
                &&& final(self).log_of(key) == logged(old(self).log_of(key), event@)
                &&& forall|other: Seq<char>|
                    other != key ==> #[trigger] final(self).log_of(other) == old(self).log_of(
                        other,
                    )
            }),
            old(self).bounded() ==> final(self).bounded(),
    {
        let key = entity_key_of(
            event.tenant.as_str(),
            event.entity_type.as_str(),
            event.entity_id.as_str(),
        );
        let ghost k = key@;
        let ghost before = self.log_of(k);
        let mut log: Vec<EntityObserveEvent> = match self.events.take(&key) {
            Some(log) => log,
            None => Vec::new(),
        };
        proof {
            assert(views(log@) =~= before);
        }
        let taken = log_event(&mut log, event);
        self.events.insert(key, log);
        proof {
            assert forall|other: Seq<char>| other != k implies #[trigger] self.log_of(other)
                == old(self).log_of(other) by {}
        }
        taken
    }

    /// Enters an event under a sequence that was given to it, and keeps the
    /// entity's sequence at least there.
    pub fn record_entity_observe_event_with_seq(
        &mut self,
        tenant: &str,
        entity_type: &str,
        entity_id: &str,
        seq: u64,
        event_name: &str,
        data: Json,
    ) -> (r: bool)
        requires
            old(self).wf(),
        ensures
            final(self).wf(),
            ({
                let key = entity_key(tenant@, entity_type@, entity_id@);
                let e = ObserveModel {
                    tenant: tenant@,
                    entity_type: entity_type@,
                    entity_id: entity_id@,
                    seq,
                    event_name: event_name@,
                    data: data@,
                };
                &&& r == !is_logged(old(self).log_of(key), e)
                &&& final(self).log_of(key) == logged(old(self).log_of(key), e)
                &&& final(self).sequences@ == sequence_noted(old(self).sequences@, key, seq)
                &&& forall|other: Seq<char>|
                    other != key ==> #[trigger] final(self).log_of(other) == old(self).log_of(
                        other,
                    )
            }),
            old(self).bounded() ==> final(self).bounded(),
    {
        let key = entity_key_of(tenant, entity_type, entity_id);
        let kept: u64 = match self.sequences.get(&key) {
            Some(n) => if *n >= seq {
                *n
            } else {
                seq
            },
            None => seq,
        };
        self.sequences.insert(key, kept);
        self.push_entity_observe_event(
            EntityObserveEvent {
                tenant: tenant.to_owned(),
                entity_type: entity_type.to_owned(),
                entity_id: entity_id.to_owned(),
                seq,
                event_name: event_name.to_owned(),
                data,
            },
        )
    }

    /// The events of an entity after the sequence `since`, in the order in
    /// which they came.
    pub fn replay_entity_observe_events(
        &self,
        tenant: &str,
        entity_type: &str,
        entity_id: &str,
        since: u64,
    ) -> (r: Vec<EntityObserveEvent>)
        requires
            self.wf(),
        ensures
            views(r@) == self.log_of(entity_key(tenant@, entity_type@, entity_id@)).filter(
                |e: ObserveModel| e.seq > since,
            ),
    {
        let key = entity_key_of(tenant, entity_type, entity_id);
        let ghost pred = |e: ObserveModel| e.seq > since;
        let mut out: Vec<EntityObserveEvent> = Vec::new();
        proof {
            assert(views(out@) =~= Seq::<ObserveModel>::empty());
            assert(Seq::<ObserveModel>::empty().filter(pred) =~= Seq::<ObserveModel>::empty());
        }
        match self.events.get(&key) {
            None => out,
            Some(log) => {
                let ghost all = views(log@);
                let mut i: usize = 0;
                proof {
                    assert(all.take(0) =~= Seq::<ObserveModel>::empty());
                }
                while i < log.len()
                    invariant
                        i <= log.len(),
                        all == views(log@),
                        pred == (|e: ObserveModel| e.seq > since),
                        views(out@) == all.take(i as int).filter(pred),
                    decreases log.len() - i,
                {
                    proof {
                        assert(all.take(i + 1).drop_last() =~= all.take(i as int));
                        assert(all.take(i + 1).last() == log@[i as int]@);
                        reveal(Seq::filter);
                    }
                    if log[i].seq > since {
                        let ghost before = views(out@);
                        out.push(log[i].copy());
                        proof {
                            assert(views(out@) =~= before.push(log@[i as int]@));
                        }
                    }
                    i = i + 1;
                }
                proof {
                    assert(all.take(all.len() as int) =~= all);
                }
                out
            },
        }
    }
}

/// The replayable event of an agent's progress, whose payload is `data`.
pub fn progress_observe_event(event: &AgentProgressEvent, data: Json) -> (r: EntityObserveEvent)
    ensures
        r@ == (ObserveModel {
            tenant: event.tenant@,
            entity_type: event.entity_type@,
            entity_id: event.entity_id@,
            seq: event.seq,
            event_name: event.kind@,
            data: data@,
        }),
{
    EntityObserveEvent {
        tenant: event.tenant.clone(),
        entity_type: event.entity_type.clone(),
        entity_id: event.entity_id.clone(),
        seq: event.seq,
        event_name: event.kind.clone(),
        data,
    }
}

/// A sequence that observers were given is never given again: neither taking the
/// next sequence nor recording one lets the last one of any entity go back, so
/// that the next one is above every sequence that was taken or recorded.
pub proof fn sequences_only_grow(
    sequences: Map<Seq<char>, u64>,
    key: Seq<char>,
    recorded: u64,
    other: Seq<char>,
)
    requires
        last_sequence(sequences, key) < u64::MAX,
    ensures
        last_sequence(sequence_taken(sequences, key), key) > last_sequence(sequences, key),
        last_sequence(sequence_noted(sequences, key, recorded), key) >= recorded,
        last_sequence(sequence_taken(sequences, key), other) >= last_sequence(sequences, other),
        last_sequence(sequence_noted(sequences, key, recorded), other) >= last_sequence(
            sequences,
            other,
        ),
{
}

/// An event that is entered twice is in the log once.
pub proof fn an_event_is_logged_once(log: Seq<ObserveModel>, e: ObserveModel)
    requires
        log.len() <= OBSERVE_LOG_BUDGET,
    ensures
        logged(logged(log, e), e) == logged(log, e),
{
    let once = logged(log, e);
    if !is_logged(log, e) {
        assert(once.last() == e);
        assert(once[once.len() - 1].seq == e.seq);
        assert(is_logged(once, e));
    }
}

/// An event that was not in the log is its newest, and what was in it stays,
/// except for the oldest of a full log. One that was in it changes nothing.
pub proof fn a_log_ends_with_its_newest_event(log: Seq<ObserveModel>, e: ObserveModel)
    requires
        log.len() <= OBSERVE_LOG_BUDGET,
    ensures
        (exists|i: int|
            0 <= i < log.len() && (#[trigger] log[i]).seq == e.seq && log[i].event_name
                == e.event_name) ==> logged(log, e) == log,
        (forall|i: int|
            0 <= i < log.len() ==> (#[trigger] log[i]).seq != e.seq || log[i].event_name
                != e.event_name) ==> {
            let after = logged(log, e);
            &&& after.len() > 0 && after[after.len() - 1] == e
            &&& log.len() < OBSERVE_LOG_BUDGET ==> after.drop_last() == log
            &&& log.len() == OBSERVE_LOG_BUDGET ==> after.drop_last() == log.drop_first()
        },
{
    if !is_logged(log, e) {
        let after = logged(log, e);
        if log.len() < OBSERVE_LOG_BUDGET {
            assert(after.drop_last() =~= log);
        } else {
            assert(after.drop_last() =~= log.drop_first());
        }
    }
}

/// Observers that come back are told every event after the one that they name,
/// and no other.
pub proof fn what_came_later_is_told_again(
    events: &ObserveLog,
    tenant: &str,
    entity_type: &str,
    entity_id: &str,
    since: u64,
    r: Vec<EntityObserveEvent>,
    e: ObserveModel,
)
    requires
        events.wf(),
        call_ensures(
            ObserveLog::replay_entity_observe_events,
            (events, tenant, entity_type, entity_id, since),
            r,
        ),
    ensures
        views(r@).contains(e) <==> e.seq > since && events.log_of(
            entity_key(tenant@, entity_type@, entity_id@),
        ).contains(e),
        (forall|i: int|
            0 <= i < events.log_of(entity_key(tenant@, entity_type@, entity_id@)).len() ==> (
            #[trigger] events.log_of(entity_key(tenant@, entity_type@, entity_id@))[i]).seq > since)
            ==> views(r@) == events.log_of(entity_key(tenant@, entity_type@, entity_id@)),
{
    broadcast use crate::text::filtering;

    let log = events.log_of(entity_key(tenant@, entity_type@, entity_id@));
    if views(r@).contains(e) {
        let k = views(r@).index_of(e);
        assert(views(r@)[k] == e);
    }
    if log.contains(e) && e.seq > since {
        assert(views(r@).contains(e));
    }
}

/// Each sequence that is given is one above the last of its entity, and giving
/// it changes neither the last of another entity nor any log.
pub proof fn sequences_are_given_one_by_one()
    ensures
        forall|
            o: &mut ObserveLog,
            tenant: &str,
            entity_type: &str,
            entity_id: &str,
            r: u64,
            other: Seq<char>,
        |
            o.wf() && last_sequence(o.sequences@, entity_key(tenant@, entity_type@, entity_id@))
                < u64::MAX && #[trigger] call_ensures(
                ObserveLog::next_entity_event_sequence,
                (o, tenant, entity_type, entity_id),
                r,
            ) ==> {
                let key = entity_key(tenant@, entity_type@, entity_id@);
                &&& o.sequences@.contains_key(key) ==> r == o.sequences@[key] + 1
                &&& !o.sequences@.contains_key(key) ==> r == 1
                &&& final(o).sequences@.contains_key(key) && final(o).sequences@[key] == r
                &&& final(o).events == o.events
                &&& other != key && #[trigger] o.sequences@.contains_key(other) ==> final(o).sequences@.contains_key(other)
                    && final(o).sequences@[other] == o.sequences@[other]
            },
{
}

/// Two entities of a tenant and a type, one type in two tenants, or two types of
/// a tenant do not share a log.
pub proof fn entities_are_observed_apart(
    tenant: Seq<char>,
    entity_type: Seq<char>,
    entity_id: Seq<char>,
    other: Seq<char>,
)
    ensures
        entity_key(tenant, entity_type, entity_id) == entity_key(tenant, entity_type, other)
            ==> entity_id == other,
        entity_key(tenant, entity_type, entity_id) == entity_key(tenant, other, entity_id)
            ==> entity_type == other,
        entity_key(tenant, entity_type, entity_id) == entity_key(other, entity_type, entity_id)
            ==> tenant == other,
{
    let key = entity_key(tenant, entity_type, entity_id);
    let by_id = entity_key(tenant, entity_type, other);
    let by_type = entity_key(tenant, other, entity_id);
    let by_tenant = entity_key(other, entity_type, entity_id);
    reveal_strlit(":");
    assert(":"@.len() == 1);
    let head = (tenant.len() + entity_type.len() + 2) as int;
    assert(key.skip(head) =~= entity_id);
    assert(by_id.skip(head) =~= other);
    if key == by_type {
        assert(key.len() == by_type.len());
        let at = tenant.len() as int + 1;
        assert(key.subrange(at, at + entity_type.len()) =~= entity_type);
        assert(by_type.subrange(at, at + other.len()) =~= other);
    }
    if key == by_tenant {
        assert(key.len() == by_tenant.len());
        assert(key.take(tenant.len() as int) =~= tenant);
        assert(by_tenant.take(other.len() as int) =~= other);
    }
}

} // verus!
