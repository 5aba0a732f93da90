//! Recovery of a scoped entity's bootstrap from its journal.

use vstd::prelude::*;
use vstd::string::*;

use crate::json::member;
use crate::json::text_member;
use crate::json::same_json;
use crate::json::Json;
use crate::json::JsonModel;
use crate::ordered::OrdMap;
use crate::stream::EntityEvent;
use crate::stream::EventModel;
use crate::text::same;

verus! {

/// The most events of one page.
pub const PAGE_SIZE: usize = 256;

/// The most events that a recovery may be asked to read.
pub const MAX_REPLAY_BUDGET: usize = 10_000;

/// A journal entry with its payload.
#[derive(Debug, PartialEq, Eq)]
pub struct PayloadEnvelope {
    pub sequence_nr: u64,
    pub payload: Json,
}

/// What the first action of a bootstrap left behind.
#[derive(Debug, PartialEq, Eq)]
pub struct BootstrapActionJournalOutcome {
    pub sequence: u64,
    pub fields: Json,
    pub status: String,
}

/// What a [`BootstrapActionJournalOutcome`] holds.
pub struct OutcomeModel {
    pub sequence: u64,
    pub fields: JsonModel,
    pub status: Seq<char>,
}

impl View for BootstrapActionJournalOutcome {
    type V = OutcomeModel;

    open spec fn view(&self) -> OutcomeModel {
        OutcomeModel { sequence: self.sequence, fields: self.fields@, status: self.status@ }
    }
}

/// The outcome that an event of the reserved action recorded, or why the event
/// is not that of the reservation.
pub open spec fn recorded_outcome(
    sequence: u64,
    payload: JsonModel,
    expected_action: Seq<char>,
    expected_params: Result<JsonModel, Seq<char>>,
    outcome_field: Seq<char>,
) -> Result<OutcomeModel, Seq<char>> {
    if text_member(payload, "action"@) != Some(expected_action) {
        Err("bootstrap action event does not match the reserved action"@)
    } else {
        match expected_params {
            Err(e) => Err("reserved action parameters are invalid: "@ + e),
            Ok(params) => if !(member(payload, "params"@) is Some && same_json(
                member(payload, "params"@)->0,
                params,
            )) {
                Err("bootstrap action event parameters do not match the reservation"@)
            } else {
                match member(payload, outcome_field) {
                    Some(JsonModel::Object(o)) => {
                        let outcome = JsonModel::Object(o);
                        match (member(outcome, "fields"@), text_member(outcome, "status"@)) {
                            (None, _) => Err(
                                "bootstrap action event is missing durable result fields"@,
                            ),
                            (_, None) => Err(
                                "bootstrap action event is missing durable result status"@,
                            ),
                            (Some(fields), Some(status)) => Ok(
                                OutcomeModel { sequence, fields, status },
                            ),
                        }
                    },
                    _ => Err("bootstrap action event is missing its durable outcome"@),
                }
            },
        }
    }
}

/// Reads the outcome that an event of the reserved action recorded.
pub fn read_recorded_outcome(
    envelope: &PayloadEnvelope,
    expected_action: &str,
    expected_params: &Result<Json, String>,
    outcome_field: &str,
) -> (r: Result<BootstrapActionJournalOutcome, String>)
    ensures
        crate::text::outcome(r) == recorded_outcome(
            envelope.sequence_nr,
            envelope.payload@,
            expected_action@,
            crate::text::outcome(*expected_params),
            outcome_field@,
        ),
{
    let action_matches = match envelope.payload.get_text("action") {
        Some(a) => same(a, expected_action),
        None => false,
    };
    if !action_matches {
        return Err("bootstrap action event does not match the reserved action".to_owned());
    }
    let expected = match expected_params {
        Ok(p) => p,
        Err(e) => {
            let mut text = "reserved action parameters are invalid: ".to_owned();
            text.append(e.as_str());
            return Err(text);
        },
    };
    let params_match = match envelope.payload.get("params") {
        Some(p) => p.equals(expected),
        None => false,
    };
    if !params_match {
        return Err("bootstrap action event parameters do not match the reservation".to_owned());
    }
    let outcome = match envelope.payload.get(outcome_field) {
        Some(o) => o,
        None => return Err("bootstrap action event is missing its durable outcome".to_owned()),
    };
    if !outcome.is_object() {
        return Err("bootstrap action event is missing its durable outcome".to_owned());
    }
    let fields = match outcome.get("fields") {
        Some(f) => f.copy(),
        None => return Err("bootstrap action event is missing durable result fields".to_owned()),
    };
    let status = match outcome.get_text("status") {
        Some(s) => s.to_owned(),
        None => return Err("bootstrap action event is missing durable result status".to_owned()),
    };
    Ok(BootstrapActionJournalOutcome { sequence: envelope.sequence_nr, fields, status })
}

/// Where a recovery stands in the journal, and how much of its budget it used.
#[derive(Clone, Copy, Debug, PartialEq, Eq, Structural)]
pub struct ReplayCursor {
    pub from_sequence: u64,
    pub consumed: usize,
    pub budget: usize,
}

impl ReplayCursor {
    /// Within the budget, which is within the bounds.
    pub open spec fn wf(&self) -> bool {
        &&& 1 <= self.budget <= MAX_REPLAY_BUDGET
        &&& self.consumed <= self.budget
    }

    /// Begins a recovery with a budget.
    pub fn start(replay_budget: usize) -> (r: Result<Self, String>)
        ensures
            match r {
                Ok(c) => c.wf() && c.from_sequence == 0 && c.consumed == 0 && c.budget
                    == replay_budget && 1 <= replay_budget <= MAX_REPLAY_BUDGET,
                Err(e) => !(1 <= replay_budget <= MAX_REPLAY_BUDGET) && e@
                    == "bootstrap action replay budget must be between 1 and 10000"@,
            },
    {
        if replay_budget == 0 || replay_budget > MAX_REPLAY_BUDGET {
            return Err("bootstrap action replay budget must be between 1 and 10000".to_owned());
        }
        Ok(ReplayCursor { from_sequence: 0, consumed: 0, budget: replay_budget })
    }

    /// How many events the next page asks for, or that the budget is used up.
    pub fn page_limit(&self) -> (r: Result<usize, String>)
        requires
            self.wf(),
        ensures
            match r {
                Ok(n) => self.consumed < self.budget && n == if self.budget - self.consumed
                    < PAGE_SIZE {
                    self.budget - self.consumed
                } else {
                    PAGE_SIZE as int
                } && n >= 1,
                Err(e) => self.consumed == self.budget && e@
                    == "bootstrap action replay budget exhausted before exact outcome"@,
            },
    {
        let remaining: usize = self.budget - self.consumed;
        if remaining == 0 {
            return Err("bootstrap action replay budget exhausted before exact outcome".to_owned());
        }
        if remaining < PAGE_SIZE {
            Ok(remaining)
        } else {
            Ok(PAGE_SIZE)
        }
    }
}

/// Whether an event is that of the reserved action.
pub open spec fn is_reserved(payload: JsonModel, key: Seq<char>) -> bool {
    text_member(payload, "idempotency_key"@) == Some(key)
}

/// The place of the first event of the reserved action.
pub open spec fn first_reserved(events: Seq<PayloadEnvelope>, key: Seq<char>) -> Option<int>
    decreases events.len(),
{
    if events.len() == 0 {
        None
    } else if is_reserved(events[0].payload@, key) {
        Some(0)
    } else {
        match first_reserved(events.drop_first(), key) {
            Some(i) => Some(i + 1),
            None => None,
        }
    }
}

/// What a page leads to.
#[derive(Debug, PartialEq, Eq)]
pub enum ReplayStep {
    /// The action was found, and this is what it left behind.
    Found(BootstrapActionJournalOutcome),
    /// The journal ends without it.
    Absent,
    /// The next page is read from here.
    Continue(ReplayCursor),
}

proof fn first_reserved_at(events: Seq<PayloadEnvelope>, key: Seq<char>, n: int)
    requires
        0 <= n <= events.len(),
        forall|k: int| 0 <= k < n ==> !is_reserved((#[trigger] events[k]).payload@, key),
    ensures
        first_reserved(events, key) == match first_reserved(events.skip(n), key) {
            Some(i) => Some(i + n),
            None => None::<int>,
        },
    decreases n,
{
    if n == 0 {
        assert(events.skip(0) =~= events);
    } else {
        let rest = events.drop_first();
        assert forall|k: int| 0 <= k < n - 1 implies !is_reserved(
            (#[trigger] rest[k]).payload@,
            key,
        ) by {
            assert(rest[k] == events[k + 1]);
        }
        first_reserved_at(rest, key, n - 1);
        assert(rest.skip(n - 1) =~= events.skip(n));
        assert(!is_reserved(events[0].payload@, key));
    }
}

/// Looks through one page for the reserved action. The page holds at most as
/// many events as it was asked for.
pub fn scan_bootstrap_page(
    cursor: ReplayCursor,
    events: &Vec<PayloadEnvelope>,
    limit: usize,
    action_idempotency_key: &str,
    expected_action: &str,
    expected_params: &Result<Json, String>,
    outcome_field: &str,
) -> (r: Result<ReplayStep, String>)
    requires
        cursor.wf(),
        events.len() <= limit <= cursor.budget - cursor.consumed,
    ensures
        match first_reserved(events@, action_idempotency_key@) {
            Some(i) => {
                let expected = recorded_outcome(
                    events@[i].sequence_nr,
                    events@[i].payload@,
                    expected_action@,
                    crate::text::outcome(*expected_params),
                    outcome_field@,
                );
                match r {
                    Ok(ReplayStep::Found(o)) => expected == Ok::<OutcomeModel, Seq<char>>(o@),
                    Ok(_) => false,
                    Err(e) => expected == Err::<OutcomeModel, Seq<char>>(e@),
                }
            },
            None => if events@.len() == 0 || events@.len() < limit {
                r is Ok && r->Ok_0 is Absent
            } else {
                r is Ok && r->Ok_0 is Continue && r->Ok_0->Continue_0 == (ReplayCursor {
                    from_sequence: events@.last().sequence_nr,
                    consumed: (cursor.consumed + events@.len()) as usize,
                    ..cursor
                }) && r->Ok_0->Continue_0.wf()
            },
        },
{
    let mut i: usize = 0;
    while i < events.len()
        invariant
            i <= events.len(),
            forall|k: int|
                0 <= k < i ==> !is_reserved(
                    (#[trigger] events@[k]).payload@,
                    action_idempotency_key@,
                ),
        decreases events.len() - i,
    {
        let reserved = match events[i].payload.get_text("idempotency_key") {
            Some(k) => same(k, action_idempotency_key),
            None => false,
        };
        if reserved {
            proof {
                first_reserved_at(events@, action_idempotency_key@, i as int);
                assert(events@.skip(i as int)[0] == events@[i as int]);
            }
            return match read_recorded_outcome(
                &events[i],
                expected_action,
                expected_params,
                outcome_field,
            ) {
                Ok(o) => Ok(ReplayStep::Found(o)),
                Err(e) => Err(e),
            };
        }
        i = i + 1;
    }
    proof {
        first_reserved_at(events@, action_idempotency_key@, events@.len() as int);
        assert(events@.skip(events@.len() as int).len() == 0);
    }
    if events.len() == 0 || events.len() < limit {
        return Ok(ReplayStep::Absent);
    }
    Ok(
        ReplayStep::Continue(
            ReplayCursor {
                from_sequence: events[events.len() - 1].sequence_nr,
                consumed: cursor.consumed + events.len(),
                budget: cursor.budget,
            },
        ),
    )
}

/// The sequence of a creation that a bootstrap owns, from the first event of the
/// journal.
pub open spec fn owned_creation(
    first: Option<(u64, Result<EventModel, Seq<char>>)>,
    key: Seq<char>,
) -> Result<u64, Seq<char>> {
    match first {
        None => Err("bootstrap creation journal is empty after actor creation"@),
        Some((_, Err(e))) => Err("bootstrap creation event is invalid: "@ + e),
        Some((sequence, Ok(event))) => if event.action != "Created"@ || event.idempotency_key
            != Some(key) {
            Err("BootstrapTargetConflict: existing journal is owned by another creation"@)
        } else {
            Ok(sequence)
        },
    }
}

/// What the first event of a journal holds.
pub open spec fn first_model(first: Option<(u64, Result<EntityEvent, String>)>) -> Option<
    (u64, Result<EventModel, Seq<char>>),
> {
    match first {
        None => None,
        Some((n, e)) => Some((n, crate::text::outcome(e))),
    }
}

/// The sequence of a creation that a bootstrap owns.
pub fn bootstrap_creation_sequence(
    first: &Option<(u64, Result<EntityEvent, String>)>,
    creation_idempotency_key: &str,
) -> (r: Result<u64, String>)
    ensures
        crate::text::outcome(r) == owned_creation(first_model(*first), creation_idempotency_key@),
{
    match first {
        None => Err("bootstrap creation journal is empty after actor creation".to_owned()),
        Some((sequence, decoded)) => match decoded {
            Err(e) => {
                let mut text = "bootstrap creation event is invalid: ".to_owned();
                text.append(e.as_str());
                Err(text)
            },
            Ok(event) => {
                let key_matches = match &event.idempotency_key {
                    Some(k) => same(k.as_str(), creation_idempotency_key),
                    None => false,
                };
                if !same(event.action.as_str(), "Created") || !key_matches {
                    return Err(
                        "BootstrapTargetConflict: existing journal is owned by another creation".to_owned(),
                    );
                }
                Ok(*sequence)
            },
        },
    }
}

/// The sequence of a creation that a bootstrap owns, from the keys that the
/// actor has processed, where there is no journal.
pub fn bootstrap_creation_in_memory(
    processed: &OrdMap<String, u64>,
    creation_idempotency_key: &str,
) -> (r: Result<u64, String>)
    requires
        processed.wf(),
    ensures
        match r {
            Ok(n) => processed@.contains_key(creation_idempotency_key@) && n
                == processed@[creation_idempotency_key@],
            Err(e) => !processed@.contains_key(creation_idempotency_key@) && e@
                == "BootstrapTargetConflict: existing actor is owned by another creation"@,
        },
{
    match processed.get(&creation_idempotency_key.to_owned()) {
        Some(n) => Ok(*n),
        None => Err(
            "BootstrapTargetConflict: existing actor is owned by another creation".to_owned(),
        ),
    }
}

/// Whether the first event of a journal belongs to a reserved creation.
pub fn first_event_is_of(
    first: &Option<(u64, Result<EntityEvent, String>)>,
    creation_idempotency_key: &str,
) -> (r: bool)
    ensures
        r == match first_model(*first) {
            Some((_, Ok(event))) => event.idempotency_key == Some(creation_idempotency_key@),
            _ => false,
        },
{
    match first {
        Some((_, Ok(event))) => match &event.idempotency_key {
            Some(k) => same(k.as_str(), creation_idempotency_key),
            None => false,
        },
        _ => false,
    }
}

/// The first event of a journal, as it was read.
pub type FirstEventRead = Result<Option<(u64, Result<EntityEvent, String>)>, String>;

fn unreadable_creation(error: &str) -> (r: String)
    ensures
        r@ == "bootstrap creation journal read failed: "@ + error@,
{
    let mut text = "bootstrap creation journal read failed: ".to_owned();
    text.append(error);
    text
}

/// The sequence of a creation that a bootstrap owns: by the first event of the
/// journal where there is one, else by the keys that the actor has processed.
pub fn bootstrap_creation(
    journal: &Option<FirstEventRead>,
    processed: &OrdMap<String, u64>,
    creation_idempotency_key: &str,
) -> (r: Result<u64, String>)
    requires
        processed.wf(),
    ensures
        match *journal {
            Some(Err(e)) => r is Err && r->Err_0@ == "bootstrap creation journal read failed: "@
                + e@,
            Some(Ok(first)) => crate::text::outcome(r) == owned_creation(
                first_model(first),
                creation_idempotency_key@,
            ),
            None => match r {
                Ok(n) => processed@.contains_key(creation_idempotency_key@) && n
                    == processed@[creation_idempotency_key@],
                Err(e) => !processed@.contains_key(creation_idempotency_key@) && e@
                    == "BootstrapTargetConflict: existing actor is owned by another creation"@,
            },
        },
{
    match journal {
        Some(Err(e)) => Err(unreadable_creation(e.as_str())),
        Some(Ok(first)) => bootstrap_creation_sequence(first, creation_idempotency_key),
        None => bootstrap_creation_in_memory(processed, creation_idempotency_key),
    }
}

/// Whether a creation is that of a bootstrap: by the first event of the journal
/// where the entity is pinned and there is a journal, else by the keys that the
/// actor has processed.
pub fn bootstrap_creation_is_owned_by(
    journal: &Option<FirstEventRead>,
    processed: &OrdMap<String, u64>,
    creation_idempotency_key: &str,
) -> (r: Result<bool, String>)
    requires
        processed.wf(),
    ensures
        match *journal {
            Some(Err(e)) => r is Err && r->Err_0@ == "bootstrap creation journal read failed: "@
                + e@,
            Some(Ok(first)) => r == Ok::<bool, String>(
                match first_model(first) {
                    Some((_, Ok(event))) => event.idempotency_key == Some(
                        creation_idempotency_key@,
                    ),
                    _ => false,
                },
            ),
            None => r == Ok::<bool, String>(processed@.contains_key(creation_idempotency_key@)),
        },
{
    match journal {
        Some(Err(e)) => Err(unreadable_creation(e.as_str())),
        Some(Ok(first)) => Ok(first_event_is_of(first, creation_idempotency_key)),
        None => Ok(processed.contains(&creation_idempotency_key.to_owned())),
    }
}

/// A journal is searched the same however it is paged: what two pages hold, one
/// after the other, is found where the first page holds it, else where the
/// second does.
pub proof fn pages_are_searched_as_one(
    first: Seq<PayloadEnvelope>,
    second: Seq<PayloadEnvelope>,
    key: Seq<char>,
)
    ensures
        first_reserved(first + second, key) == match first_reserved(first, key) {
            Some(i) => Some(i),
            None => match first_reserved(second, key) {
                Some(j) => Some(first.len() + j),
                None => None::<int>,
            },
        },
    decreases first.len(),
{
    let both = first + second;
    if first.len() == 0 {
        assert(both =~= second);
    } else {
        assert(both[0] == first[0]);
        assert(both.drop_first() =~= first.drop_first() + second);
        pages_are_searched_as_one(first.drop_first(), second, key);
    }
}

proof fn a_reserved_event_is_the_first(events: Seq<PayloadEnvelope>, key: Seq<char>)
    ensures
        match first_reserved(events, key) {
            Some(i) => 0 <= i < events.len() && text_member(
                events[i].payload@,
                "idempotency_key"@,
            ) == Some(key) && forall|j: int|
                0 <= j < i ==> text_member((#[trigger] events[j]).payload@, "idempotency_key"@)
                    != Some(key),
            None => forall|j: int|
                0 <= j < events.len() ==> text_member(
                    (#[trigger] events[j]).payload@,
                    "idempotency_key"@,
                ) != Some(key),
        },
    decreases events.len(),
{
    if events.len() > 0 && !is_reserved(events[0].payload@, key) {
        let rest = events.drop_first();
        a_reserved_event_is_the_first(rest, key);
        let bound = match first_reserved(rest, key) {
            Some(i) => i + 1,
            None => events.len() as int,
        };
        assert forall|j: int| 0 <= j < bound implies text_member(
            (#[trigger] events[j]).payload@,
            "idempotency_key"@,
        ) != Some(key) by {
            if j > 0 {
                assert(events[j] == rest[j - 1]);
            }
        }
    }
}

/// What a page is found to hold is the outcome of an event of that page that
/// has the key, and no earlier event of the page has it. It names that event,
/// was written by the expected action on the expected parameters, and holds the
/// fields and the status that the event recorded.
pub proof fn a_found_outcome_is_the_recorded_one(
    cursor: ReplayCursor,
    events: &Vec<PayloadEnvelope>,
    limit: usize,
    key: &str,
    action: &str,
    params: &Result<Json, String>,
    outcome_field: &str,
    r: Result<ReplayStep, String>,
)
    requires
        cursor.wf(),
        events.len() <= limit <= cursor.budget - cursor.consumed,
        call_ensures(
            scan_bootstrap_page,
            (cursor, events, limit, key, action, params, outcome_field),
            r,
        ),
        r is Ok,
        r->Ok_0 is Found,
    ensures
        exists|i: int|
            {
                let found = r->Ok_0->Found_0@;
                let payload = (#[trigger] events@[i]).payload@;
                &&& 0 <= i < events@.len()
                &&& text_member(payload, "idempotency_key"@) == Some(key@)
                &&& forall|j: int|
                    0 <= j < i ==> text_member((#[trigger] events@[j]).payload@, "idempotency_key"@)
                        != Some(key@)
                &&& text_member(payload, "action"@) == Some(action@)
                &&& params is Ok && member(payload, "params"@) is Some && same_json(
                    member(payload, "params"@)->0,
                    params->Ok_0@,
                )
                &&& found.sequence == events@[i].sequence_nr
                &&& member(payload, outcome_field@) is Some
                &&& member(member(payload, outcome_field@)->0, "fields"@) == Some(found.fields)
                &&& text_member(member(payload, outcome_field@)->0, "status"@) == Some(
                    found.status,
                )
            },
{
    a_reserved_event_is_the_first(events@, key@);
    let i = first_reserved(events@, key@)->0;
    assert(0 <= i < events@.len());
    assert(text_member(events@[i].payload@, "idempotency_key"@) == Some(key@));
}

/// An event that has the key is never passed over: a search goes on, or ends
/// without one, only where no event of the page has the key. It goes on behind
/// the last event of a full page, and the events that were read count.
pub proof fn a_search_passes_over_no_reserved_event(
    cursor: ReplayCursor,
    events: &Vec<PayloadEnvelope>,
    limit: usize,
    key: &str,
    action: &str,
    params: &Result<Json, String>,
    outcome_field: &str,
    r: Result<ReplayStep, String>,
)
    requires
        cursor.wf(),
        events.len() <= limit <= cursor.budget - cursor.consumed,
        call_ensures(
            scan_bootstrap_page,
            (cursor, events, limit, key, action, params, outcome_field),
            r,
        ),
    ensures
        (r is Ok && !(r->Ok_0 is Found)) <==> forall|j: int|
            0 <= j < events@.len() ==> text_member(
                (#[trigger] events@[j]).payload@,
                "idempotency_key"@,
            ) != Some(key@),
        r is Ok && r->Ok_0 is Absent ==> events@.len() == 0 || events@.len() < limit,
        r is Ok && r->Ok_0 is Continue ==> {
            let next = r->Ok_0->Continue_0;
            &&& 0 < events@.len() == limit
            &&& next.from_sequence == events@[events@.len() - 1].sequence_nr
            &&& next.consumed == cursor.consumed + events@.len()
            &&& next.budget == cursor.budget
        },
{
    a_reserved_event_is_the_first(events@, key@);
    if first_reserved(events@, key@) is Some {
        let i = first_reserved(events@, key@)->0;
        assert(text_member(events@[i].payload@, "idempotency_key"@) == Some(key@));
    }
}

/// A search reads no more than its budget and no more than a page at a time, and
/// it stops only when the budget is used up.
pub proof fn a_search_keeps_to_its_budget(cursor: &ReplayCursor, r: Result<usize, String>)
    requires
        cursor.wf(),
        call_ensures(ReplayCursor::page_limit, (cursor,), r),
    ensures
        r is Err <==> cursor.consumed == cursor.budget,
        r is Ok ==> 1 <= r->Ok_0 <= PAGE_SIZE && cursor.consumed + r->Ok_0 <= cursor.budget && (
        r->Ok_0 == PAGE_SIZE || cursor.consumed + r->Ok_0 == cursor.budget),
{
}

/// A search begins before the first event, with nothing read, on every budget
/// that is allowed.
pub proof fn a_search_begins_at_the_beginning(budget: usize, r: Result<ReplayCursor, String>)
    requires
        call_ensures(ReplayCursor::start, (budget,), r),
    ensures
        r is Ok <==> 1 <= budget <= 10000,
        r is Ok ==> r->Ok_0.from_sequence == 0 && r->Ok_0.consumed == 0 && r->Ok_0.budget == budget,
{
}

/// A creation is taken for one's own only if the first event of the journal is
/// a creation under that key, or, without a journal, if the key was processed.
/// It is then at the sequence that was recorded.
pub proof fn a_creation_is_owned_by_its_key(
    journal: &Option<FirstEventRead>,
    processed: &OrdMap<String, u64>,
    key: &str,
    r: Result<u64, String>,
    owned: Result<bool, String>,
)
    requires
        processed.wf(),
        call_ensures(bootstrap_creation, (journal, processed, key), r),
        call_ensures(bootstrap_creation_is_owned_by, (journal, processed, key), owned),
    ensures
        r is Ok && journal is Some ==> {
            let first = journal->0->Ok_0;
            &&& journal->0 is Ok && first is Some && (first->0).1 is Ok
            &&& r->Ok_0 == (first->0).0
            &&& (first->0).1->Ok_0@.action == "Created"@
            &&& (first->0).1->Ok_0@.idempotency_key == Some(key@)
        },
        r is Ok && journal is None ==> processed@.contains_key(key@) && r->Ok_0 == processed@[key@],
        r is Ok ==> owned is Ok && owned->Ok_0,
        owned is Err <==> journal is Some && journal->0 is Err,
        owned is Ok && owned->Ok_0 && journal is None ==> r is Ok,
        owned is Ok && owned->Ok_0 && journal is Some ==> {
            let first = journal->0->Ok_0;
            &&& first is Some && (first->0).1 is Ok && (first->0).1->Ok_0@.idempotency_key == Some(
                key@,
            )
            &&& (first->0).1->Ok_0@.action == "Created"@ ==> r is Ok
        },
{
}

} // verus!
