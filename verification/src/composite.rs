//! Composite actions: their sub-writes are prepared, checked in advance, staged
//! stream by stream and written as one batch.

use vstd::prelude::*;
use vstd::string::*;

use crate::composite_helpers::composite_sub_write_uses_parent_gate;
use crate::composite_helpers::empty_params;
use crate::composite_helpers::has_complete_git_object_payload;
use crate::composite_helpers::has_payload;
use crate::composite_helpers::is_pack_object_entity;
use crate::composite_helpers::normal_parameters_keep_what_was_given;
use crate::composite_helpers::normal_params;
use crate::composite_helpers::normalize_sub_write_params;
use crate::composite_helpers::pack_object;
use crate::composite_helpers::ref_target;
use crate::composite_helpers::stale_ref;
use crate::composite_helpers::uses_parent_gate;
use crate::composite_helpers::validate_ref_sub_write_compare_and_set;
use crate::composite_helpers::CompositeActionMetadata;
use crate::composite_helpers::CompositeSubWrite;
use crate::dispatch_actions::DispatchError;
use crate::dispatch_actions::DispatchErrorModel;
use crate::json::Json;
use crate::json::JsonModel;
use crate::json::member;
use crate::ordered::OrdMap;
use crate::ordered::OrdSet;
use crate::stream::EntityEvent;
use crate::stream::EventModel;
use crate::text::decimal;
use crate::text::decimal_of;
use crate::text::decimal_reads_back;
use crate::text::filter_keeps_exactly;
use crate::text::opt_text;
use crate::text::same;
use crate::text::views;
use crate::time::Timestamp;

verus! {

/// The journal of an entity. `journal_id` is its identifier, or the one that its
/// schema pin gives it.
pub fn composite_persistence_id(tenant: &str, entity_type: &str, journal_id: &str) -> (r: String)
    ensures
        r@ == crate::observe::entity_key(tenant@, entity_type@, journal_id@),
{
    crate::observe::entity_key_of(tenant, entity_type, journal_id)
}

/// A sub-write that is ready to be staged.
#[derive(Debug, PartialEq, Eq)]
pub struct PreparedCompositeSubWrite {
    pub idx: usize,
    pub write: CompositeSubWrite,
    pub idempotency_key: String,
    pub uses_parent_gate: bool,
}

/// The key under which the sub-write `idx` of a composite is carried out once.
pub open spec fn sub_write_key(
    tenant: Seq<char>,
    entity_type: Seq<char>,
    entity_id: Seq<char>,
    action: Seq<char>,
    parent_idempotency: Seq<char>,
    idx: nat,
) -> Seq<char> {
    "composite:"@ + tenant + ":"@ + entity_type + ":"@ + entity_id + ":"@ + action + ":"@
        + parent_idempotency + ":subwrite:"@ + decimal(idx)
}

/// The key under which the sub-write `idx` of a composite is carried out once.
pub fn sub_write_key_of(
    tenant: &str,
    entity_type: &str,
    entity_id: &str,
    action: &str,
    parent_idempotency: &str,
    idx: usize,
) -> (r: String)
    ensures
        r@ == sub_write_key(
            tenant@,
            entity_type@,
            entity_id@,
            action@,
            parent_idempotency@,
            idx as nat,
        ),
{
    let mut text = "composite:".to_owned();
    text.append(tenant);
    text.append(":");
    text.append(entity_type);
    text.append(":");
    text.append(entity_id);
    text.append(":");
    text.append(action);
    text.append(":");
    text.append(parent_idempotency);
    text.append(":subwrite:");
    text.append(decimal_of(idx as u64).as_str());
    text
}

/// No two sub-writes of a composite have the same key.
pub proof fn sub_write_keys_differ(
    tenant: Seq<char>,
    entity_type: Seq<char>,
    entity_id: Seq<char>,
    action: Seq<char>,
    parent_idempotency: Seq<char>,
    i: nat,
    j: nat,
)
    requires
        sub_write_key(tenant, entity_type, entity_id, action, parent_idempotency, i)
            == sub_write_key(tenant, entity_type, entity_id, action, parent_idempotency, j),
    ensures
        i == j,
{
    let head = "composite:"@ + tenant + ":"@ + entity_type + ":"@ + entity_id + ":"@ + action
        + ":"@ + parent_idempotency + ":subwrite:"@;
    let a = head + decimal(i);
    let b = head + decimal(j);
    assert(a == b);
    assert(a.skip(head.len() as int) =~= decimal(i));
    assert(b.skip(head.len() as int) =~= decimal(j));
    decimal_reads_back(i);
    decimal_reads_back(j);
}

/// What the policy says of a sub-write.
#[derive(Clone, Debug, PartialEq, Eq)]
pub enum SubWriteAuthorization {
    Granted,
    Denied(String),
    /// The entity that the policy would be asked about does not exist.
    NoTarget,
    /// The entity that the policy would be asked about could not be read.
    Unreadable(String),
}

/// What was found of one sub-write before it is prepared.
#[derive(Debug, PartialEq, Eq)]
pub struct SubWriteChecks {
    /// Its type has a spec.
    pub governed: bool,
    /// The identifier that the spec derives for a create, if it derives one, or
    /// why the given one is not valid.
    pub derived_id: Result<Option<String>, String>,
    /// What the policy says of it. Not read where the parent's gate covers it.
    pub authorization: SubWriteAuthorization,
}

/// What identifies the composite that sub-writes belong to.
#[derive(Clone, Debug, PartialEq, Eq)]
pub struct CompositeParent {
    pub tenant: String,
    pub entity_type: String,
    pub entity_id: String,
    pub action: String,
    pub idempotency: String,
}

/// How the texts of a sub-write's failures begin.
pub open spec fn sub_write_head(p: CompositeParent, idx: usize) -> Seq<char> {
    "composite "@ + p.entity_type@ + "."@ + p.action@ + " sub-write "@ + decimal(idx as nat)
}

fn sub_write_head_of(p: &CompositeParent, idx: usize) -> (r: String)
    ensures
        r@ == sub_write_head(*p, idx),
{
    let mut text = "composite ".to_owned();
    text.append(p.entity_type.as_str());
    text.append(".");
    text.append(p.action.as_str());
    text.append(" sub-write ");
    text.append(decimal_of(idx as u64).as_str());
    text
}

/// The entity that a sub-write is for: the one that it names, or for a create
/// the one that the spec derives.
pub open spec fn target_id(w: CompositeSubWrite, checks: SubWriteChecks) -> Seq<char> {
    if w.action@ == "Create"@ && checks.derived_id is Ok && checks.derived_id->Ok_0 is Some {
        checks.derived_id->Ok_0->0@
    } else {
        w.entity_id@
    }
}

/// Why a sub-write is not prepared.
pub open spec fn preparation_refusal(
    p: CompositeParent,
    metadata: CompositeActionMetadata,
    idx: usize,
    w: CompositeSubWrite,
    checks: SubWriteChecks,
) -> Option<DispatchErrorModel> {
    let params = normal_params(w.params@, w.entity_id@);
    if !checks.governed {
        Some(DispatchErrorModel::Ungoverned(w.entity_type@))
    } else if w.action@ == "Create"@ && !(params is Object) {
        Some(
            DispatchErrorModel::Conflict(
                sub_write_head(p, idx) + " create params must be an object"@,
            ),
        )
    } else if w.action@ == "Create"@ && checks.derived_id is Err {
        Some(DispatchErrorModel::Conflict(checks.derived_id->Err_0@))
    } else if uses_parent_gate(metadata, w.entity_type@, w.action@) {
        None
    } else {
        match checks.authorization {
            SubWriteAuthorization::Granted => None,
            SubWriteAuthorization::Denied(denial) => Some(
                DispatchErrorModel::AuthzDenied(
                    sub_write_head(p, idx) + " denied for "@ + w.entity_type@ + "."@ + w.action@
                        + ": "@ + denial@,
                ),
            ),
            SubWriteAuthorization::NoTarget => Some(
                DispatchErrorModel::Internal(
                    "composite sub-write target "@ + w.entity_type@ + ":"@ + target_id(w, checks)
                        + " does not exist"@,
                ),
            ),
            SubWriteAuthorization::Unreadable(e) => Some(DispatchErrorModel::Internal(e@)),
        }
    }
}

/// Whether `w` is the sub-write `idx` of a composite, prepared: for its target,
/// with its parameters in normal form and its own key.
pub open spec fn prepared_as(
    p: CompositeParent,
    metadata: CompositeActionMetadata,
    idx: usize,
    sub_write: CompositeSubWrite,
    checks: SubWriteChecks,
    w: PreparedCompositeSubWrite,
) -> bool {
    &&& w.idx == idx
    &&& w.write.entity_type@ == sub_write.entity_type@
    &&& w.write.entity_id@ == target_id(sub_write, checks)
    &&& w.write.action@ == sub_write.action@
    &&& w.write.params@ == normal_params(sub_write.params@, sub_write.entity_id@)
    &&& w.uses_parent_gate == uses_parent_gate(metadata, sub_write.entity_type@, sub_write.action@)
    &&& w.idempotency_key@ == sub_write_key(
        p.tenant@,
        p.entity_type@,
        p.entity_id@,
        p.action@,
        p.idempotency@,
        idx as nat,
    )
}

/// Prepares one sub-write of a composite.
pub fn prepare_composite_sub_write(
    parent: &CompositeParent,
    metadata: &CompositeActionMetadata,
    idx: usize,
    sub_write: &CompositeSubWrite,
    checks: &SubWriteChecks,
) -> (r: Result<PreparedCompositeSubWrite, DispatchError>)
    ensures
        match r {
            Ok(w) => preparation_refusal(*parent, *metadata, idx, *sub_write, *checks) is None
                && prepared_as(*parent, *metadata, idx, *sub_write, *checks, w),
            Err(e) => preparation_refusal(*parent, *metadata, idx, *sub_write, *checks) == Some(
                e@,
            ),
        },
{
    if !checks.governed {
        return Err(DispatchError::Ungoverned(sub_write.entity_type.clone()));
    }
    let params = normalize_sub_write_params(&sub_write.params, sub_write.entity_id.as_str());
    let creates = same(sub_write.action.as_str(), "Create");
    let mut entity_id = sub_write.entity_id.clone();
    if creates {
        if !params.is_object() {
            let mut text = sub_write_head_of(parent, idx);
            text.append(" create params must be an object");
            return Err(DispatchError::Conflict(text));
        }
        match &checks.derived_id {
            Err(e) => return Err(DispatchError::Conflict(e.clone())),
            Ok(Some(id)) => {
                entity_id = id.clone();
            },
            Ok(None) => {},
        }
    }
    let covered = composite_sub_write_uses_parent_gate(
        metadata,
        sub_write.entity_type.as_str(),
        sub_write.action.as_str(),
    );
    if !covered {
        match &checks.authorization {
            SubWriteAuthorization::Granted => {},
            SubWriteAuthorization::Unreadable(e) => return Err(DispatchError::Internal(e.clone())),
            SubWriteAuthorization::NoTarget => {
                let mut text = "composite sub-write target ".to_owned();
                text.append(sub_write.entity_type.as_str());
                text.append(":");
                text.append(entity_id.as_str());
                text.append(" does not exist");
                return Err(DispatchError::Internal(text));
            },
            SubWriteAuthorization::Denied(denial) => {
                let mut text = sub_write_head_of(parent, idx);
                text.append(" denied for ");
                text.append(sub_write.entity_type.as_str());
                text.append(".");
                text.append(sub_write.action.as_str());
                text.append(": ");
                text.append(denial.as_str());
                return Err(DispatchError::AuthzDenied(text));
            },
        }
    }
    let idempotency_key = sub_write_key_of(
        parent.tenant.as_str(),
        parent.entity_type.as_str(),
        parent.entity_id.as_str(),
        parent.action.as_str(),
        parent.idempotency.as_str(),
        idx,
    );
    Ok(
        PreparedCompositeSubWrite {
            idx,
            write: CompositeSubWrite {
                entity_type: sub_write.entity_type.clone(),
                entity_id,
                action: sub_write.action.clone(),
                params,
            },
            idempotency_key,
            uses_parent_gate: covered,
        },
    )
}

/// Why one of the first `n` sub-writes is not prepared: the first reason.
pub open spec fn preparation_refusals(
    p: CompositeParent,
    metadata: CompositeActionMetadata,
    writes: Seq<CompositeSubWrite>,
    checks: Seq<SubWriteChecks>,
    n: int,
) -> Option<DispatchErrorModel>
    decreases n,
{
    if n <= 0 {
        None
    } else {
        match preparation_refusals(p, metadata, writes, checks, n - 1) {
            Some(e) => Some(e),
            None => preparation_refusal(
                p,
                metadata,
                (n - 1) as usize,
                writes[n - 1],
                checks[n - 1],
            ),
        }
    }
}

proof fn first_preparation_refusal_stays(
    p: CompositeParent,
    metadata: CompositeActionMetadata,
    writes: Seq<CompositeSubWrite>,
    checks: Seq<SubWriteChecks>,
    n: int,
    m: int,
)
    requires
        0 <= n <= m,
        preparation_refusals(p, metadata, writes, checks, n) is Some,
    ensures
        preparation_refusals(p, metadata, writes, checks, m) == preparation_refusals(
            p,
            metadata,
            writes,
            checks,
            n,
        ),
    decreases m - n,
{
    if n < m {
        first_preparation_refusal_stays(p, metadata, writes, checks, n, m - 1);
    }
}

/// Prepares the sub-writes of a composite: all of them, or none and the first
/// reason. What was found of those behind the first refusal is not looked at.
pub fn prepare_composite_sub_writes(
    parent: &CompositeParent,
    metadata: &CompositeActionMetadata,
    has_security_context: bool,
    sub_writes: &Vec<CompositeSubWrite>,
    checks: &Vec<SubWriteChecks>,
) -> (r: Result<Vec<PreparedCompositeSubWrite>, DispatchError>)
    requires
        checks@.len() == sub_writes@.len(),
    ensures
        match r {
            Ok(prepared) => {
                &&& has_security_context
                &&& preparation_refusals(
                    *parent,
                    *metadata,
                    sub_writes@,
                    checks@,
                    sub_writes@.len() as int,
                ) is None
                &&& prepared@.len() == sub_writes@.len()
                &&& forall|i: int|
                    0 <= i < prepared@.len() ==> prepared_as(
                        *parent,
                        *metadata,
                        i as usize,
                        sub_writes@[i],
                        checks@[i],
                        #[trigger] prepared@[i],
                    )
            },
            Err(e) => if !has_security_context {
                e@ == DispatchErrorModel::Internal(
                    "composite sub-write authorization requires a security context"@,
                )
            } else {
                preparation_refusals(
                    *parent,
                    *metadata,
                    sub_writes@,
                    checks@,
                    sub_writes@.len() as int,
                ) == Some(e@)
            },
        },
{
    if !has_security_context {
        return Err(
            DispatchError::Internal(
                "composite sub-write authorization requires a security context".to_owned(),
            ),
        );
    }
    let mut prepared: Vec<PreparedCompositeSubWrite> = Vec::new();
    let mut i: usize = 0;
    while i < sub_writes.len()
        invariant
            i <= sub_writes.len(),
            checks@.len() == sub_writes@.len(),
            has_security_context,
            prepared.len() == i,
            preparation_refusals(*parent, *metadata, sub_writes@, checks@, i as int) is None,
            forall|k: int|
                0 <= k < i ==> prepared_as(
                    *parent,
                    *metadata,
                    k as usize,
                    sub_writes@[k],
                    checks@[k],
                    #[trigger] prepared@[k],
                ),
        decreases sub_writes.len() - i,
    {
        match prepare_composite_sub_write(parent, metadata, i, &sub_writes[i], &checks[i]) {
            Ok(w) => {
                prepared.push(w);
            },
            Err(e) => {
                proof {
                    assert(preparation_refusals(
                        *parent,
                        *metadata,
                        sub_writes@,
                        checks@,
                        i + 1,
                    ) == Some(e@));
                    first_preparation_refusal_stays(
                        *parent,
                        *metadata,
                        sub_writes@,
                        checks@,
                        i + 1,
                        sub_writes@.len() as int,
                    );
                }
                return Err(e);
            },
        }
        i = i + 1;
    }
    Ok(prepared)
}

/// The state of the entity that a sub-write is for.
#[derive(Debug, PartialEq, Eq)]
pub struct CompositeTarget {
    pub existed: bool,
    pub status: String,
    pub fields: Json,
    pub sequence_nr: u64,
    pub total_event_count: u64,
    /// The keys of what was carried out already.
    pub processed: OrdSet<String>,
}

/// What a [`CompositeTarget`] holds.
pub struct TargetModel {
    pub existed: bool,
    pub status: Seq<char>,
    pub fields: JsonModel,
    pub sequence_nr: u64,
    pub total_event_count: u64,
    pub processed: Set<Seq<char>>,
}

impl View for CompositeTarget {
    type V = TargetModel;

    open spec fn view(&self) -> TargetModel {
        TargetModel {
            existed: self.existed,
            status: self.status@,
            fields: self.fields@,
            sequence_nr: self.sequence_nr,
            total_event_count: self.total_event_count,
            processed: self.processed@,
        }
    }
}

/// An entity that does not exist yet, as its type begins it.
pub fn synthetic_initial_state(entity_id: &str, initial_state: &str) -> (r: CompositeTarget)
    ensures
        r.processed.wf(),
        r@ == (TargetModel {
            existed: false,
            status: initial_state@,
            fields: JsonModel::Object(seq![("Id"@, JsonModel::Text(entity_id@))]),
            sequence_nr: 0,
            total_event_count: 0,
            processed: Set::empty(),
        }),
{
    let mut fields = empty_params();
    fields.put("Id", Json::Text(entity_id.to_owned()));
    CompositeTarget {
        existed: false,
        status: initial_state.to_owned(),
        fields,
        sequence_nr: 0,
        total_event_count: 0,
        processed: OrdSet::new(),
    }
}

/// The entity that a sub-write is for: as it was loaded, or as its type begins
/// it. One that was loaded under a schema pin exists once it has an event.
pub fn composite_target(
    loaded: Option<CompositeTarget>,
    scoped: bool,
    entity_id: &str,
    initial_state: &str,
) -> (r: CompositeTarget)
    requires
        loaded is Some ==> loaded->0.processed.wf(),
    ensures
        r.processed.wf(),
        r@ == match loaded {
            Some(t) => TargetModel {
                existed: if scoped {
                    t.sequence_nr > 0
                } else {
                    true
                },
                ..t@
            },
            None => TargetModel {
                existed: false,
                status: initial_state@,
                fields: JsonModel::Object(seq![("Id"@, JsonModel::Text(entity_id@))]),
                sequence_nr: 0,
                total_event_count: 0,
                processed: Set::empty(),
            },
        },
{
    match loaded {
        None => synthetic_initial_state(entity_id, initial_state),
        Some(t) => {
            let mut target = t;
            target.existed = if scoped {
                target.sequence_nr > 0
            } else {
                true
            };
            target
        },
    }
}

/// What the transition table says of a sub-write.
#[derive(Clone, Copy, Debug, PartialEq, Eq, Structural)]
pub enum Evaluation {
    Allowed,
    NotAllowed,
    UnknownAction,
}

/// Why a sub-write would fail, before anything is staged. One that was carried
/// out already passes.
pub open spec fn preflight_refusal(
    p: CompositeParent,
    w: PreparedCompositeSubWrite,
    t: TargetModel,
    can_accept_event: bool,
    evaluation: Evaluation,
) -> Option<DispatchErrorModel> {
    let stale = stale_ref(
        p.entity_type@,
        p.action@,
        w.idx,
        w.write.entity_type@,
        w.write.entity_id@,
        w.write.action@,
        w.write.params@,
        ref_target(t.existed, t.status, t.fields),
    );
    if t.processed.contains(w.idempotency_key@) {
        None
    } else if stale is Some {
        Some(DispatchErrorModel::Conflict(stale->0))
    } else if !can_accept_event {
        Some(
            DispatchErrorModel::Internal(
                sub_write_head(p, w.idx) + " would exceed the event budget for "@
                    + w.write.entity_type@ + ":"@ + w.write.entity_id@,
            ),
        )
    } else {
        match evaluation {
            Evaluation::Allowed => None,
            Evaluation::NotAllowed => Some(
                DispatchErrorModel::Conflict(
                    sub_write_head(p, w.idx) + " would fail: action '"@ + w.write.action@
                        + "' is not valid from state '"@ + t.status + "'"@,
                ),
            ),
            Evaluation::UnknownAction => Some(
                DispatchErrorModel::Internal(
                    sub_write_head(p, w.idx) + " would fail: unknown action '"@ + w.write.action@
                        + "'"@,
                ),
            ),
        }
    }
}

/// Checks, before anything is staged, that a sub-write would succeed.
pub fn preflight_composite_sub_write_transition(
    parent: &CompositeParent,
    write: &PreparedCompositeSubWrite,
    target: &CompositeTarget,
    can_accept_event: bool,
    evaluation: Evaluation,
) -> (r: Result<(), DispatchError>)
    requires
        target.processed.wf(),
    ensures
        match r {
            Ok(_) => preflight_refusal(*parent, *write, target@, can_accept_event, evaluation)
                is None,
            Err(e) => preflight_refusal(*parent, *write, target@, can_accept_event, evaluation)
                == Some(e@),
        },
{
    if target.processed.contains(&write.idempotency_key) {
        return Ok(());
    }
    match validate_ref_sub_write_compare_and_set(
        parent.entity_type.as_str(),
        parent.action.as_str(),
        write.idx,
        &write.write,
        target.existed,
        target.status.as_str(),
        &target.fields,
    ) {
        Ok(_) => {},
        Err(e) => return Err(e),
    }
    if !can_accept_event {
        let mut text = sub_write_head_of(parent, write.idx);
        text.append(" would exceed the event budget for ");
        text.append(write.write.entity_type.as_str());
        text.append(":");
        text.append(write.write.entity_id.as_str());
        return Err(DispatchError::Internal(text));
    }
    match evaluation {
        Evaluation::Allowed => Ok(()),
        Evaluation::NotAllowed => {
            let mut text = sub_write_head_of(parent, write.idx);
            text.append(" would fail: action '");
            text.append(write.write.action.as_str());
            text.append("' is not valid from state '");
            text.append(target.status.as_str());
            text.append("'");
            Err(DispatchError::Conflict(text))
        },
        Evaluation::UnknownAction => {
            let mut text = sub_write_head_of(parent, write.idx);
            text.append(" would fail: unknown action '");
            text.append(write.write.action.as_str());
            text.append("'");
            Err(DispatchError::Internal(text))
        },
    }
}

/// The part of a batch that goes to one journal: the entity as it will be, the
/// sequence that the journal must be at, and the events for it.
#[derive(Debug, PartialEq, Eq)]
pub struct AtomicCompositeStream {
    pub entity_type: String,
    pub entity_id: String,
    pub target_existed: bool,
    pub status: String,
    pub fields: Json,
    pub sequence_nr: u64,
    pub expected_sequence: u64,
    pub processed: OrdSet<String>,
    pub events: Vec<EntityEvent>,
    /// The first event of the entity is among the events, and made by the
    /// staging itself.
    pub bootstrapped: bool,
}

/// What a stream holds.
pub struct StreamModel {
    pub entity_type: Seq<char>,
    pub entity_id: Seq<char>,
    pub target_existed: bool,
    pub status: Seq<char>,
    pub fields: JsonModel,
    pub sequence_nr: u64,
    pub expected_sequence: u64,
    pub processed: Set<Seq<char>>,
    pub events: Seq<EventModel>,
    pub bootstrapped: bool,
}

impl View for AtomicCompositeStream {
    type V = StreamModel;

    open spec fn view(&self) -> StreamModel {
        StreamModel {
            entity_type: self.entity_type@,
            entity_id: self.entity_id@,
            target_existed: self.target_existed,
            status: self.status@,
            fields: self.fields@,
            sequence_nr: self.sequence_nr,
            expected_sequence: self.expected_sequence,
            processed: self.processed@,
            events: views(self.events@),
            bootstrapped: self.bootstrapped,
        }
    }
}

/// The events of a stream follow the sequence that the journal must be at, one
/// by one.
pub open spec fn sequenced(s: StreamModel) -> bool {
    s.sequence_nr == s.expected_sequence + s.events.len()
}

/// The event that begins an entity which a batch brings into being.
pub open spec fn bootstrap_event(status: Seq<char>, now: Timestamp) -> EventModel {
    EventModel {
        action: "Created"@,
        from_status: Seq::empty(),
        to_status: status,
        timestamp: now,
        params: JsonModel::Object(Seq::empty()),
        idempotency_key: None,
    }
}

/// Whether a stream begins with the entity's first event: the entity is new and
/// nothing else will make that event.
pub open spec fn begins_entity(t: TargetModel, suppress: bool) -> bool {
    !suppress && !t.existed && t.sequence_nr == 0 && t.total_event_count == 0
}

/// The stream of an entity before any sub-write is staged on it.
pub open spec fn opened(
    entity_type: Seq<char>,
    entity_id: Seq<char>,
    t: TargetModel,
    suppress: bool,
    now: Timestamp,
) -> StreamModel {
    let begins = begins_entity(t, suppress);
    StreamModel {
        entity_type,
        entity_id,
        target_existed: t.existed,
        status: t.status,
        fields: t.fields,
        sequence_nr: if begins {
            1
        } else {
            t.sequence_nr
        },
        expected_sequence: t.sequence_nr,
        processed: t.processed,
        events: if begins {
            seq![bootstrap_event(t.status, now)]
        } else {
            Seq::empty()
        },
        bootstrapped: begins,
    }
}

/// Opens the stream of an entity. Where the first event of a new entity is left
/// to a sub-write, it is not made here.
pub fn open_stream(
    entity_type: &str,
    entity_id: &str,
    target: &CompositeTarget,
    suppress_bootstrap_event: bool,
    now: Timestamp,
) -> (r: AtomicCompositeStream)
    requires
        target.processed.wf(),
    ensures
        r.processed.wf(),
        r@ == opened(entity_type@, entity_id@, target@, suppress_bootstrap_event, now),
        sequenced(r@),
{
    let begins = !suppress_bootstrap_event && !target.existed && target.sequence_nr == 0
        && target.total_event_count == 0;
    let mut events: Vec<EntityEvent> = Vec::new();
    if begins {
        let event = EntityEvent {
            action: "Created".to_owned(),
            from_status: String::new(),
            to_status: target.status.clone(),
            timestamp: now,
            params: empty_params(),
            idempotency_key: None,
        };
        let ghost e = event@;
        events.push(event);
        proof {
            assert(views(events@) =~= seq![e]);
        }
    } else {
        proof {
            assert(views(events@) =~= Seq::<EventModel>::empty());
        }
    }
    AtomicCompositeStream {
        entity_type: entity_type.to_owned(),
        entity_id: entity_id.to_owned(),
        target_existed: target.existed,
        status: target.status.clone(),
        fields: target.fields.copy(),
        sequence_nr: if begins {
            1
        } else {
            target.sequence_nr
        },
        expected_sequence: target.sequence_nr,
        processed: target.processed.copy(),
        events,
        bootstrapped: begins,
    }
}

/// A batch by its journals, with the collections of every stream in order.
pub open spec fn batch_wf(streams: OrdMap<String, AtomicCompositeStream>) -> bool {
    &&& streams.wf()
    &&& forall|s: AtomicCompositeStream| #[trigger]
        streams.values@.contains(s) ==> s.processed.wf()
}

/// The events of every stream of a batch follow the sequence that its journal
/// must be at.
pub open spec fn batch_sequenced(streams: Map<Seq<char>, StreamModel>) -> bool {
    forall|id: Seq<char>| #[trigger] streams.contains_key(id) ==> sequenced(streams[id])
}

/// Opens the stream of an entity in a batch that has none for it yet.
pub fn ensure_atomic_composite_stream(
    streams: &mut OrdMap<String, AtomicCompositeStream>,
    persistence_id: &String,
    entity_type: &str,
    entity_id: &str,
    target: &CompositeTarget,
    suppress_bootstrap_event: bool,
    now: Timestamp,
)
    requires
        batch_wf(*old(streams)),
        target.processed.wf(),
    ensures
        batch_wf(*final(streams)),
        batch_sequenced(old(streams)@) ==> batch_sequenced(final(streams)@),
        final(streams)@ == if old(streams)@.contains_key(persistence_id@) {
            old(streams)@
        } else {
            old(streams)@.insert(
                persistence_id@,
                opened(entity_type@, entity_id@, target@, suppress_bootstrap_event, now),
            )
        },
{
    if streams.contains(persistence_id) {
        return;
    }
    let stream = open_stream(entity_type, entity_id, target, suppress_bootstrap_event, now);
    streams.insert(persistence_id.clone(), stream);
}

/// Whether a stored composite event is that of this composite.
#[derive(Clone, Debug, PartialEq, Eq)]
pub struct ParentEvent {
    pub is_composite_event: bool,
    /// The key of the composite, where the event decodes.
    pub composite_idempotency_key: Option<String>,
}

/// Whether a composite has recorded itself among the events of its parent.
pub open spec fn composite_recorded(events: Seq<ParentEvent>, idempotency: Seq<char>) -> bool {
    exists|i: int|
        0 <= i < events.len() && (#[trigger] events[i]).is_composite_event && opt_text(
            events[i].composite_idempotency_key,
        ) == Some(idempotency)
}

/// Whether a composite has recorded itself in its parent's journal already.
pub fn composite_event_already_persisted(events: &Vec<ParentEvent>, parent_idempotency: &str) -> (r:
    bool)
    ensures
        r == composite_recorded(events@, parent_idempotency@),
{
    let mut i: usize = 0;
    while i < events.len()
        invariant
            i <= events.len(),
            forall|k: int|
                0 <= k < i ==> !((#[trigger] events@[k]).is_composite_event && opt_text(
                    events@[k].composite_idempotency_key,
                ) == Some(parent_idempotency@)),
        decreases events.len() - i,
    {
        if events[i].is_composite_event {
            match &events[i].composite_idempotency_key {
                Some(key) => if same(key.as_str(), parent_idempotency) {
                    return true;
                },
                None => {},
            }
        }
        i = i + 1;
    }
    false
}

/// Whether a write creates a git object that the parent's gate covers and that
/// exists already.
pub open spec fn recreates_pack_object(w: PreparedCompositeSubWrite, s: StreamModel) -> bool {
    w.uses_parent_gate && w.write.action@ == "Create"@ && s.target_existed && pack_object(
        w.write.entity_type@,
    )
}

/// Whether a write is left out: the object is there with its bytes, or the write
/// was carried out. An object without its bytes is written again.
pub open spec fn is_skipped(w: PreparedCompositeSubWrite, s: StreamModel) -> bool {
    ||| recreates_pack_object(w, s) && has_payload(s.fields)
    ||| !recreates_pack_object(w, s) && s.processed.contains(w.idempotency_key@)
}

/// Whether a write creates a git object that is there with its bytes.
pub fn should_skip_existing_pack_object_create(
    write: &PreparedCompositeSubWrite,
    stream: &AtomicCompositeStream,
) -> (r: bool)
    ensures
        r == (recreates_pack_object(*write, stream@) && has_payload(stream@.fields)),
{
    write.uses_parent_gate && same(write.write.action.as_str(), "Create") && stream.target_existed
        && is_pack_object_entity(write.write.entity_type.as_str())
        && has_complete_git_object_payload(&stream.fields)
}

/// Whether a write creates a git object that is there without its bytes.
pub fn is_incomplete_existing_pack_object_create(
    write: &PreparedCompositeSubWrite,
    stream: &AtomicCompositeStream,
) -> (r: bool)
    ensures
        r == (recreates_pack_object(*write, stream@) && !has_payload(stream@.fields)),
{
    write.uses_parent_gate && same(write.write.action.as_str(), "Create") && stream.target_existed
        && is_pack_object_entity(write.write.entity_type.as_str())
        && !has_complete_git_object_payload(&stream.fields)
}

/// Why a write is stale on its stream.
pub open spec fn stale_on_stream(
    p: CompositeParent,
    w: PreparedCompositeSubWrite,
    s: StreamModel,
) -> Option<Seq<char>> {
    stale_ref(
        p.entity_type@,
        p.action@,
        w.idx,
        w.write.entity_type@,
        w.write.entity_id@,
        w.write.action@,
        w.write.params@,
        ref_target(s.target_existed, s.status, s.fields),
    )
}

/// Decides whether a sub-write is carried out on its stream.
pub fn admit_sub_write(
    parent: &CompositeParent,
    write: &PreparedCompositeSubWrite,
    stream: &AtomicCompositeStream,
) -> (r: Result<bool, DispatchError>)
    requires
        stream.processed.wf(),
    ensures
        match r {
            Ok(carried_out) => carried_out == !is_skipped(*write, stream@) && (carried_out
                ==> stale_on_stream(*parent, *write, stream@) is None),
            Err(e) => !is_skipped(*write, stream@) && stale_on_stream(*parent, *write, stream@)
                is Some && e@ == DispatchErrorModel::Conflict(
                stale_on_stream(*parent, *write, stream@)->0,
            ),
        },
{
    let repairs = is_incomplete_existing_pack_object_create(write, stream);
    if should_skip_existing_pack_object_create(write, stream) {
        return Ok(false);
    }
    if !repairs && stream.processed.contains(&write.idempotency_key) {
        return Ok(false);
    }
    match validate_ref_sub_write_compare_and_set(
        parent.entity_type.as_str(),
        parent.action.as_str(),
        write.idx,
        &write.write,
        stream.target_existed,
        stream.status.as_str(),
        &stream.fields,
    ) {
        Ok(_) => Ok(true),
        Err(e) => Err(e),
    }
}

/// What became of the fields of a sub-write that grew out of their place.
#[derive(Clone, Debug, PartialEq, Eq)]
pub enum Overflow {
    /// There were none, or they are stored.
    Stored,
    /// There is no store for them.
    NoStore,
    Failed(String),
}

/// What the state machine gave for a sub-write: the event, and the entity after
/// it.
#[derive(Debug, PartialEq, Eq)]
pub struct SubWriteResult {
    pub success: bool,
    pub error: Option<String>,
    /// It asks for effects beyond its event.
    pub has_effects: bool,
    pub overflow: Overflow,
    pub event: EntityEvent,
    pub status: String,
    pub fields: Json,
}

/// What staging a sub-write leads to.
#[derive(Clone, Copy, Debug, PartialEq, Eq, Structural)]
pub enum StageVerdict {
    Staged,
    /// The batch cannot carry the effects: the sub-writes are dispatched one by
    /// one.
    OneByOne,
}

/// Why a sub-write ends the batch.
pub open spec fn stage_refusal(
    p: CompositeParent,
    w: PreparedCompositeSubWrite,
    result: SubWriteResult,
    scoped: bool,
) -> Option<Seq<char>> {
    if !result.success {
        Some(
            match result.error {
                Some(e) => e@,
                None => sub_write_head(p, w.idx) + " failed during atomic staging"@,
            },
        )
    } else if result.has_effects {
        if scoped {
            Some(
                "scoped composite "@ + p.entity_type@ + "."@ + p.action@
                    + " requires effects unsupported by atomic staging"@,
            )
        } else {
            None
        }
    } else {
        match result.overflow {
            Overflow::Stored => None,
            Overflow::NoStore => Some(
                "field-overflow blobs require a configured object blob store"@,
            ),
            Overflow::Failed(e) => Some(
                "field-overflow blob persistence failed during composite batch: "@ + e@,
            ),
        }
    }
}

/// A stream after a sub-write was staged: one event more, under the write's key,
/// and the entity as the event leaves it.
pub open spec fn staged(s: StreamModel, w: PreparedCompositeSubWrite, result: SubWriteResult) ->
    StreamModel {
    StreamModel {
        status: result.status@,
        fields: result.fields@,
        sequence_nr: if s.sequence_nr < u64::MAX {
            (s.sequence_nr + 1) as u64
        } else {
            u64::MAX
        },
        processed: s.processed.insert(w.idempotency_key@),
        events: s.events.push(
            EventModel { idempotency_key: Some(w.idempotency_key@), ..result.event@ },
        ),
        ..s
    }
}

/// Stages a sub-write on its stream. On an error, and where the batch is given
/// up, the stream is as it was.
pub fn stage_sub_write(
    parent: &CompositeParent,
    write: &PreparedCompositeSubWrite,
    stream: &mut AtomicCompositeStream,
    result: SubWriteResult,
    scoped: bool,
) -> (r: Result<StageVerdict, DispatchError>)
    requires
        old(stream).processed.wf(),
    ensures
        final(stream).processed.wf(),
        match r {
            Ok(StageVerdict::Staged) => stage_refusal(*parent, *write, result, scoped) is None
                && !result.has_effects && final(stream)@ == staged(old(stream)@, *write, result),
            Ok(StageVerdict::OneByOne) => stage_refusal(*parent, *write, result, scoped) is None
                && result.has_effects && *final(stream) == *old(stream),
            Err(e) => stage_refusal(*parent, *write, result, scoped) is Some && e@
                == DispatchErrorModel::Internal(stage_refusal(*parent, *write, result, scoped)->0)
                && *final(stream) == *old(stream),
        },
        sequenced(old(stream)@) && old(stream)@.sequence_nr < u64::MAX ==> sequenced(
            final(stream)@,
        ),
{
    if !result.success {
        let text = match result.error {
            Some(e) => e,
            None => {
                let mut text = sub_write_head_of(parent, write.idx);
                text.append(" failed during atomic staging");
                text
            },
        };
        return Err(DispatchError::Internal(text));
    }
    if result.has_effects {
        if scoped {
            let mut text = "scoped composite ".to_owned();
            text.append(parent.entity_type.as_str());
            text.append(".");
            text.append(parent.action.as_str());
            text.append(" requires effects unsupported by atomic staging");
            return Err(DispatchError::Internal(text));
        }
        return Ok(StageVerdict::OneByOne);
    }
    match result.overflow {
        Overflow::Stored => {},
        Overflow::NoStore => return Err(
            DispatchError::Internal(
                "field-overflow blobs require a configured object blob store".to_owned(),
            ),
        ),
        Overflow::Failed(e) => {
            let mut text = "field-overflow blob persistence failed during composite batch: ".to_owned();
            text.append(e.as_str());
            return Err(DispatchError::Internal(text));
        },
    }
    let ghost before = views(stream.events@);
    let event = EntityEvent {
        action: result.event.action,
        from_status: result.event.from_status,
        to_status: result.event.to_status,
        timestamp: result.event.timestamp,
        params: result.event.params,
        idempotency_key: Some(write.idempotency_key.clone()),
    };
    let ghost e = event@;
    stream.events.push(event);
    proof {
        assert(views(stream.events@) =~= before.push(e));
    }
    stream.sequence_nr = stream.sequence_nr.saturating_add(1);
    let _fresh = stream.processed.insert(write.idempotency_key.clone());
    stream.status = result.status;
    stream.fields = result.fields;
    Ok(StageVerdict::Staged)
}

/// Adds the event by which a composite records itself to its parent's stream.
pub fn stage_parent_event(stream: &mut AtomicCompositeStream, event: EntityEvent)
    requires
        old(stream).processed.wf(),
    ensures
        final(stream).processed.wf(),
        final(stream)@ == (StreamModel {
            sequence_nr: if old(stream)@.sequence_nr < u64::MAX {
                (old(stream)@.sequence_nr + 1) as u64
            } else {
                u64::MAX
            },
            events: old(stream)@.events.push(event@),
            ..old(stream)@
        }),
        sequenced(old(stream)@) && old(stream)@.sequence_nr < u64::MAX ==> sequenced(
            final(stream)@,
        ),
{
    let ghost before = views(stream.events@);
    let ghost e = event@;
    stream.events.push(event);
    proof {
        assert(views(stream.events@) =~= before.push(e));
    }
    stream.sequence_nr = stream.sequence_nr.saturating_add(1);
}

/// Decides whether a sub-write is carried out on its stream of a batch.
pub fn admit_in_batch(
    streams: &OrdMap<String, AtomicCompositeStream>,
    persistence_id: &String,
    parent: &CompositeParent,
    write: &PreparedCompositeSubWrite,
) -> (r: Result<bool, DispatchError>)
    requires
        batch_wf(*streams),
        streams@.contains_key(persistence_id@),
    ensures
        ({
            let s = streams@[persistence_id@];
            match r {
                Ok(carried_out) => carried_out == !is_skipped(*write, s) && (carried_out
                    ==> stale_on_stream(*parent, *write, s) is None),
                Err(e) => !is_skipped(*write, s) && stale_on_stream(*parent, *write, s) is Some
                    && e@ == DispatchErrorModel::Conflict(
                    stale_on_stream(*parent, *write, s)->0,
                ),
            }
        }),
{
    match streams.get(persistence_id) {
        Some(stream) => admit_sub_write(parent, write, stream),
        None => Ok(false),
    }
}

/// Stages a sub-write on its stream of a batch; the other streams stay as they
/// are. On an error, and where the batch is given up, all of them do.
pub fn stage_in_batch(
    streams: &mut OrdMap<String, AtomicCompositeStream>,
    persistence_id: &String,
    parent: &CompositeParent,
    write: &PreparedCompositeSubWrite,
    result: SubWriteResult,
    scoped: bool,
) -> (r: Result<StageVerdict, DispatchError>)
    requires
        batch_wf(*old(streams)),
        old(streams)@.contains_key(persistence_id@),
    ensures
        batch_wf(*final(streams)),
        match r {
            Ok(StageVerdict::Staged) => stage_refusal(*parent, *write, result, scoped) is None
                && !result.has_effects && final(streams)@ == old(streams)@.insert(
                persistence_id@,
                staged(old(streams)@[persistence_id@], *write, result),
            ),
            Ok(StageVerdict::OneByOne) => stage_refusal(*parent, *write, result, scoped) is None
                && result.has_effects && final(streams)@ == old(streams)@,
            Err(e) => stage_refusal(*parent, *write, result, scoped) is Some && e@
                == DispatchErrorModel::Internal(stage_refusal(*parent, *write, result, scoped)->0)
                && final(streams)@ == old(streams)@,
        },
        batch_sequenced(old(streams)@) && old(streams)@[persistence_id@].sequence_nr < u64::MAX
            ==> batch_sequenced(final(streams)@),
{
    let ghost before = streams@;
    match streams.take(persistence_id) {
        Some(mut stream) => {
            let r = stage_sub_write(parent, write, &mut stream, result, scoped);
            let ghost s = stream@;
            streams.insert(persistence_id.clone(), stream);
            proof {
                assert(before.remove(persistence_id@).insert(persistence_id@, s) =~= before.insert(
                    persistence_id@,
                    s,
                ));
                assert(before.insert(persistence_id@, before[persistence_id@]) =~= before);
            }
            r
        },
        None => Ok(StageVerdict::OneByOne),
    }
}

/// A sub-write that was staged is left out when it comes again, unless it
/// repairs an object.
pub proof fn a_staged_sub_write_is_not_staged_again(
    s: StreamModel,
    w: PreparedCompositeSubWrite,
    result: SubWriteResult,
)
    requires
        !recreates_pack_object(w, s),
    ensures
        is_skipped(w, staged(s, w, result)),
{
}

/// The streams, in order, that a batch appends to: those with events.
pub open spec fn appended(keys: Seq<Seq<char>>, streams: Map<Seq<char>, StreamModel>) -> Seq<
    Seq<char>,
> {
    keys.filter(|k: Seq<char>| streams[k].events.len() > 0)
}

/// The places of the streams that a batch appends to.
pub fn streams_to_append(streams: &OrdMap<String, AtomicCompositeStream>) -> (r: Vec<usize>)
    requires
        streams.wf(),
    ensures
        forall|i: int|
            0 <= i < r@.len() ==> (#[trigger] r@[i]) < streams.list().len(),
        r@.map_values(|i: usize| streams.list()[i as int]) == appended(streams.list(), streams@),
{
    let ghost keys = streams.list();
    let ghost pred = |k: Seq<char>| streams@[k].events.len() > 0;
    let ghost name = |i: usize| keys[i as int];
    let n: usize = streams.len();
    let mut out: Vec<usize> = Vec::new();
    let mut i: usize = 0;
    proof {
        assert(keys.take(0).filter(pred) =~= Seq::<Seq<char>>::empty());
        assert(out@.map_values(name) =~= Seq::<Seq<char>>::empty());
    }
    while i < n
        invariant
            i <= n,
            n == keys.len(),
            streams.wf(),
            keys == streams.list(),
            pred == (|k: Seq<char>| streams@[k].events.len() > 0),
            name == (|i: usize| keys[i as int]),
            forall|k: int| 0 <= k < out@.len() ==> (#[trigger] out@[k]) < i,
            out@.map_values(name) == keys.take(i as int).filter(pred),
        decreases n - i,
    {
        proof {
            assert(keys.take(i + 1).drop_last() =~= keys.take(i as int));
            assert(keys.take(i + 1).last() == keys[i as int]);
            reveal(Seq::filter);
        }
        let stream = streams.value_at(i);
        proof {
            assert(stream@ == streams@[keys[i as int]]);
            assert(views(stream.events@).len() == stream.events@.len());
        }
        if stream.events.len() > 0 {
            let ghost before = out@.map_values(name);
            out.push(i);
            proof {
                assert(out@.map_values(name) =~= before.push(keys[i as int]));
            }
        }
        i = i + 1;
    }
    proof {
        assert(keys.take(keys.len() as int) =~= keys);
    }
    out
}

/// What is done with the actor of an entity once the batch is written.
#[derive(Clone, Copy, Debug, PartialEq, Eq, Structural)]
pub enum Reload {
    /// It was not running on what was written.
    Keep,
    /// It is stopped.
    Stop,
    /// It is stopped and loaded again.
    StopAndLoad,
}

/// What is done with the actor of an entity once the batch is written.
pub fn reload_after_batch(stream: &AtomicCompositeStream) -> (r: Reload)
    ensures
        r == if stream@.events.len() == 0 || !stream@.target_existed {
            Reload::Keep
        } else if stream@.status == "Deleted"@ {
            Reload::Stop
        } else {
            Reload::StopAndLoad
        },
{
    proof {
        assert(views(stream.events@).len() == stream.events@.len());
    }
    if stream.events.len() == 0 || !stream.target_existed {
        Reload::Keep
    } else if same(stream.status.as_str(), "Deleted") {
        Reload::Stop
    } else {
        Reload::StopAndLoad
    }
}

/// Whether a stream still needs the metadata of an entity's first event: it
/// begins the entity, and the staging did not make that event itself.
pub fn needs_first_event_metadata(stream: &AtomicCompositeStream) -> (r: bool)
    ensures
        r == (stream@.expected_sequence == 0 && stream@.events.len() > 0
            && !stream@.bootstrapped),
{
    proof {
        assert(views(stream.events@).len() == stream.events@.len());
    }
    stream.expected_sequence == 0 && stream.events.len() > 0 && !stream.bootstrapped
}

/// How the fields of a batch that grow out of their place are kept: as blobs
/// where the backend or the tenant has a blob store.
pub fn keeps_blob_refs(backend_is_turso: bool, has_blob_store: bool) -> (r: bool)
    ensures
        r == (backend_is_turso || has_blob_store),
{
    backend_is_turso || has_blob_store
}

/// What identifies each sub-write in the event by which a composite records
/// itself.
#[derive(Clone, Debug, PartialEq, Eq)]
pub struct CompositeEventSubWrite {
    pub index: usize,
    pub entity_type: String,
    pub entity_id: String,
    pub action: String,
    pub idempotency_key: String,
}

/// What a [`CompositeEventSubWrite`] holds.
pub struct RecordedModel {
    pub index: usize,
    pub entity_type: Seq<char>,
    pub entity_id: Seq<char>,
    pub action: Seq<char>,
    pub idempotency_key: Seq<char>,
}

impl View for CompositeEventSubWrite {
    type V = RecordedModel;

    open spec fn view(&self) -> RecordedModel {
        RecordedModel {
            index: self.index,
            entity_type: self.entity_type@,
            entity_id: self.entity_id@,
            action: self.action@,
            idempotency_key: self.idempotency_key@,
        }
    }
}

/// What a composite records of a sub-write.
pub open spec fn recorded_one(w: PreparedCompositeSubWrite) -> RecordedModel {
    RecordedModel {
        index: w.idx,
        entity_type: w.write.entity_type@,
        entity_id: w.write.entity_id@,
        action: w.write.action@,
        idempotency_key: w.idempotency_key@,
    }
}

/// The sub-writes that a composite records.
pub open spec fn recorded(writes: Seq<PreparedCompositeSubWrite>) -> Seq<RecordedModel> {
    Seq::new(writes.len(), |i: int| recorded_one(writes[i]))
}

/// What a composite records of a sub-write.
pub fn recorded_sub_write(prepared: &PreparedCompositeSubWrite) -> (r: CompositeEventSubWrite)
    ensures
        r@ == recorded_one(*prepared),
{
    CompositeEventSubWrite {
        index: prepared.idx,
        entity_type: prepared.write.entity_type.clone(),
        entity_id: prepared.write.entity_id.clone(),
        action: prepared.write.action.clone(),
        idempotency_key: prepared.idempotency_key.clone(),
    }
}

/// The event by which a composite records itself: which composite it is, and its
/// sub-writes in order.
#[derive(Clone, Debug, PartialEq, Eq)]
pub struct CompositeEvent {
    pub tenant: String,
    pub parent_entity_type: String,
    pub parent_entity_id: String,
    pub parent_action: String,
    pub composite_idempotency_key: String,
    pub sub_writes: Vec<CompositeEventSubWrite>,
}

/// What a [`CompositeEvent`] holds.
pub struct CompositeEventModel {
    pub tenant: Seq<char>,
    pub parent_entity_type: Seq<char>,
    pub parent_entity_id: Seq<char>,
    pub parent_action: Seq<char>,
    pub composite_idempotency_key: Seq<char>,
    pub sub_writes: Seq<RecordedModel>,
}

impl View for CompositeEvent {
    type V = CompositeEventModel;

    open spec fn view(&self) -> CompositeEventModel {
        CompositeEventModel {
            tenant: self.tenant@,
            parent_entity_type: self.parent_entity_type@,
            parent_entity_id: self.parent_entity_id@,
            parent_action: self.parent_action@,
            composite_idempotency_key: self.composite_idempotency_key@,
            sub_writes: views(self.sub_writes@),
        }
    }
}

/// The event by which a composite with these sub-writes records itself.
pub open spec fn composite_record(
    p: CompositeParent,
    writes: Seq<PreparedCompositeSubWrite>,
) -> CompositeEventModel {
    CompositeEventModel {
        tenant: p.tenant@,
        parent_entity_type: p.entity_type@,
        parent_entity_id: p.entity_id@,
        parent_action: p.action@,
        composite_idempotency_key: p.idempotency@,
        sub_writes: recorded(writes),
    }
}

/// The event of a composite, of sub-writes that were recorded before.
pub fn composite_event_of(
    parent: &CompositeParent,
    sub_writes: Vec<CompositeEventSubWrite>,
) -> (r: CompositeEvent)
    ensures
        r@ == (CompositeEventModel {
            sub_writes: views(sub_writes@),
            ..composite_record(*parent, Seq::empty())
        }),
{
    CompositeEvent {
        tenant: parent.tenant.clone(),
        parent_entity_type: parent.entity_type.clone(),
        parent_entity_id: parent.entity_id.clone(),
        parent_action: parent.action.clone(),
        composite_idempotency_key: parent.idempotency.clone(),
        sub_writes,
    }
}

/// The event by which a composite records itself.
pub fn build_composite_event(
    parent: &CompositeParent,
    prepared: &Vec<PreparedCompositeSubWrite>,
) -> (r: CompositeEvent)
    ensures
        r@ == composite_record(*parent, prepared@),
{
    let mut out: Vec<CompositeEventSubWrite> = Vec::new();
    let mut i: usize = 0;
    while i < prepared.len()
        invariant
            i <= prepared.len(),
            out.len() == i,
            forall|k: int| 0 <= k < i ==> (#[trigger] out@[k])@ == recorded(prepared@)[k],
        decreases prepared.len() - i,
    {
        out.push(recorded_sub_write(&prepared[i]));
        i = i + 1;
    }
    proof {
        assert(views(out@) =~= recorded(prepared@));
    }
    composite_event_of(parent, out)
}

/// The key in the event of a composite is the one by which it is seen to be
/// recorded: no composite is recorded twice.
pub proof fn a_recorded_composite_is_seen(
    p: CompositeParent,
    writes: Seq<PreparedCompositeSubWrite>,
    events: Seq<ParentEvent>,
    at: int,
)
    requires
        0 <= at < events.len(),
        events[at].is_composite_event,
        opt_text(events[at].composite_idempotency_key) == Some(
            composite_record(p, writes).composite_idempotency_key,
        ),
    ensures
        composite_recorded(events, p.idempotency@),
{
}

/// The text of a sub-write that failed when it was dispatched on its own.
pub fn sub_write_failure(parent: &CompositeParent, idx: usize, error: Option<String>) -> (r: String)
    ensures
        r@ == match error {
            Some(e) => e@,
            None => sub_write_head(*parent, idx) + " failed"@,
        },
{
    match error {
        Some(e) => e,
        None => {
            let mut text = sub_write_head_of(parent, idx);
            text.append(" failed");
            text
        },
    }
}

/// Preparation keeps what a sub-write says: its type, its action and its
/// parameters, of which only an absent `Id` is filled in, with the entity that
/// the sub-write names. Its place in the composite is kept. The entity is the
/// one that it names, or for a create the one that the spec derives.
pub proof fn preparation_keeps_what_a_sub_write_says(
    p: CompositeParent,
    metadata: CompositeActionMetadata,
    idx: usize,
    sub_write: CompositeSubWrite,
    checks: SubWriteChecks,
    w: PreparedCompositeSubWrite,
    name: Seq<char>,
)
    requires
        prepared_as(p, metadata, idx, sub_write, checks, w),
    ensures
        w.idx == idx,
        w.write.entity_type@ == sub_write.entity_type@,
        w.write.action@ == sub_write.action@,
        ({
            let given = sub_write.params@;
            let kept = w.write.params@;
            &&& given is Object || given is Null ==> {
                &&& kept is Object
                &&& name != "Id"@ ==> member(kept, name) == member(given, name)
                &&& member(kept, "Id"@) == match member(given, "Id"@) {
                    Some(id) => Some(id),
                    None => Some(JsonModel::Text(sub_write.entity_id@)),
                }
            }
            &&& !(given is Object || given is Null) ==> kept == given
        }),
        sub_write.action@ != "Create"@ ==> w.write.entity_id@ == sub_write.entity_id@,
        sub_write.action@ == "Create"@ && checks.derived_id is Ok ==> w.write.entity_id@
            == match checks.derived_id->Ok_0 {
            Some(id) => id@,
            None => sub_write.entity_id@,
        },
{
    normal_parameters_keep_what_was_given(sub_write.params@, sub_write.entity_id@, name);
}

/// A sub-write is prepared exactly where its type is governed, a create has an
/// object for its parameters and a valid identifier, and either the parent's
/// gate covers it or the policy grants it.
pub proof fn only_authorized_sub_writes_are_prepared(
    p: CompositeParent,
    metadata: CompositeActionMetadata,
    idx: usize,
    w: CompositeSubWrite,
    checks: SubWriteChecks,
)
    ensures
        preparation_refusal(p, metadata, idx, w, checks) is None <==> {
            &&& checks.governed
            &&& w.action@ == "Create"@ ==> (w.params@ is Object || w.params@ is Null)
                && checks.derived_id is Ok
            &&& uses_parent_gate(metadata, w.entity_type@, w.action@) || checks.authorization
                is Granted
        },
        !checks.governed ==> preparation_refusal(p, metadata, idx, w, checks) == Some(
            DispatchErrorModel::Ungoverned(w.entity_type@),
        ),
        preparation_refusal(p, metadata, idx, w, checks) is Some && preparation_refusal(
            p,
            metadata,
            idx,
            w,
            checks,
        )->0 is AuthzDenied ==> checks.authorization is Denied,
{
    normal_parameters_keep_what_was_given(w.params@, w.entity_id@, "Id"@);
}

/// Sub-writes are prepared all together: where none is refused each of them is
/// allowed, and a refusal is that of the first that is not.
pub proof fn sub_writes_are_prepared_together(
    p: CompositeParent,
    metadata: CompositeActionMetadata,
    writes: Seq<CompositeSubWrite>,
    checks: Seq<SubWriteChecks>,
    n: int,
    k: int,
)
    requires
        0 <= k < n <= writes.len() <= usize::MAX,
    ensures
        preparation_refusals(p, metadata, writes, checks, n) is None ==> preparation_refusal(
            p,
            metadata,
            k as usize,
            writes[k],
            checks[k],
        ) is None,
        preparation_refusal(p, metadata, k as usize, writes[k], checks[k]) is Some && (forall|i: int|
            0 <= i < k ==> preparation_refusal(
                p,
                metadata,
                i as usize,
                #[trigger] writes[i],
                checks[i],
            ) is None) ==> preparation_refusals(p, metadata, writes, checks, n)
            == preparation_refusal(p, metadata, k as usize, writes[k], checks[k]),
    decreases n,
{
    if k < n - 1 {
        sub_writes_are_prepared_together(p, metadata, writes, checks, n - 1, k);
    } else if forall|i: int|
        0 <= i < k ==> preparation_refusal(
            p,
            metadata,
            i as usize,
            #[trigger] writes[i],
            checks[i],
        ) is None {
        nothing_is_refused(p, metadata, writes, checks, k);
    }
}

proof fn nothing_is_refused(
    p: CompositeParent,
    metadata: CompositeActionMetadata,
    writes: Seq<CompositeSubWrite>,
    checks: Seq<SubWriteChecks>,
    n: int,
)
    requires
        0 <= n <= writes.len() <= usize::MAX,
        forall|i: int|
            0 <= i < n ==> preparation_refusal(
                p,
                metadata,
                i as usize,
                #[trigger] writes[i],
                checks[i],
            ) is None,
    ensures
        preparation_refusals(p, metadata, writes, checks, n) is None,
    decreases n,
{
    if n > 0 {
        nothing_is_refused(p, metadata, writes, checks, n - 1);
        assert(preparation_refusal(
            p,
            metadata,
            (n - 1) as usize,
            writes[n - 1],
            checks[n - 1],
        ) is None);
    }
}

/// The preflight lets a sub-write pass exactly where it was carried out already,
/// or where its ref is not stale, its entity takes one more event and its action
/// is valid from the state that the entity is in.
pub proof fn the_preflight_lets_only_valid_writes_pass(
    p: CompositeParent,
    w: PreparedCompositeSubWrite,
    t: TargetModel,
    can_accept_event: bool,
    evaluation: Evaluation,
)
    ensures
        preflight_refusal(p, w, t, can_accept_event, evaluation) is None <==> {
            ||| t.processed.contains(w.idempotency_key@)
            ||| {
                &&& stale_ref(
                    p.entity_type@,
                    p.action@,
                    w.idx,
                    w.write.entity_type@,
                    w.write.entity_id@,
                    w.write.action@,
                    w.write.params@,
                    ref_target(t.existed, t.status, t.fields),
                ) is None
                &&& can_accept_event
                &&& evaluation is Allowed
            }
        },
{
}

/// Opening the stream of an entity takes the entity over as it is, behind the
/// sequence that its journal is at. An entity that is new begins with its
/// creation unless the write itself makes that event; no other stream begins
/// with an event.
pub proof fn a_stream_opens_on_its_entity(
    entity_type: Seq<char>,
    entity_id: Seq<char>,
    t: TargetModel,
    suppress: bool,
    now: Timestamp,
)
    ensures
        ({
            let s = opened(entity_type, entity_id, t, suppress, now);
            &&& s.entity_type == entity_type
            &&& s.entity_id == entity_id
            &&& s.target_existed == t.existed
            &&& s.status == t.status
            &&& s.fields == t.fields
            &&& s.processed == t.processed
            &&& s.expected_sequence == t.sequence_nr
            &&& s.sequence_nr == t.sequence_nr + s.events.len()
            &&& s.events.len() == if !suppress && !t.existed && t.sequence_nr == 0
                && t.total_event_count == 0 {
                1nat
            } else {
                0nat
            }
            &&& s.bootstrapped == (s.events.len() == 1)
            &&& s.events.len() == 1 ==> s.events[0].action == "Created"@
                && s.events[0].from_status.len() == 0 && s.events[0].to_status == t.status
                && s.events[0].timestamp == now && s.events[0].params == JsonModel::Object(
                Seq::empty(),
            ) && s.events[0].idempotency_key is None
        }),
{
}

/// Staging a sub-write adds one event, the one that the state machine gave, under
/// the write's own key; leaves the entity as that event does; and touches nothing
/// else of the stream.
pub proof fn staging_adds_one_event(
    s: StreamModel,
    w: PreparedCompositeSubWrite,
    result: SubWriteResult,
    i: int,
    key: Seq<char>,
)
    requires
        s.sequence_nr < u64::MAX,
    ensures
        ({
            let after = staged(s, w, result);
            let e = after.events.last();
            &&& after.events.len() == s.events.len() + 1
            &&& 0 <= i < s.events.len() ==> after.events[i] == s.events[i]
            &&& e.action == result.event.action@
            &&& e.from_status == result.event.from_status@
            &&& e.to_status == result.event.to_status@
            &&& e.params == result.event.params@
            &&& e.timestamp == result.event.timestamp
            &&& e.idempotency_key == Some(w.idempotency_key@)
            &&& after.sequence_nr == s.sequence_nr + 1
            &&& after.expected_sequence == s.expected_sequence
            &&& after.status == result.status@
            &&& after.fields == result.fields@
            &&& after.processed.contains(w.idempotency_key@)
            &&& key != w.idempotency_key@ ==> after.processed.contains(key) == s.processed.contains(
                key,
            )
            &&& after.entity_type == s.entity_type
            &&& after.entity_id == s.entity_id
            &&& after.target_existed == s.target_existed
            &&& after.bootstrapped == s.bootstrapped
        }),
{
}

/// A sub-write ends the batch unless it succeeded and its fields are kept; one
/// with effects beyond its event is carried out on its own, where no scope
/// forbids it.
pub proof fn only_a_success_is_staged(
    p: CompositeParent,
    w: PreparedCompositeSubWrite,
    result: SubWriteResult,
    scoped: bool,
)
    ensures
        stage_refusal(p, w, result, scoped) is None <==> {
            &&& result.success
            &&& result.has_effects ==> !scoped
            &&& !result.has_effects ==> result.overflow is Stored
        },
        !result.success && result.error is Some ==> stage_refusal(p, w, result, scoped) == Some(
            result.error->0@,
        ),
{
}

/// A write is left out only where it was carried out under its key, or where it
/// would create a git object again that is there with its bytes.
pub proof fn only_a_done_write_is_left_out(w: PreparedCompositeSubWrite, s: StreamModel)
    ensures
        ({
            let object = w.write.entity_type@;
            let again = w.uses_parent_gate && w.write.action@ == "Create"@ && s.target_existed && (
            object == "Blob"@ || object == "Tree"@ || object == "Commit"@ || object == "Tag"@);
            &&& again ==> is_skipped(w, s) == has_payload(s.fields)
            &&& !again ==> is_skipped(w, s) == s.processed.contains(w.idempotency_key@)
        }),
{
}

/// A batch appends to exactly the journals that have events.
pub proof fn exactly_the_written_streams_are_appended(
    keys: Seq<Seq<char>>,
    streams: Map<Seq<char>, StreamModel>,
    id: Seq<char>,
)
    ensures
        appended(keys, streams).contains(id) <==> keys.contains(id) && streams[id].events.len()
            > 0,
{
    filter_keeps_exactly(keys, |k: Seq<char>| streams[k].events.len() > 0, id);
}

/// The event of a composite names the composite and every sub-write, in order,
/// with the key under which each is carried out.
pub proof fn a_composite_records_every_sub_write(
    p: CompositeParent,
    writes: Seq<PreparedCompositeSubWrite>,
    k: int,
)
    requires
        0 <= k < writes.len(),
    ensures
        ({
            let event = composite_record(p, writes);
            let one = event.sub_writes[k];
            &&& event.tenant == p.tenant@
            &&& event.parent_entity_type == p.entity_type@
            &&& event.parent_entity_id == p.entity_id@
            &&& event.parent_action == p.action@
            &&& event.composite_idempotency_key == p.idempotency@
            &&& event.sub_writes.len() == writes.len()
            &&& one.index == writes[k].idx
            &&& one.entity_type == writes[k].write.entity_type@
            &&& one.entity_id == writes[k].write.entity_id@
            &&& one.action == writes[k].write.action@
            &&& one.idempotency_key == writes[k].idempotency_key@
        }),
{
}

/// An entity that was loaded is staged as it is, and one that was not as it
/// would begin. A scoped entity is there only once it has an event.
pub proof fn a_target_is_as_it_was_loaded(
    loaded: Option<CompositeTarget>,
    scoped: bool,
    entity_id: &str,
    initial_state: &str,
    r: CompositeTarget,
)
    requires
        loaded is Some ==> loaded->0.processed.wf(),
        call_ensures(composite_target, (loaded, scoped, entity_id, initial_state), r),
    ensures
        loaded is Some ==> {
            let t = loaded->0@;
            &&& r@.status == t.status
            &&& r@.fields == t.fields
            &&& r@.sequence_nr == t.sequence_nr
            &&& r@.total_event_count == t.total_event_count
            &&& r@.processed == t.processed
            &&& !scoped ==> r@.existed
            &&& scoped ==> (r@.existed <==> t.sequence_nr > 0)
        },
        loaded is None ==> {
            &&& !r@.existed
            &&& r@.status == initial_state@
            &&& r@.sequence_nr == 0
            &&& r@.total_event_count == 0
            &&& crate::json::member(r@.fields, "Id"@) == Some(JsonModel::Text(entity_id@))
            &&& forall|key: Seq<char>| !(#[trigger] r@.processed.contains(key))
        },
{
    if loaded is None {
        let s = r@.fields->Object_0;
        assert(s[0].0 == "Id"@);
        assert(crate::json::find_member(s, "Id"@) == Some(s[0].1));
    }
}

/// The event of the parent is staged behind what was staged before, at the next
/// sequence, and nothing else of the stream changes.
pub proof fn the_parent_is_staged_last()
    ensures
        forall|stream: &mut AtomicCompositeStream, event: EntityEvent, r: ()|
            stream.processed.wf() && stream@.sequence_nr < u64::MAX && #[trigger] call_ensures(
                stage_parent_event,
                (stream, event),
                r,
            ) ==> {
                let before = stream@;
                let after = final(stream)@;
                &&& after.sequence_nr == before.sequence_nr + 1
                &&& after.events.len() == before.events.len() + 1
                &&& after.events[before.events.len() as int] == event@
                &&& after.events.drop_last() =~= before.events
                &&& after.expected_sequence == before.expected_sequence
                &&& after.status == before.status
                &&& after.fields == before.fields
            },
{
}

/// An entity that the batch did not write, or that did not exist before it, is
/// left as it is. One that it deleted is stopped, and any other is loaded again.
pub proof fn a_written_entity_is_loaded_again(stream: &AtomicCompositeStream, r: Reload)
    requires
        call_ensures(reload_after_batch, (stream,), r),
    ensures
        r == Reload::Keep <==> stream@.events.len() == 0 || !stream@.target_existed,
        r == Reload::Stop <==> stream@.events.len() > 0 && stream@.target_existed && stream@.status
            == "Deleted"@,
        r == Reload::StopAndLoad <==> stream@.events.len() > 0 && stream@.target_existed
            && stream@.status != "Deleted"@,
{
}

/// What is recorded of a sub-write is the sub-write: its place, its entity, its
/// action and its key.
pub proof fn a_sub_write_is_recorded_as_it_is(
    w: &PreparedCompositeSubWrite,
    r: CompositeEventSubWrite,
)
    requires
        call_ensures(recorded_sub_write, (w,), r),
    ensures
        r@.index == w.idx,
        r@.entity_type == w.write.entity_type@,
        r@.entity_id == w.write.entity_id@,
        r@.action == w.write.action@,
        r@.idempotency_key == w.idempotency_key@,
{
}

/// A stream that begins with this batch, and was not begun by the batch itself,
/// has the metadata of its first event made.
pub proof fn a_first_event_needs_its_metadata(stream: &AtomicCompositeStream, r: bool)
    requires
        call_ensures(needs_first_event_metadata, (stream,), r),
    ensures
        r <==> stream@.expected_sequence == 0 && stream@.events.len() > 0 && !stream@.bootstrapped,
{
}

/// A create with a derived identifier is of the entity that it derives, and any
/// other sub-write of the entity that it names.
pub proof fn only_a_create_derives_its_entity(w: CompositeSubWrite, checks: SubWriteChecks)
    ensures
        w.action@ != "Create"@ ==> target_id(w, checks) == w.entity_id@,
        !(checks.derived_id is Ok) || checks.derived_id->Ok_0 is None ==> target_id(w, checks)
            == w.entity_id@,
        w.action@ == "Create"@ && checks.derived_id is Ok && checks.derived_id->Ok_0 is Some
            ==> target_id(w, checks) == checks.derived_id->Ok_0->0@,
{
}

/// Only an entity without any event is begun by a batch, and not where the
/// sub-write begins it itself.
pub proof fn only_a_new_entity_is_begun(t: TargetModel, suppress: bool)
    ensures
        begins_entity(t, suppress) <==> !suppress && !t.existed && t.sequence_nr == 0
            && t.total_event_count == 0,
{
}

} // verus!
