//! Dispatch of actions: which reactions a dispatch commits and follows up, what
//! it is refused for, and how its outcome is accounted.

use vstd::prelude::*;
use vstd::string::*;
use vstd::utf8::decode_utf8;
use vstd::utf8::decode_utf8_split;
use vstd::utf8::encode_utf8;
use vstd::utf8::encode_utf8_decode_utf8;
use vstd::utf8::encode_utf8_valid_utf8;
use vstd::utf8::is_char_boundary;
use vstd::utf8::is_char_boundary_start_end_of_seq;

use crate::json::find_member;
use crate::json::put_member;
use crate::json::Json;
use crate::json::JsonModel;
use crate::json::put_then_find;
use crate::ordered::OrdSet;
use crate::retry::transient;
use crate::retry::ActorError;
use crate::text::decimal;
use crate::text::decimal_of;
use crate::text::opt_text;
use crate::text::same;

verus! {

/// The most bytes of a request body that a failure log shows.
pub const LOG_REQUEST_BODY_MAX_BYTES: usize = 4096;

/// The most deliveries that the inspection of awaited reactions reads.
pub const DELIVERY_INSPECTION_BUDGET: usize = 10_000;

/// The greatest character boundary not above `n`.
pub open spec fn boundary_below(bytes: Seq<u8>, n: int) -> int
    decreases n,
{
    if n <= 0 {
        0
    } else if is_char_boundary(bytes, n) {
        n
    } else {
        boundary_below(bytes, n - 1)
    }
}

/// The bytes of two texts that are joined are those of the two.
proof fn bytes_of_joined(a: Seq<char>, b: Seq<char>)
    ensures
        encode_utf8(a + b) == encode_utf8(a) + encode_utf8(b),
    decreases a.len(),
{
    if a.len() == 0 {
        assert(a + b =~= b);
        assert(encode_utf8(a) + encode_utf8(b) =~= encode_utf8(b));
    } else {
        assert((a + b).drop_first() =~= a.drop_first() + b);
        bytes_of_joined(a.drop_first(), b);
        assert(encode_utf8(a + b) =~= encode_utf8(a) + encode_utf8(b));
    }
}

/// A request body for the failure log: as it is within the budget, else cut at
/// the last whole character within it and marked as cut.
pub fn truncate_request_body_for_log(serialized: &str) -> (r: String)
    ensures
        encode_utf8(r@).len() <= LOG_REQUEST_BODY_MAX_BYTES + encode_utf8("[truncated]"@).len(),
        encode_utf8(serialized@).len() <= LOG_REQUEST_BODY_MAX_BYTES ==> r@ == serialized@,
        encode_utf8(serialized@).len() > LOG_REQUEST_BODY_MAX_BYTES ==> exists|k: int|
            {
                &&& 0 <= k <= serialized@.len()
                &&& r@ == #[trigger] serialized@.take(k) + "[truncated]"@
                &&& encode_utf8(serialized@.take(k)) == encode_utf8(serialized@).subrange(
                    0,
                    boundary_below(
                        encode_utf8(serialized@),
                        LOG_REQUEST_BODY_MAX_BYTES as int,
                    ),
                )
            },
{
    let ghost bytes = encode_utf8(serialized@);
    let raw = serialized.as_bytes();
    if raw.len() <= LOG_REQUEST_BODY_MAX_BYTES {
        return serialized.to_owned();
    }
    proof {
        encode_utf8_valid_utf8(serialized@);
        is_char_boundary_start_end_of_seq(bytes);
    }
    let mut end: usize = LOG_REQUEST_BODY_MAX_BYTES;
    while end > 0 && !serialized.is_char_boundary(end)
        invariant
            end <= LOG_REQUEST_BODY_MAX_BYTES,
            bytes == encode_utf8(serialized@),
            boundary_below(bytes, LOG_REQUEST_BODY_MAX_BYTES as int) == boundary_below(
                bytes,
                end as int,
            ),
        decreases end,
    {
        end = end - 1;
    }
    let (head, _tail) = serialized.split_at(end);
    proof {
        assert(boundary_below(bytes, LOG_REQUEST_BODY_MAX_BYTES as int) == end);
        encode_utf8_decode_utf8(serialized@);
        encode_utf8_decode_utf8(head@);
        decode_utf8_split(bytes, end as int);
        let front = bytes.subrange(0, end as int);
        assert(encode_utf8(head@) == front);
        assert(decode_utf8(front) == head@);
        let k = head@.len() as int;
        assert(serialized@.take(k) =~= head@);
    }
    let mut text = head.to_owned();
    text.append("[truncated]");
    proof {
        let k = head@.len() as int;
        assert(text@ == serialized@.take(k) + "[truncated]"@);
        bytes_of_joined(serialized@.take(k), "[truncated]"@);
    }
    text
}

/// Why a dispatch fails.
#[derive(Clone, Debug, PartialEq, Eq)]
pub enum DispatchError {
    Internal(String),
    /// The entity type has no registered spec.
    Ungoverned(String),
    /// The type has no room for another action now.
    Deferred { retry_after_ms: u64 },
    /// The write does not fit what is stored.
    Conflict(String),
    /// A policy denies the write.
    AuthzDenied(String),
    /// A quota does not cover the write.
    QuotaExceeded(String),
    /// The actor did not answer after so many attempts.
    Actor(ActorError, u32),
}

/// What a [`DispatchError`] holds.
pub enum DispatchErrorModel {
    Internal(Seq<char>),
    Ungoverned(Seq<char>),
    Deferred { retry_after_ms: u64 },
    Conflict(Seq<char>),
    AuthzDenied(Seq<char>),
    QuotaExceeded(Seq<char>),
    Actor(ActorError, u32),
}

impl View for DispatchError {
    type V = DispatchErrorModel;

    open spec fn view(&self) -> DispatchErrorModel {
        match self {
            Self::Internal(s) => DispatchErrorModel::Internal(s@),
            Self::Ungoverned(s) => DispatchErrorModel::Ungoverned(s@),
            Self::Deferred { retry_after_ms } => DispatchErrorModel::Deferred {
                retry_after_ms: *retry_after_ms,
            },
            Self::Conflict(s) => DispatchErrorModel::Conflict(s@),
            Self::AuthzDenied(s) => DispatchErrorModel::AuthzDenied(s@),
            Self::QuotaExceeded(s) => DispatchErrorModel::QuotaExceeded(s@),
            Self::Actor(e, n) => DispatchErrorModel::Actor(*e, *n),
        }
    }
}

/// The fields that guards see: those of the entity with the first `n`
/// parameters of the action over them.
pub open spec fn overlaid(
    fields: Seq<(Seq<char>, JsonModel)>,
    params: Seq<(Seq<char>, JsonModel)>,
    n: int,
) -> Seq<(Seq<char>, JsonModel)>
    decreases n,
{
    if n <= 0 {
        fields
    } else {
        put_member(overlaid(fields, params, n - 1), params[n - 1].0, params[n - 1].1)
    }
}

/// The fields that guards see: those of the entity with the parameters of the
/// action over them, where both are objects.
pub fn guard_fields(fields: Json, params: &Json) -> (r: Json)
    ensures
        r@ == match (fields@, params@) {
            (JsonModel::Object(f), JsonModel::Object(p)) => JsonModel::Object(
                overlaid(f, p, p.len() as int),
            ),
            _ => fields@,
        },
{
    let mut out = fields;
    if !out.is_object() {
        return out;
    }
    let ghost start = out@->Object_0;
    match params {
        Json::Object(members) => {
            let ghost p = crate::json::members_model(members@);
            proof {
                crate::json::model_of_parts(*params);
            }
            let mut i: usize = 0;
            while i < members.len()
                invariant
                    i <= members.len(),
                    p == crate::json::members_model(members@),
                    out@ == JsonModel::Object(overlaid(start, p, i as int)),
                decreases members.len() - i,
            {
                proof {
                    assert(p[i as int] == (members@[i as int].0@, members@[i as int].1@));
                }
                out.put(members[i].0.as_str(), members[i].1.copy());
                i = i + 1;
            }
            out
        },
        _ => out,
    }
}

/// What a dispatch commits besides its event.
#[derive(Clone, Copy, Debug, PartialEq, Eq, Structural)]
pub struct CommitPlan {
    pub has_dispatcher: bool,
    pub has_journal: bool,
    /// Rules of reactions may match.
    pub reactions: bool,
    /// The entity's type declares timeouts, and there is a journal for them.
    pub timeouts: bool,
}

impl CommitPlan {
    /// Whether the entity's state is read first, so that reactions are decided
    /// on it.
    pub open spec fn source_needed(&self) -> bool {
        self.has_dispatcher && (self.reactions || self.timeouts)
    }

    /// Whether the entity's state is read first.
    pub fn reads_source(&self) -> (r: bool)
        ensures
            r == self.source_needed(),
    {
        self.has_dispatcher && (self.reactions || self.timeouts)
    }

    /// Whether intents are committed with the event.
    pub fn expects_intents(&self) -> (r: bool)
        ensures
            r == (self.reactions || self.timeouts),
    {
        self.reactions || self.timeouts
    }
}

/// What a dispatch commits besides its event: reactions whose rules may match,
/// and declared timeouts.
pub fn plan_commit(
    has_dispatcher: bool,
    has_rules: bool,
    has_journal: bool,
    declares_timeouts: bool,
) -> (r: CommitPlan)
    ensures
        r == (CommitPlan {
            has_dispatcher,
            has_journal,
            reactions: has_dispatcher && has_rules,
            timeouts: has_journal && declares_timeouts,
        }),
{
    CommitPlan {
        has_dispatcher,
        has_journal,
        reactions: has_dispatcher && has_rules,
        timeouts: has_journal && declares_timeouts,
    }
}

/// Reactions are only committed where there is a journal to commit them to.
pub fn require_journal(plan: &CommitPlan) -> (r: Result<(), DispatchError>)
    ensures
        match r {
            Ok(_) => plan.reactions ==> plan.has_journal,
            Err(e) => plan.reactions && !plan.has_journal && e@ == DispatchErrorModel::Internal(
                "durable reactions require a configured event journal"@,
            ),
        },
{
    if plan.reactions && !plan.has_journal {
        return Err(
            DispatchError::Internal(
                "durable reactions require a configured event journal".to_owned(),
            ),
        );
    }
    Ok(())
}

/// What a committed event asks to be delivered.
#[derive(Clone, Debug, PartialEq, Eq)]
pub struct ReactionIntent {
    /// A reaction; else a timeout.
    pub is_reaction: bool,
    pub root_delivery_id: String,
}

/// Whether some intent is of this kind.
pub open spec fn has_kind(intents: Seq<ReactionIntent>, reaction: bool) -> bool {
    exists|i: int| 0 <= i < intents.len() && (#[trigger] intents[i]).is_reaction == reaction
}

/// What is done with the reactions of a successful dispatch.
#[derive(Clone, Debug, PartialEq, Eq)]
pub enum ReactionFollowUp {
    /// They are delivered now, and the trees of these roots must end.
    Await(OrdSet<String>),
    /// They are delivered in the background.
    Background,
    /// Nothing was committed: reactions are dispatched at once.
    Immediate,
    /// Nothing is done.
    Nothing,
}

/// What follows a successful dispatch.
#[derive(Clone, Debug, PartialEq, Eq)]
pub struct FollowUp {
    /// The recovery worker is woken.
    pub notify_recovery: bool,
    pub reactions: ReactionFollowUp,
}

/// Whether `r` is what follows a dispatch that committed these intents: timeouts
/// wake the recovery worker, and so do reactions that nobody waits for.
pub open spec fn followed_by(
    intents: Seq<ReactionIntent>,
    await_reactions: bool,
    r: FollowUp,
) -> bool {
    &&& r.notify_recovery == (has_kind(intents, false) || (has_kind(intents, true)
        && !await_reactions))
    &&& match r.reactions {
        ReactionFollowUp::Await(roots) => {
            &&& has_kind(intents, true)
            &&& await_reactions
            &&& roots.wf()
            &&& forall|root: Seq<char>| #[trigger]
                roots@.contains(root) == exists|i: int|
                    0 <= i < intents.len() && (#[trigger] intents[i]).is_reaction
                        && intents[i].root_delivery_id@ == root
        },
        ReactionFollowUp::Background => has_kind(intents, true) && !await_reactions,
        ReactionFollowUp::Immediate => intents.len() == 0,
        ReactionFollowUp::Nothing => intents.len() > 0 && !has_kind(intents, true),
    }
}

/// Decides what follows a successful dispatch. Timeouts are left to the
/// recovery worker; reactions are waited for where the caller waits, and
/// otherwise go to the background, with the recovery worker behind them.
pub fn follow_up(intents: &Vec<ReactionIntent>, await_reactions: bool) -> (r: FollowUp)
    ensures
        followed_by(intents@, await_reactions, r),
{
    let mut roots: OrdSet<String> = OrdSet::new();
    let mut reactions = false;
    let mut timeouts = false;
    let mut i: usize = 0;
    while i < intents.len()
        invariant
            i <= intents.len(),
            roots.wf(),
            reactions == exists|k: int| 0 <= k < i && (#[trigger] intents@[k]).is_reaction == true,
            timeouts == exists|k: int| 0 <= k < i && (#[trigger] intents@[k]).is_reaction == false,
            forall|root: Seq<char>| #[trigger]
                roots@.contains(root) == exists|k: int|
                    0 <= k < i && (#[trigger] intents@[k]).is_reaction
                        && intents@[k].root_delivery_id@ == root,
        decreases intents.len() - i,
    {
        let ghost before = roots@;
        if intents[i].is_reaction {
            reactions = true;
            let _fresh = roots.insert(intents[i].root_delivery_id.clone());
            proof {
                assert(intents@[i as int].is_reaction == true);
                assert forall|root: Seq<char>| #[trigger]
                    roots@.contains(root) == exists|k: int|
                        0 <= k < i + 1 && (#[trigger] intents@[k]).is_reaction
                            && intents@[k].root_delivery_id@ == root by {
                    if roots@.contains(root) && !before.contains(root) {
                        assert(intents@[i as int].root_delivery_id@ == root);
                    }
                }
            }
        } else {
            timeouts = true;
            proof {
                assert(intents@[i as int].is_reaction == false);
            }
        }
        i = i + 1;
    }
    proof {
        if intents@.len() > 0 {
            assert(intents@[0].is_reaction == true || intents@[0].is_reaction == false);
        }
    }
    let follow = if reactions && await_reactions {
        ReactionFollowUp::Await(roots)
    } else if reactions {
        ReactionFollowUp::Background
    } else if intents.len() == 0 {
        ReactionFollowUp::Immediate
    } else {
        ReactionFollowUp::Nothing
    };
    FollowUp { notify_recovery: timeouts || (reactions && !await_reactions), reactions: follow }
}

/// The place of the committed event among those that were read behind it, or
/// why its intents cannot be told.
pub fn committed_event_place(
    has_journal: bool,
    persistence_id: &str,
    source_sequence: u64,
    sequences: &Vec<u64>,
) -> (r: Result<usize, DispatchError>)
    ensures
        match r {
            Ok(i) => {
                &&& has_journal
                &&& source_sequence > 0
                &&& i < sequences@.len()
                &&& sequences@[i as int] == source_sequence
                &&& forall|k: int| 0 <= k < i ==> #[trigger] sequences@[k] != source_sequence
            },
            Err(e) => if !has_journal {
                e@ == DispatchErrorModel::Internal(
                    "durable reactions require a configured event journal"@,
                )
            } else if source_sequence == 0 {
                e@ == DispatchErrorModel::Internal(
                    "successful persisted action returned sequence zero"@,
                )
            } else {
                &&& !sequences@.contains(source_sequence)
                &&& e@ == DispatchErrorModel::Internal(
                    "committed source event "@ + persistence_id@ + "@"@ + decimal(
                        source_sequence as nat,
                    ) + " was not readable"@,
                )
            },
        },
{
    if !has_journal {
        return Err(
            DispatchError::Internal(
                "durable reactions require a configured event journal".to_owned(),
            ),
        );
    }
    if source_sequence == 0 {
        return Err(
            DispatchError::Internal(
                "successful persisted action returned sequence zero".to_owned(),
            ),
        );
    }
    let mut i: usize = 0;
    while i < sequences.len()
        invariant
            i <= sequences.len(),
            has_journal,
            source_sequence > 0,
            forall|k: int| 0 <= k < i ==> #[trigger] sequences@[k] != source_sequence,
        decreases sequences.len() - i,
    {
        if sequences[i] == source_sequence {
            return Ok(i);
        }
        i = i + 1;
    }
    let mut text = "committed source event ".to_owned();
    text.append(persistence_id);
    text.append("@");
    text.append(decimal_of(source_sequence).as_str());
    text.append(" was not readable");
    Err(DispatchError::Internal(text))
}

/// Where a delivery stands.
#[derive(Clone, Copy, Debug, PartialEq, Eq, Structural)]
pub enum ReactionDeliveryStatus {
    Pending,
    Claimed,
    Dispatching,
    Completed,
    Rejected,
    DeadLettered,
}

/// The word for where a delivery stands.
pub open spec fn delivery_word(status: ReactionDeliveryStatus) -> Seq<char> {
    match status {
        ReactionDeliveryStatus::Pending => "Pending"@,
        ReactionDeliveryStatus::Claimed => "Claimed"@,
        ReactionDeliveryStatus::Dispatching => "Dispatching"@,
        ReactionDeliveryStatus::Completed => "Completed"@,
        ReactionDeliveryStatus::Rejected => "Rejected"@,
        ReactionDeliveryStatus::DeadLettered => "DeadLettered"@,
    }
}

fn delivery_word_of(status: ReactionDeliveryStatus) -> (r: &'static str)
    ensures
        r@ == delivery_word(status),
{
    match status {
        ReactionDeliveryStatus::Pending => "Pending",
        ReactionDeliveryStatus::Claimed => "Claimed",
        ReactionDeliveryStatus::Dispatching => "Dispatching",
        ReactionDeliveryStatus::Completed => "Completed",
        ReactionDeliveryStatus::Rejected => "Rejected",
        ReactionDeliveryStatus::DeadLettered => "DeadLettered",
    }
}

/// A stored delivery.
#[derive(Clone, Debug, PartialEq, Eq)]
pub struct DeliveryRecord {
    pub delivery_id: String,
    pub root_delivery_id: String,
    pub status: ReactionDeliveryStatus,
}

pub open spec fn has_failed(status: ReactionDeliveryStatus) -> bool {
    status == ReactionDeliveryStatus::Rejected || status == ReactionDeliveryStatus::DeadLettered
}

pub open spec fn is_incomplete(status: ReactionDeliveryStatus) -> bool {
    status == ReactionDeliveryStatus::Pending || status == ReactionDeliveryStatus::Claimed
        || status == ReactionDeliveryStatus::Dispatching
}

/// The first delivery of a tree that failed.
pub open spec fn first_failed(records: Seq<DeliveryRecord>, root: Seq<char>) -> Option<
    DeliveryRecord,
>
    decreases records.len(),
{
    if records.len() == 0 {
        None
    } else if records[0].root_delivery_id@ == root && has_failed(records[0].status) {
        Some(records[0])
    } else {
        first_failed(records.drop_first(), root)
    }
}

/// The first delivery of a tree that has not ended.
pub open spec fn first_incomplete(records: Seq<DeliveryRecord>, root: Seq<char>) -> Option<
    DeliveryRecord,
>
    decreases records.len(),
{
    if records.len() == 0 {
        None
    } else if records[0].root_delivery_id@ == root && is_incomplete(records[0].status) {
        Some(records[0])
    } else {
        first_incomplete(records.drop_first(), root)
    }
}

/// Whether some delivery belongs to a tree.
pub open spec fn has_tree(records: Seq<DeliveryRecord>, root: Seq<char>) -> bool {
    exists|i: int| 0 <= i < records.len() && (#[trigger] records[i]).root_delivery_id@ == root
}

/// Why the tree of a root has not ended well.
pub open spec fn tree_failure(records: Seq<DeliveryRecord>, root: Seq<char>) -> Option<Seq<char>> {
    if !has_tree(records, root) {
        Some("awaited reaction tree "@ + root + " was not readable"@)
    } else if first_failed(records, root) is Some {
        let d = first_failed(records, root)->0;
        Some(
            "reaction delivery "@ + d.delivery_id@ + " reached terminal status "@ + delivery_word(
                d.status,
            ),
        )
    } else if first_incomplete(records, root) is Some {
        let d = first_incomplete(records, root)->0;
        Some(
            "reaction delivery "@ + d.delivery_id@ + " is incomplete in status "@ + delivery_word(
                d.status,
            ),
        )
    } else {
        None
    }
}

/// Why the trees of the first `n` roots have not ended well.
pub open spec fn roots_failure(
    records: Seq<DeliveryRecord>,
    roots: Seq<Seq<char>>,
    n: int,
) -> Option<Seq<char>>
    decreases n,
{
    if n <= 0 {
        None
    } else {
        match roots_failure(records, roots, n - 1) {
            Some(e) => Some(e),
            None => tree_failure(records, roots[n - 1]),
        }
    }
}

proof fn roots_failure_stays(
    records: Seq<DeliveryRecord>,
    roots: Seq<Seq<char>>,
    n: int,
    m: int,
)
    requires
        0 <= n <= m,
        roots_failure(records, roots, n) is Some,
    ensures
        roots_failure(records, roots, m) == roots_failure(records, roots, n),
    decreases m - n,
{
    if n < m {
        roots_failure_stays(records, roots, n, m - 1);
    }
}

fn tree_failure_of(records: &Vec<DeliveryRecord>, root: &str) -> (r: Option<String>)
    ensures
        opt_text(r) == tree_failure(records@, root@),
{
    let mut found = false;
    let mut failed: Option<usize> = None;
    let mut incomplete: Option<usize> = None;
    let mut n: usize = records.len();
    proof {
        assert(records@.skip(n as int) =~= Seq::<DeliveryRecord>::empty());
    }
    while n > 0
        invariant
            n <= records.len(),
            found == exists|k: int|
                n <= k < records@.len() && (#[trigger] records@[k]).root_delivery_id@ == root@,
            match failed {
                Some(k) => k < records.len() && first_failed(
                    records@.skip(n as int),
                    root@,
                ) == Some(records@[k as int]),
                None => first_failed(records@.skip(n as int), root@) is None,
            },
            match incomplete {
                Some(k) => k < records.len() && first_incomplete(
                    records@.skip(n as int),
                    root@,
                ) == Some(records@[k as int]),
                None => first_incomplete(records@.skip(n as int), root@) is None,
            },
        decreases n,
    {
        let at: usize = n - 1;
        proof {
            assert(records@.skip(at as int)[0] == records@[at as int]);
            assert(records@.skip(at as int).drop_first() =~= records@.skip(n as int));
        }
        if same(records[at].root_delivery_id.as_str(), root) {
            found = true;
            match records[at].status {
                ReactionDeliveryStatus::Rejected => {
                    failed = Some(at);
                },
                ReactionDeliveryStatus::DeadLettered => {
                    failed = Some(at);
                },
                ReactionDeliveryStatus::Pending => {
                    incomplete = Some(at);
                },
                ReactionDeliveryStatus::Claimed => {
                    incomplete = Some(at);
                },
                ReactionDeliveryStatus::Dispatching => {
                    incomplete = Some(at);
                },
                ReactionDeliveryStatus::Completed => {},
            }
        }
        n = at;
    }
    proof {
        assert(records@.skip(0) =~= records@);
    }
    if !found {
        let mut text = "awaited reaction tree ".to_owned();
        text.append(root);
        text.append(" was not readable");
        return Some(text);
    }
    match failed {
        Some(k) => {
            let mut text = "reaction delivery ".to_owned();
            text.append(records[k].delivery_id.as_str());
            text.append(" reached terminal status ");
            text.append(delivery_word_of(records[k].status));
            return Some(text);
        },
        None => {},
    }
    match incomplete {
        Some(k) => {
            let mut text = "reaction delivery ".to_owned();
            text.append(records[k].delivery_id.as_str());
            text.append(" is incomplete in status ");
            text.append(delivery_word_of(records[k].status));
            Some(text)
        },
        None => None,
    }
}

/// Why the reactions with these roots have not all ended well.
pub open spec fn roots_refusal(records: Seq<DeliveryRecord>, roots: Seq<Seq<char>>) -> Option<
    Seq<char>,
> {
    if records.len() > DELIVERY_INSPECTION_BUDGET {
        Some("awaited reaction tree inspection exceeded the 10000-delivery budget"@)
    } else {
        roots_failure(records, roots, roots.len() as int)
    }
}

/// Requires that the reactions a caller waited for have all ended well.
/// `records` are the tenant's deliveries, up to one more than the budget.
pub fn require_terminal_reaction_roots(
    records: &Vec<DeliveryRecord>,
    roots: &OrdSet<String>,
) -> (r: Result<(), DispatchError>)
    requires
        roots.wf(),
    ensures
        match r {
            Ok(_) => roots_refusal(records@, roots.list()) is None,
            Err(e) => roots_refusal(records@, roots.list()) is Some && e@
                == DispatchErrorModel::Internal(roots_refusal(records@, roots.list())->0),
        },
{
    if records.len() > DELIVERY_INSPECTION_BUDGET {
        return Err(
            DispatchError::Internal(
                "awaited reaction tree inspection exceeded the 10000-delivery budget".to_owned(),
            ),
        );
    }
    let ghost list = roots.list();
    let mut i: usize = 0;
    while i < roots.items.len()
        invariant
            i <= roots.items.len(),
            records@.len() <= DELIVERY_INSPECTION_BUDGET,
            list == roots.list(),
            list.len() == roots.items.len(),
            roots_failure(records@, list, i as int) is None,
        decreases roots.items.len() - i,
    {
        proof {
            assert(list[i as int] == roots.items@[i as int]@);
        }
        match tree_failure_of(records, roots.items[i].as_str()) {
            Some(e) => {
                proof {
                    roots_failure_stays(records@, list, i + 1, list.len() as int);
                }
                return Err(DispatchError::Internal(e));
            },
            None => {},
        }
        i = i + 1;
    }
    Ok(())
}

/// What admission control says of a dispatch.
#[derive(Clone, Copy, Debug, PartialEq, Eq, Structural)]
pub enum AdmissionOutcome {
    Passthrough,
    Granted,
    Deferred { retry_after_ms: u64 },
}

/// A dispatch that a policy decided on a state is tried once: a second try
/// could meet another state.
pub fn dispatch_attempts(max_attempts: u32, has_precondition: bool) -> (r: u32)
    ensures
        r == if has_precondition {
            1
        } else {
            max_attempts
        },
{
    if has_precondition {
        1
    } else {
        max_attempts
    }
}

/// The sequence that the actor must be at: the caller's, else the one that the
/// reactions were decided on.
pub fn expected_sequence(caller: Option<u64>, reactions: Option<u64>) -> (r: Option<u64>)
    ensures
        r == if caller is Some {
            caller
        } else {
            reactions
        },
{
    match caller {
        Some(n) => Some(n),
        None => reactions,
    }
}

/// The key under which a dispatch is carried out once: the caller's, else a
/// fresh one.
pub fn dispatch_idempotency_key(
    given: Option<&str>,
    tenant: &str,
    entity_type: &str,
    entity_id: &str,
    action: &str,
    fresh: &str,
) -> (r: String)
    ensures
        r@ == match given {
            Some(key) => key@,
            None => "dispatch:"@ + tenant@ + ":"@ + entity_type@ + ":"@ + entity_id@ + ":"@
                + action@ + ":"@ + fresh@,
        },
{
    match given {
        Some(key) => key.to_owned(),
        None => {
            let mut text = "dispatch:".to_owned();
            text.append(tenant);
            text.append(":");
            text.append(entity_type);
            text.append(":");
            text.append(entity_id);
            text.append(":");
            text.append(action);
            text.append(":");
            text.append(fresh);
            text
        },
    }
}

/// How a dispatch is counted.
#[derive(Clone, Copy, Debug, PartialEq, Eq, Structural)]
pub enum DispatchOutcome {
    Answered,
    TransientRetriedOk,
    TransientExhausted,
    Permanent,
}

/// How a dispatch is counted.
pub open spec fn outcome_of(error: Option<ActorError>, retried: bool) -> DispatchOutcome {
    match error {
        None => if retried {
            DispatchOutcome::TransientRetriedOk
        } else {
            DispatchOutcome::Answered
        },
        Some(e) => if transient(e) {
            DispatchOutcome::TransientExhausted
        } else {
            DispatchOutcome::Permanent
        },
    }
}

/// How a dispatch is counted: `error` is why the actor did not answer.
pub fn dispatch_outcome(error: &Option<ActorError>, retried_after_transient: bool) -> (r:
    DispatchOutcome)
    ensures
        r == outcome_of(*error, retried_after_transient),
{
    match error {
        None => if retried_after_transient {
            DispatchOutcome::TransientRetriedOk
        } else {
            DispatchOutcome::Answered
        },
        Some(e) => if e.is_transient() {
            DispatchOutcome::TransientExhausted
        } else {
            DispatchOutcome::Permanent
        },
    }
}

/// The word that an actor's failure is counted under.
pub open spec fn error_kind(e: ActorError) -> Seq<char> {
    match e {
        ActorError::AskTimeout => "ask_timeout"@,
        ActorError::MailboxFull => "mailbox_full"@,
        ActorError::Stopped => "stopped"@,
        ActorError::SendFailed => "send_failed"@,
        ActorError::Panicked(_) => "panicked"@,
        ActorError::InitFailed(_) => "init_failed"@,
        ActorError::MaxRestartsExceeded => "max_restarts_exceeded"@,
        ActorError::Custom(_) => "custom"@,
    }
}

/// The word that an actor's failure is counted under.
pub fn dispatch_error_kind(e: &ActorError) -> (r: &'static str)
    ensures
        r@ == error_kind(*e),
{
    match e {
        ActorError::AskTimeout => "ask_timeout",
        ActorError::MailboxFull => "mailbox_full",
        ActorError::Stopped => "stopped",
        ActorError::SendFailed => "send_failed",
        ActorError::Panicked(_) => "panicked",
        ActorError::InitFailed(_) => "init_failed",
        ActorError::MaxRestartsExceeded => "max_restarts_exceeded",
        ActorError::Custom(_) => "custom",
    }
}

/// A failed dispatch is counted as retried in vain exactly when asking again
/// might have helped.
pub proof fn only_transient_failures_count_as_exhausted(error: Option<ActorError>, retried: bool)
    ensures
        outcome_of(error, retried) == DispatchOutcome::TransientExhausted <==> error is Some
            && transient(error->0),
        outcome_of(error, retried) == DispatchOutcome::Permanent <==> error is Some && !transient(
            error->0,
        ),
{
}

/// A root whose tree passes the inspection has deliveries, and all of them ended
/// well.
pub proof fn a_terminal_tree_has_no_open_delivery(
    records: Seq<DeliveryRecord>,
    root: Seq<char>,
    i: int,
)
    requires
        tree_failure(records, root) is None,
        0 <= i < records.len(),
        records[i].root_delivery_id@ == root,
    ensures
        records[i].status == ReactionDeliveryStatus::Completed,
{
    no_first_means_none(records, root, i);
}

proof fn no_first_means_none(records: Seq<DeliveryRecord>, root: Seq<char>, i: int)
    requires
        first_failed(records, root) is None,
        first_incomplete(records, root) is None,
        0 <= i < records.len(),
        records[i].root_delivery_id@ == root,
    ensures
        !has_failed(records[i].status),
        !is_incomplete(records[i].status),
    decreases records.len(),
{
    if i > 0 {
        assert(records.drop_first()[i - 1] == records[i]);
        no_first_means_none(records.drop_first(), root, i - 1);
    }
}

/// Fields with parameters over them have each parameter's value under its name,
/// and under every other name what they had.
pub proof fn overlaid_members_are_found(
    fields: Seq<(Seq<char>, JsonModel)>,
    params: Seq<(Seq<char>, JsonModel)>,
    n: int,
    name: Seq<char>,
)
    requires
        0 <= n <= params.len(),
        forall|i: int, j: int|
            0 <= i < j < params.len() ==> (#[trigger] params[i]).0 != (#[trigger] params[j]).0,
    ensures
        find_member(overlaid(fields, params, n), name) == match find_member(params.take(n), name) {
            Some(given) => Some(given),
            None => find_member(fields, name),
        },
        n == params.len() ==> find_member(params.take(n), name) == find_member(params, name),
    decreases n,
{
    assert(params.take(params.len() as int) =~= params);
    if n > 0 {
        overlaid_members_are_found(fields, params, n - 1, name);
        let before = overlaid(fields, params, n - 1);
        let last = params[n - 1];
        put_then_find(before, last.0, last.1, name);
        assert(params.take(n) =~= params.take(n - 1).push(last));
        assert forall|i: int| 0 <= i < n - 1 implies (#[trigger] params.take(n - 1)[i]).0
            != last.0 by {
            assert(params.take(n - 1)[i] == params[i]);
        }
        a_pushed_member_is_found(params.take(n - 1), last, name);
    }
}

proof fn a_pushed_member_is_found(
    s: Seq<(Seq<char>, JsonModel)>,
    last: (Seq<char>, JsonModel),
    name: Seq<char>,
)
    requires
        forall|i: int| 0 <= i < s.len() ==> (#[trigger] s[i]).0 != last.0,
    ensures
        find_member(s.push(last), name) == if name == last.0 {
            Some(last.1)
        } else {
            find_member(s, name)
        },
    decreases s.len(),
{
    let t = s.push(last);
    if s.len() > 0 {
        assert(t[0] == s[0]);
        assert(t.drop_first() =~= s.drop_first().push(last));
        assert forall|i: int| 0 <= i < s.drop_first().len() implies (
        #[trigger] s.drop_first()[i]).0 != last.0 by {
            assert(s.drop_first()[i] == s[i + 1]);
        }
        a_pushed_member_is_found(s.drop_first(), last, name);
    } else {
        assert(t[0] == last);
        assert(t.drop_first() =~= s);
    }
}

/// Where the inspection of the awaited reactions succeeds, every root that was
/// awaited has deliveries, and every delivery of every one of them is completed.
pub proof fn awaited_reactions_have_all_ended_well(
    records: &Vec<DeliveryRecord>,
    roots: &OrdSet<String>,
    r: Result<(), DispatchError>,
    root: Seq<char>,
    i: int,
)
    requires
        roots.wf(),
        call_ensures(require_terminal_reaction_roots, (records, roots), r),
        r is Ok,
        roots@.contains(root),
    ensures
        exists|k: int|
            0 <= k < records@.len() && (#[trigger] records@[k]).root_delivery_id@ == root,
        0 <= i < records@.len() && records@[i].root_delivery_id@ == root ==> records@[i].status
            == ReactionDeliveryStatus::Completed,
{
    let list = roots.list();
    let at = list.index_of(root);
    assert(list.contains(root));
    no_failed_root(records@, list, list.len() as int, at);
    if 0 <= i < records@.len() && records@[i].root_delivery_id@ == root {
        a_terminal_tree_has_no_open_delivery(records@, root, i);
    }
}

proof fn no_failed_root(records: Seq<DeliveryRecord>, roots: Seq<Seq<char>>, n: int, at: int)
    requires
        0 <= at < n <= roots.len(),
        roots_failure(records, roots, n) is None,
    ensures
        tree_failure(records, roots[at]) is None,
    decreases n,
{
    if at < n - 1 {
        no_failed_root(records, roots, n - 1, at);
    }
}

/// The inspection refuses nothing without a reason: within its budget it
/// succeeds where every awaited root has deliveries and all of them are
/// completed.
pub proof fn reactions_that_ended_well_pass(
    records: &Vec<DeliveryRecord>,
    roots: &OrdSet<String>,
    r: Result<(), DispatchError>,
)
    requires
        roots.wf(),
        call_ensures(require_terminal_reaction_roots, (records, roots), r),
        records@.len() <= DELIVERY_INSPECTION_BUDGET,
        forall|root: Seq<char>| #[trigger]
            roots@.contains(root) ==> exists|k: int|
                0 <= k < records@.len() && (#[trigger] records@[k]).root_delivery_id@ == root,
        forall|i: int|
            0 <= i < records@.len() && roots@.contains((#[trigger] records@[i]).root_delivery_id@)
                ==> records@[i].status == ReactionDeliveryStatus::Completed,
    ensures
        r is Ok,
{
    let list = roots.list();
    assert forall|k: int| 0 <= k < list.len() implies tree_failure(
        records@,
        #[trigger] list[k],
    ) is None by {
        assert(list.contains(list[k]));
        assert(roots@.contains(list[k]));
        a_completed_tree_passes(records@, list[k]);
    }
    completed_trees_pass(records@, list, list.len() as int);
}

proof fn completed_trees_pass(records: Seq<DeliveryRecord>, roots: Seq<Seq<char>>, n: int)
    requires
        0 <= n <= roots.len(),
        forall|k: int| 0 <= k < roots.len() ==> tree_failure(records, #[trigger] roots[k]) is None,
    ensures
        roots_failure(records, roots, n) is None,
    decreases n,
{
    if n > 0 {
        completed_trees_pass(records, roots, n - 1);
        assert(tree_failure(records, roots[n - 1]) is None);
    }
}

proof fn a_completed_tree_passes(records: Seq<DeliveryRecord>, root: Seq<char>)
    requires
        forall|i: int|
            0 <= i < records.len() && (#[trigger] records[i]).root_delivery_id@ == root
                ==> records[i].status == ReactionDeliveryStatus::Completed,
    ensures
        first_failed(records, root) is None,
        first_incomplete(records, root) is None,
    decreases records.len(),
{
    if records.len() > 0 {
        let rest = records.drop_first();
        assert forall|i: int|
            0 <= i < rest.len() && (#[trigger] rest[i]).root_delivery_id@
                == root implies rest[i].status == ReactionDeliveryStatus::Completed by {
            assert(rest[i] == records[i + 1]);
        }
        a_completed_tree_passes(rest, root);
    }
}

/// A delivery of an awaited root that failed or is still under way, behind roots
/// that all ended well, is what the caller is told of: by its identifier and its
/// status, and a failure before anything that is under way.
pub proof fn the_caller_is_told_what_failed(
    records: &Vec<DeliveryRecord>,
    roots: &OrdSet<String>,
    r: Result<(), DispatchError>,
    i: int,
)
    requires
        roots.wf(),
        call_ensures(require_terminal_reaction_roots, (records, roots), r),
        0 <= i < records@.len() <= DELIVERY_INSPECTION_BUDGET,
        roots@.contains(records@[i].root_delivery_id@),
        records@[i].status != ReactionDeliveryStatus::Completed,
        forall|k: int|
            0 <= k < records@.len() && k != i && roots@.contains(
                (#[trigger] records@[k]).root_delivery_id@,
            ) ==> records@[k].status == ReactionDeliveryStatus::Completed,
        forall|root: Seq<char>| #[trigger]
            roots@.contains(root) ==> exists|k: int|
                0 <= k < records@.len() && (#[trigger] records@[k]).root_delivery_id@ == root,
    ensures
        r is Err,
        r->Err_0@ == DispatchErrorModel::Internal(
            "reaction delivery "@ + records@[i].delivery_id@ + if records@[i].status
                == ReactionDeliveryStatus::Rejected || records@[i].status
                == ReactionDeliveryStatus::DeadLettered {
                " reached terminal status "@
            } else {
                " is incomplete in status "@
            } + delivery_word(records@[i].status),
        ),
{
    let list = roots.list();
    let root = records@[i].root_delivery_id@;
    let at = list.index_of(root);
    assert(list.contains(root));
    assert forall|k: int| 0 <= k < list.len() && list[k] != root implies tree_failure(
        records@,
        #[trigger] list[k],
    ) is None by {
        assert(list.contains(list[k]));
        assert(roots@.contains(list[k]));
        a_completed_tree_passes(records@, list[k]);
    }
    the_only_open_delivery_is_found(records@, root, i);
    the_only_failed_root_decides(records@, list, list.len() as int, root, at);
}

proof fn the_only_failed_root_decides(
    records: Seq<DeliveryRecord>,
    roots: Seq<Seq<char>>,
    n: int,
    root: Seq<char>,
    at: int,
)
    requires
        0 <= n <= roots.len(),
        0 <= at < roots.len(),
        roots[at] == root,
        tree_failure(records, root) is Some,
        forall|k: int|
            0 <= k < roots.len() && roots[k] != root ==> tree_failure(
                records,
                #[trigger] roots[k],
            ) is None,
    ensures
        at < n ==> roots_failure(records, roots, n) == tree_failure(records, root),
        roots_failure(records, roots, n) is Some ==> roots_failure(records, roots, n)
            == tree_failure(records, root),
    decreases n,
{
    if n > 0 {
        the_only_failed_root_decides(records, roots, n - 1, root, at);
        if roots[n - 1] != root {
            assert(tree_failure(records, roots[n - 1]) is None);
        }
    }
}

proof fn the_only_open_delivery_is_found(records: Seq<DeliveryRecord>, root: Seq<char>, i: int)
    requires
        0 <= i < records.len(),
        records[i].root_delivery_id@ == root,
        records[i].status != ReactionDeliveryStatus::Completed,
        forall|k: int|
            0 <= k < records.len() && k != i && (#[trigger] records[k]).root_delivery_id@ == root
                ==> records[k].status == ReactionDeliveryStatus::Completed,
    ensures
        has_failed(records[i].status) ==> first_failed(records, root) == Some(records[i]),
        !has_failed(records[i].status) ==> first_failed(records, root) is None
            && first_incomplete(records, root) == Some(records[i]),
    decreases records.len(),
{
    let rest = records.drop_first();
    assert forall|k: int| 0 <= k < rest.len() implies #[trigger] rest[k] == records[k + 1] by {}
    if i == 0 {
        a_completed_tree_passes(rest, root);
    } else {
        assert forall|k: int|
            0 <= k < rest.len() && k != i - 1 && (#[trigger] rest[k]).root_delivery_id@
                == root implies rest[k].status == ReactionDeliveryStatus::Completed by {
            assert(rest[k] == records[k + 1]);
        }
        the_only_open_delivery_is_found(rest, root, i - 1);
        assert(records[0].root_delivery_id@ == root ==> records[0].status
            == ReactionDeliveryStatus::Completed);
    }
}

/// The caller waits for reactions only where it asked to, and then for the root
/// of every reaction that was committed and for nothing else. Reactions that
/// nobody waits for run behind the caller; where nothing was committed they are
/// decided at once.
pub proof fn every_committed_reaction_is_followed(
    intents: &Vec<ReactionIntent>,
    await_reactions: bool,
    r: FollowUp,
    i: int,
)
    requires
        call_ensures(follow_up, (intents, await_reactions), r),
    ensures
        r.reactions is Immediate <==> intents@.len() == 0,
        0 <= i < intents@.len() && intents@[i].is_reaction ==> if await_reactions {
            r.reactions is Await && r.reactions->Await_0@.contains(
                intents@[i].root_delivery_id@,
            )
        } else {
            r.reactions is Background && r.notify_recovery
        },
        r.reactions is Await ==> await_reactions && forall|root: Seq<char>| #[trigger]
            r.reactions->Await_0@.contains(root) ==> exists|k: int|
                0 <= k < intents@.len() && (#[trigger] intents@[k]).is_reaction
                    && intents@[k].root_delivery_id@ == root,
        0 <= i < intents@.len() && !intents@[i].is_reaction ==> r.notify_recovery,
        (forall|k: int| 0 <= k < intents@.len() ==> !(#[trigger] intents@[k]).is_reaction)
            && intents@.len() > 0 ==> r.reactions is Nothing && r.notify_recovery,
{
    if 0 <= i < intents@.len() {
        assert(has_kind(intents@, intents@[i].is_reaction));
    }
    if intents@.len() > 0 && (forall|k: int|
        0 <= k < intents@.len() ==> !(#[trigger] intents@[k]).is_reaction) {
        assert(!intents@[0].is_reaction);
    }
}

/// What a dispatch commits: reactions where something can dispatch them and a
/// rule may match, timeouts where a journal keeps them. Reactions without a
/// journal are refused.
pub proof fn reactions_need_a_dispatcher_and_a_journal(
    has_dispatcher: bool,
    has_rules: bool,
    has_journal: bool,
    declares_timeouts: bool,
    plan: CommitPlan,
    source: bool,
    journal: Result<(), DispatchError>,
)
    requires
        call_ensures(
            plan_commit,
            (has_dispatcher, has_rules, has_journal, declares_timeouts),
            plan,
        ),
        call_ensures(CommitPlan::reads_source, (&plan,), source),
        call_ensures(require_journal, (&plan,), journal),
    ensures
        plan.reactions <==> has_dispatcher && has_rules,
        plan.timeouts <==> has_journal && declares_timeouts,
        plan.has_journal == has_journal,
        plan.has_dispatcher == has_dispatcher,
        source <==> has_dispatcher && (has_rules || (has_journal && declares_timeouts)),
        journal is Err <==> has_dispatcher && has_rules && !has_journal,
{
}

/// The committed event of an action is the one at the action's own sequence.
pub proof fn the_committed_event_is_at_its_sequence(
    has_journal: bool,
    persistence_id: &str,
    source_sequence: u64,
    sequences: &Vec<u64>,
    r: Result<usize, DispatchError>,
)
    requires
        call_ensures(
            committed_event_place,
            (has_journal, persistence_id, source_sequence, sequences),
            r,
        ),
    ensures
        r is Ok <==> has_journal && source_sequence > 0 && sequences@.contains(source_sequence),
        r is Ok ==> r->Ok_0 < sequences@.len() && sequences@[r->Ok_0 as int] == source_sequence,
{
    if r is Ok {
        assert(sequences@[r->Ok_0 as int] == source_sequence);
    }
}

/// An action is asked for once where a policy decided on the entity's state, at
/// the sequence and under the key that the caller gave; what the caller did not
/// give is made up from the reactions and from a fresh word.
pub proof fn what_the_caller_gave_is_asked_by(
    max_attempts: u32,
    has_precondition: bool,
    attempts: u32,
    caller: Option<u64>,
    reactions: Option<u64>,
    sequence: Option<u64>,
    given: Option<&str>,
    tenant: &str,
    entity_type: &str,
    entity_id: &str,
    action: &str,
    fresh: &str,
    key: String,
)
    requires
        call_ensures(dispatch_attempts, (max_attempts, has_precondition), attempts),
        call_ensures(expected_sequence, (caller, reactions), sequence),
        call_ensures(
            dispatch_idempotency_key,
            (given, tenant, entity_type, entity_id, action, fresh),
            key,
        ),
    ensures
        has_precondition ==> attempts == 1,
        !has_precondition ==> attempts == max_attempts,
        caller is Some ==> sequence == caller,
        caller is None ==> sequence == reactions,
        given is Some ==> key@ == given->0@,
        given is None ==> key@ == "dispatch:"@ + tenant@ + ":"@ + entity_type@ + ":"@ + entity_id@
            + ":"@ + action@ + ":"@ + fresh@,
{
}

/// Guards see the parameters of an action over the fields of its entity: each
/// parameter under its name, and every other field as it is.
pub proof fn guards_see_parameters_over_fields(
    fields: Json,
    params: &Json,
    r: Json,
    name: Seq<char>,
)
    requires
        call_ensures(guard_fields, (fields, params), r),
        fields@ is Object,
        params@ is Object,
        forall|i: int, j: int|
            0 <= i < j < params@->Object_0.len() ==> (#[trigger] params@->Object_0[i]).0 != (
            #[trigger] params@->Object_0[j]).0,
    ensures
        r@ is Object,
        crate::json::member(r@, name) == match crate::json::member(params@, name) {
            Some(given) => Some(given),
            None => crate::json::member(fields@, name),
        },
{
    let p = params@->Object_0;
    overlaid_members_are_found(fields@->Object_0, p, p.len() as int, name);
}

/// A dispatch is counted by how it ended: answered, answered after a failure,
/// given up on failures that may pass, or failed for good.
pub proof fn a_dispatch_is_counted_by_how_it_ended(
    error: &Option<ActorError>,
    retried: bool,
    r: DispatchOutcome,
)
    requires
        call_ensures(dispatch_outcome, (error, retried), r),
    ensures
        r is Answered <==> *error is None && !retried,
        r is TransientRetriedOk <==> *error is None && retried,
        r is TransientExhausted <==> *error is Some && (error->0 is AskTimeout || error->0
            is MailboxFull),
        r is Permanent <==> *error is Some && !(error->0 is AskTimeout || error->0
            is MailboxFull),
{
}

/// Where roots pass the inspection, each of them has deliveries, and all of these
/// are completed.
pub proof fn roots_that_pass_have_ended(
    records: Seq<DeliveryRecord>,
    roots: Seq<Seq<char>>,
    root: Seq<char>,
    i: int,
)
    requires
        roots_refusal(records, roots) is None,
        roots.contains(root),
    ensures
        exists|k: int| 0 <= k < records.len() && (#[trigger] records[k]).root_delivery_id@ == root,
        0 <= i < records.len() && records[i].root_delivery_id@ == root ==> records[i].status
            == ReactionDeliveryStatus::Completed,
{
    let at = roots.index_of(root);
    no_failed_root(records, roots, roots.len() as int, at);
    if 0 <= i < records.len() && records[i].root_delivery_id@ == root {
        a_terminal_tree_has_no_open_delivery(records, root, i);
    }
}

/// A text is cut behind as many whole characters as fit.
pub proof fn a_text_is_cut_between_characters(bytes: Seq<u8>, n: int)
    requires
        0 <= n,
    ensures
        0 <= boundary_below(bytes, n) <= n,
        boundary_below(bytes, n) > 0 ==> is_char_boundary(bytes, boundary_below(bytes, n)),
        forall|k: int| boundary_below(bytes, n) < k <= n ==> !#[trigger] is_char_boundary(bytes, k),
    decreases n,
{
    if n > 0 && !is_char_boundary(bytes, n) {
        a_text_is_cut_between_characters(bytes, n - 1);
    }
}

/// Reactions are looked for where the action has some or a timeout is armed.
pub proof fn reactions_and_timeouts_are_looked_for(f: &CommitPlan, r: bool)
    requires
        call_ensures(CommitPlan::expects_intents, (f,), r),
    ensures
        r <==> f.reactions || f.timeouts,
{
}

/// More deliveries than may be looked at are refused, whatever they are.
pub proof fn too_many_deliveries_are_not_looked_at(
    records: &Vec<DeliveryRecord>,
    roots: &OrdSet<String>,
    r: Result<(), DispatchError>,
)
    requires
        roots.wf(),
        call_ensures(require_terminal_reaction_roots, (records, roots), r),
        records@.len() > DELIVERY_INSPECTION_BUDGET,
    ensures
        r is Err,
{
}

} // verus!
