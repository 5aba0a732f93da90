//! Resolution of the descriptor of a stream from its journal, and the checks on
//! the bytes that it names.

use vstd::prelude::*;
use vstd::string::*;

use crate::digest::content_digest;
use crate::digest::content_digest_of;
use crate::ordered::OrdSet;
use crate::provenance::local_name;
use crate::provenance::local_type;
use crate::stream::CapabilityModel;
use crate::stream::DescriptorModel;
use crate::stream::Envelope;
use crate::stream::EnvelopeModel;
use crate::stream::StreamCapability;
use crate::stream::StreamDescriptor;
use crate::stream::StreamMutability;
use crate::stream_migration::last_descriptor;
use crate::text::opt_text;
use crate::text::same;
use crate::text::views;

verus! {

/// The most events that the resolution of a descriptor replays.
pub const DESCRIPTOR_REPLAY_EVENT_BUDGET: usize = 1_024;

/// Why a stream could not be resolved or read.
#[derive(Clone, Debug, PartialEq, Eq)]
pub enum StreamDescriptorResolutionError {
    JournalUnavailable,
    Missing,
    ReplayBudgetExceeded,
    Consistency(String),
    BudgetExceeded,
    Storage(String),
    Integrity(String),
}

/// What a [`StreamDescriptorResolutionError`] holds.
pub enum ResolutionErrorModel {
    JournalUnavailable,
    Missing,
    ReplayBudgetExceeded,
    Consistency(Seq<char>),
    BudgetExceeded,
    Storage(Seq<char>),
    Integrity(Seq<char>),
}

impl View for StreamDescriptorResolutionError {
    type V = ResolutionErrorModel;

    open spec fn view(&self) -> ResolutionErrorModel {
        match self {
            Self::JournalUnavailable => ResolutionErrorModel::JournalUnavailable,
            Self::Missing => ResolutionErrorModel::Missing,
            Self::ReplayBudgetExceeded => ResolutionErrorModel::ReplayBudgetExceeded,
            Self::Consistency(s) => ResolutionErrorModel::Consistency(s@),
            Self::BudgetExceeded => ResolutionErrorModel::BudgetExceeded,
            Self::Storage(s) => ResolutionErrorModel::Storage(s@),
            Self::Integrity(s) => ResolutionErrorModel::Integrity(s@),
        }
    }
}

/// The code that callers see for an error.
pub open spec fn error_code(e: ResolutionErrorModel) -> Seq<char> {
    match e {
        ResolutionErrorModel::BudgetExceeded => "FileSizeBudgetExceeded"@,
        ResolutionErrorModel::Missing => "StreamDescriptorMissing"@,
        ResolutionErrorModel::Integrity(_) => "StreamIntegrityMismatch"@,
        ResolutionErrorModel::ReplayBudgetExceeded => "StreamDescriptorInconsistent"@,
        ResolutionErrorModel::Consistency(_) => "StreamDescriptorInconsistent"@,
        ResolutionErrorModel::JournalUnavailable => "StreamDescriptorUnavailable"@,
        ResolutionErrorModel::Storage(_) => "StreamDescriptorUnavailable"@,
    }
}

/// The text of an error.
pub open spec fn error_message(e: ResolutionErrorModel) -> Seq<char> {
    match e {
        ResolutionErrorModel::JournalUnavailable => "event journal is unavailable"@,
        ResolutionErrorModel::Missing => "stream descriptor is missing"@,
        ResolutionErrorModel::ReplayBudgetExceeded => "stream descriptor replay exceeded its event budget"@,
        ResolutionErrorModel::Consistency(s) => "stream descriptor is inconsistent: "@ + s,
        ResolutionErrorModel::BudgetExceeded => "stream content exceeds the invocation budget"@,
        ResolutionErrorModel::Storage(s) => "stream storage failed: "@ + s,
        ResolutionErrorModel::Integrity(s) => "stream content integrity verification failed: "@ + s,
    }
}

impl StreamDescriptorResolutionError {
    /// The code that callers see.
    pub fn stable_code(&self) -> (r: &'static str)
        ensures
            r@ == error_code(self@),
    {
        match self {
            Self::BudgetExceeded => "FileSizeBudgetExceeded",
            Self::Missing => "StreamDescriptorMissing",
            Self::Integrity(_) => "StreamIntegrityMismatch",
            Self::ReplayBudgetExceeded => "StreamDescriptorInconsistent",
            Self::Consistency(_) => "StreamDescriptorInconsistent",
            Self::JournalUnavailable => "StreamDescriptorUnavailable",
            Self::Storage(_) => "StreamDescriptorUnavailable",
        }
    }

    /// The text of the error.
    pub fn message(&self) -> (r: String)
        ensures
            r@ == error_message(self@),
    {
        match self {
            Self::JournalUnavailable => "event journal is unavailable".to_owned(),
            Self::Missing => "stream descriptor is missing".to_owned(),
            Self::ReplayBudgetExceeded => "stream descriptor replay exceeded its event budget".to_owned(),
            Self::BudgetExceeded => "stream content exceeds the invocation budget".to_owned(),
            Self::Consistency(s) => {
                let mut text = "stream descriptor is inconsistent: ".to_owned();
                text.append(s.as_str());
                text
            },
            Self::Storage(s) => {
                let mut text = "stream storage failed: ".to_owned();
                text.append(s.as_str());
                text
            },
            Self::Integrity(s) => {
                let mut text = "stream content integrity verification failed: ".to_owned();
                text.append(s.as_str());
                text
            },
        }
    }
}

/// What a resolution gives.
pub open spec fn resolution<T: View>(r: Result<T, StreamDescriptorResolutionError>) -> Result<
    T::V,
    ResolutionErrorModel,
> {
    match r {
        Ok(v) => Ok(v@),
        Err(e) => Err(e@),
    }
}

/// Whether an event carries a descriptor of the entity, written as that event
/// and for no later content.
pub open spec fn belongs(
    entity_type: Seq<char>,
    entity_id: Seq<char>,
    event: EnvelopeModel,
    d: DescriptorModel,
) -> bool {
    &&& d.subject == (entity_type, entity_id)
    &&& d.descriptor_event_sequence == event.sequence_nr
    &&& d.content_event_sequence <= event.sequence_nr
}

/// The descriptor that the events leave in force.
pub open spec fn replayed(
    entity_type: Seq<char>,
    entity_id: Seq<char>,
    events: Seq<EnvelopeModel>,
) -> Result<Option<DescriptorModel>, ResolutionErrorModel>
    decreases events.len(),
{
    if events.len() == 0 {
        Ok(None)
    } else {
        match replayed(entity_type, entity_id, events.drop_last()) {
            Err(e) => Err(e),
            Ok(prior) => match events.last().descriptor {
                None => Ok(prior),
                Some(d) => if !belongs(entity_type, entity_id, events.last(), d) {
                    Err(
                        ResolutionErrorModel::Consistency(
                            "journal identity or event sequence does not match descriptor"@,
                        ),
                    )
                } else if prior is Some && prior->0.mutability == StreamMutability::Immutable {
                    Err(
                        ResolutionErrorModel::Consistency(
                            "immutable stream descriptor was replaced"@,
                        ),
                    )
                } else {
                    Ok(Some(d))
                },
            },
        }
    }
}

/// The descriptor of an entity, from the events of its journal. `exhausted`
/// tells that the journal holds more events than were read.
pub open spec fn resolved(
    entity_type: Seq<char>,
    entity_id: Seq<char>,
    events: Seq<EnvelopeModel>,
    exhausted: bool,
) -> Result<DescriptorModel, ResolutionErrorModel> {
    match replayed(entity_type, entity_id, events) {
        Err(e) => Err(e),
        Ok(Some(d)) => Ok(d),
        Ok(None) => if exhausted {
            Err(ResolutionErrorModel::ReplayBudgetExceeded)
        } else {
            Err(ResolutionErrorModel::Missing)
        },
    }
}

proof fn replay_error_stays(
    entity_type: Seq<char>,
    entity_id: Seq<char>,
    events: Seq<EnvelopeModel>,
    n: int,
)
    requires
        0 <= n <= events.len(),
        replayed(entity_type, entity_id, events.take(n)) is Err,
    ensures
        replayed(entity_type, entity_id, events) == replayed(
            entity_type,
            entity_id,
            events.take(n),
        ),
    decreases events.len() - n,
{
    if n == events.len() {
        assert(events.take(n) =~= events);
    } else {
        assert(events.take(n + 1).drop_last() =~= events.take(n));
        replay_error_stays(entity_type, entity_id, events, n + 1);
    }
}

/// Resolves the descriptor of an entity from the events of its journal.
pub fn resolve_descriptor_events(
    entity_type: &str,
    entity_id: &str,
    events: &Vec<Envelope>,
    exhausted: bool,
) -> (r: Result<StreamDescriptor, StreamDescriptorResolutionError>)
    ensures
        resolution(r) == resolved(entity_type@, entity_id@, views(events@), exhausted),
{
    let ghost all = views(events@);
    let mut current: Option<usize> = None;
    let mut i: usize = 0;
    proof {
        assert(all.take(0) =~= Seq::<EnvelopeModel>::empty());
    }
    while i < events.len()
        invariant
            i <= events.len(),
            all == views(events@),
            match current {
                Some(k) => k < events.len() && events@[k as int].descriptor is Some && replayed(
                    entity_type@,
                    entity_id@,
                    all.take(i as int),
                ) == Ok::<Option<DescriptorModel>, ResolutionErrorModel>(
                    Some(events@[k as int].descriptor->0@),
                ),
                None => replayed(entity_type@, entity_id@, all.take(i as int)) == Ok::<
                    Option<DescriptorModel>,
                    ResolutionErrorModel,
                >(None),
            },
        decreases events.len() - i,
    {
        let event = &events[i];
        proof {
            assert(all.take(i + 1).drop_last() =~= all.take(i as int));
            assert(all.take(i + 1).last() == event@);
        }
        match &event.descriptor {
            None => {},
            Some(d) => {
                if !same(d.subject.entity_type.as_str(), entity_type) || !same(
                    d.subject.entity_id.as_str(),
                    entity_id,
                ) || d.descriptor_event_sequence != event.sequence_nr || d.content_event_sequence
                    > event.sequence_nr {
                    proof {
                        replay_error_stays(entity_type@, entity_id@, all, i + 1);
                    }
                    return Err(
                        StreamDescriptorResolutionError::Consistency(
                            "journal identity or event sequence does not match descriptor".to_owned(),
                        ),
                    );
                }
                let replaced = match current {
                    Some(k) => match &events[k].descriptor {
                        Some(prior) => prior.mutability == StreamMutability::Immutable,
                        None => false,
                    },
                    None => false,
                };
                if replaced {
                    proof {
                        replay_error_stays(entity_type@, entity_id@, all, i + 1);
                    }
                    return Err(
                        StreamDescriptorResolutionError::Consistency(
                            "immutable stream descriptor was replaced".to_owned(),
                        ),
                    );
                }
                current = Some(i);
            },
        }
        i = i + 1;
    }
    proof {
        assert(all.take(all.len() as int) =~= all);
    }
    match current {
        Some(k) => match &events[k].descriptor {
            Some(d) => Ok(d.copy()),
            None => Err(StreamDescriptorResolutionError::Missing),
        },
        None => if exhausted {
            Err(StreamDescriptorResolutionError::ReplayBudgetExceeded)
        } else {
            Err(StreamDescriptorResolutionError::Missing)
        },
    }
}

/// A resolved descriptor is the last one in the journal, and it is of the
/// entity that was asked for.
pub proof fn the_latest_descriptor_is_resolved(
    entity_type: Seq<char>,
    entity_id: Seq<char>,
    events: Seq<EnvelopeModel>,
    exhausted: bool,
)
    requires
        resolved(entity_type, entity_id, events, exhausted) is Ok,
    ensures
        last_descriptor(events) == Some(resolved(entity_type, entity_id, events, exhausted)->Ok_0),
        resolved(entity_type, entity_id, events, exhausted)->Ok_0.subject == (
            entity_type,
            entity_id,
        ),
{
    latest_is_replayed(entity_type, entity_id, events);
}

proof fn latest_is_replayed(
    entity_type: Seq<char>,
    entity_id: Seq<char>,
    events: Seq<EnvelopeModel>,
)
    requires
        replayed(entity_type, entity_id, events) is Ok,
    ensures
        replayed(entity_type, entity_id, events)->Ok_0 == last_descriptor(events),
        last_descriptor(events) is Some ==> last_descriptor(events)->0.subject == (
            entity_type,
            entity_id,
        ),
    decreases events.len(),
{
    if events.len() > 0 {
        latest_is_replayed(entity_type, entity_id, events.drop_last());
    }
}

/// An immutable descriptor is never replaced: whatever follows it in the
/// journal, the resolution gives that descriptor or an error.
pub proof fn an_immutable_descriptor_stands(
    entity_type: Seq<char>,
    entity_id: Seq<char>,
    events: Seq<EnvelopeModel>,
    n: int,
)
    requires
        0 <= n <= events.len(),
        replayed(entity_type, entity_id, events.take(n)) is Ok,
        replayed(entity_type, entity_id, events.take(n))->Ok_0 is Some,
        replayed(entity_type, entity_id, events.take(n))->Ok_0->0.mutability
            == StreamMutability::Immutable,
    ensures
        replayed(entity_type, entity_id, events) is Err || replayed(entity_type, entity_id, events)
            == replayed(entity_type, entity_id, events.take(n)),
    decreases events.len() - n,
{
    if n == events.len() {
        assert(events.take(n) =~= events);
    } else {
        assert(events.take(n + 1).drop_last() =~= events.take(n));
        if replayed(entity_type, entity_id, events.take(n + 1)) is Err {
            replay_error_stays(entity_type, entity_id, events, n + 1);
        } else {
            an_immutable_descriptor_stands(entity_type, entity_id, events, n + 1);
        }
    }
}

/// The descriptor of an entity from a bounded read of the tail of its journal.
/// `beyond_tail` tells how many events a read past that tail gave.
pub open spec fn resolved_tail(
    entity_type: Seq<char>,
    entity_id: Seq<char>,
    events: Seq<EnvelopeModel>,
    beyond_tail: usize,
) -> Result<DescriptorModel, ResolutionErrorModel> {
    if beyond_tail > 0 {
        Err(ResolutionErrorModel::Consistency("journal read did not reach a stable tail"@))
    } else {
        resolved(entity_type, entity_id, events, events.len() > DESCRIPTOR_REPLAY_EVENT_BUDGET)
    }
}

/// Resolves the descriptor of an entity from a bounded read of the tail of its
/// journal, which must be the tail.
pub fn resolve_stream_descriptor(
    entity_type: &str,
    entity_id: &str,
    events: &Vec<Envelope>,
    beyond_tail: usize,
) -> (r: Result<StreamDescriptor, StreamDescriptorResolutionError>)
    ensures
        resolution(r) == resolved_tail(entity_type@, entity_id@, views(events@), beyond_tail),
{
    if beyond_tail > 0 {
        return Err(
            StreamDescriptorResolutionError::Consistency(
                "journal read did not reach a stable tail".to_owned(),
            ),
        );
    }
    proof {
        assert(views(events@).len() == events@.len());
    }
    resolve_descriptor_events(
        entity_type,
        entity_id,
        events,
        events.len() > DESCRIPTOR_REPLAY_EVENT_BUDGET,
    )
}

/// How many bytes are fetched for a descriptor within a budget.
pub open spec fn read_length(d: DescriptorModel, budget_bytes: u64) -> Result<
    int,
    ResolutionErrorModel,
> {
    if d.byte_length > budget_bytes {
        Err(ResolutionErrorModel::BudgetExceeded)
    } else if d.byte_length > usize::MAX {
        Err(
            ResolutionErrorModel::Consistency("descriptor byte length exceeds platform size"@),
        )
    } else {
        Ok(d.byte_length as int)
    }
}

/// Decides, before the store is asked, how many bytes are fetched.
pub fn admit_stream_read(descriptor: &StreamDescriptor, budget_bytes: u64) -> (r: Result<
    usize,
    StreamDescriptorResolutionError,
>)
    ensures
        match r {
            Ok(n) => read_length(descriptor@, budget_bytes) == Ok::<int, ResolutionErrorModel>(
                n as int,
            ),
            Err(e) => read_length(descriptor@, budget_bytes) == Err::<int, ResolutionErrorModel>(
                e@,
            ),
        },
{
    if descriptor.byte_length > budget_bytes {
        return Err(StreamDescriptorResolutionError::BudgetExceeded);
    }
    if descriptor.byte_length > usize::MAX as u64 {
        return Err(
            StreamDescriptorResolutionError::Consistency(
                "descriptor byte length exceeds platform size".to_owned(),
            ),
        );
    }
    Ok(descriptor.byte_length as usize)
}

/// What a bounded read of the store gave.
#[derive(Clone, Debug, PartialEq, Eq)]
pub enum BlobReadBounded {
    Found(Vec<u8>),
    Missing,
    TooLarge,
}

/// The bytes of a stream, from what the store gave for its descriptor.
pub open spec fn verified_bytes(
    d: DescriptorModel,
    read: Result<BlobReadBounded, String>,
) -> Result<Seq<u8>, ResolutionErrorModel> {
    match read {
        Err(e) => Err(ResolutionErrorModel::Storage(e@)),
        Ok(BlobReadBounded::Missing) => Err(
            ResolutionErrorModel::Integrity("persisted storage reference is missing"@),
        ),
        Ok(BlobReadBounded::TooLarge) => Err(
            ResolutionErrorModel::Integrity("stored content is longer than its descriptor"@),
        ),
        Ok(BlobReadBounded::Found(bytes)) => if bytes@.len() != d.byte_length {
            Err(
                ResolutionErrorModel::Integrity(
                    "stored content length differs from its descriptor"@,
                ),
            )
        } else if content_digest(bytes@) != d.content_hash {
            Err(
                ResolutionErrorModel::Integrity(
                    "stored content digest differs from its descriptor"@,
                ),
            )
        } else {
            Ok(bytes@)
        },
    }
}

/// Holds the stored bytes against the descriptor that named them.
pub fn verify_stream_read(
    descriptor: &StreamDescriptor,
    read: Result<BlobReadBounded, String>,
) -> (r: Result<Vec<u8>, StreamDescriptorResolutionError>)
    ensures
        resolution(r) == verified_bytes(descriptor@, read),
{
    let bytes = match read {
        Err(e) => return Err(StreamDescriptorResolutionError::Storage(e)),
        Ok(BlobReadBounded::Missing) => return Err(
            StreamDescriptorResolutionError::Integrity(
                "persisted storage reference is missing".to_owned(),
            ),
        ),
        Ok(BlobReadBounded::TooLarge) => return Err(
            StreamDescriptorResolutionError::Integrity(
                "stored content is longer than its descriptor".to_owned(),
            ),
        ),
        Ok(BlobReadBounded::Found(bytes)) => bytes,
    };
    if bytes.len() as u64 != descriptor.byte_length {
        return Err(
            StreamDescriptorResolutionError::Integrity(
                "stored content length differs from its descriptor".to_owned(),
            ),
        );
    }
    if content_digest_of(bytes.as_slice()) != descriptor.content_hash {
        return Err(
            StreamDescriptorResolutionError::Integrity(
                "stored content digest differs from its descriptor".to_owned(),
            ),
        );
    }
    Ok(bytes)
}

/// The bytes of a stream within a budget: the budget is applied before the
/// store is read, and the store's answer is held against the descriptor.
pub open spec fn read_within_budget(
    d: DescriptorModel,
    budget_bytes: u64,
    read: Result<BlobReadBounded, String>,
) -> Result<Seq<u8>, ResolutionErrorModel> {
    match read_length(d, budget_bytes) {
        Err(e) => Err(e),
        Ok(_) => verified_bytes(d, read),
    }
}

/// Reads the bytes of a stream within a budget, from the store's answer.
pub fn read_stream_descriptor_bytes(
    descriptor: &StreamDescriptor,
    budget_bytes: u64,
    read: Result<BlobReadBounded, String>,
) -> (r: Result<Vec<u8>, StreamDescriptorResolutionError>)
    ensures
        resolution(r) == read_within_budget(descriptor@, budget_bytes, read),
{
    match admit_stream_read(descriptor, budget_bytes) {
        Ok(_) => verify_stream_read(descriptor, read),
        Err(e) => Err(e),
    }
}

/// Bytes that a read hands out are within the budget and have the length and
/// the digest of the descriptor, whatever the store gave.
pub proof fn bytes_handed_out_are_the_described_ones(
    d: DescriptorModel,
    budget_bytes: u64,
    read: Result<BlobReadBounded, String>,
)
    requires
        read_within_budget(d, budget_bytes, read) is Ok,
    ensures
        ({
            let bytes = read_within_budget(d, budget_bytes, read)->Ok_0;
            &&& bytes.len() == d.byte_length
            &&& bytes.len() <= budget_bytes
            &&& content_digest(bytes) == d.content_hash
        }),
{
}

/// Whether the capability at place `i` is the one that publishes streams of
/// `entity_type` under the descriptor contract.
pub open spec fn publishes(
    declared: Seq<CapabilityModel>,
    entity_type: Seq<char>,
    i: int,
) -> bool {
    &&& 0 <= i < declared.len()
    &&& forall|k: int|
        0 <= k < declared.len() ==> (local_name((#[trigger] declared[k]).subject_type)
            == entity_type) == (k == i)
    &&& declared[i].descriptor_contract_v1_active
    &&& declared[i].migration_provenance is Some
}

/// Whether no declared capability publishes a stream of the type.
pub open spec fn unpublished(declared: Seq<CapabilityModel>, entity_type: Seq<char>) -> bool {
    forall|i: int| !#[trigger] publishes(declared, entity_type, i)
}

/// The place of the capability that publishes streams of `entity_type` under
/// the descriptor contract, where there is exactly one for that type.
pub fn active_stream_publication_binding(
    declared: &Vec<StreamCapability>,
    entity_type: &str,
) -> (r: Option<usize>)
    ensures
        match r {
            Some(i) => publishes(views(declared@), entity_type@, i as int),
            None => unpublished(views(declared@), entity_type@),
        },
{
    let ghost all = views(declared@);
    let mut found: Option<usize> = None;
    let mut i: usize = 0;
    while i < declared.len()
        invariant
            i <= declared.len(),
            all == views(declared@),
            match found {
                Some(j) => j < i && forall|k: int|
                    0 <= k < i ==> (local_name((#[trigger] all[k]).subject_type) == entity_type@)
                        == (k == j),
                None => forall|k: int|
                    0 <= k < i ==> local_name((#[trigger] all[k]).subject_type) != entity_type@,
            },
        decreases declared.len() - i,
    {
        proof {
            assert(all[i as int] == declared@[i as int]@);
        }
        if same(local_type(declared[i].subject_type.as_str()).as_str(), entity_type) {
            if found.is_some() {
                proof {
                    let j = found->0 as int;
                    assert forall|m: int| !publishes(all, entity_type@, m) by {
                        if publishes(all, entity_type@, m) {
                            assert(local_name(all[j].subject_type) == entity_type@);
                            assert(local_name(all[i as int].subject_type) == entity_type@);
                        }
                    }
                }
                return None;
            }
            found = Some(i);
        }
        i = i + 1;
    }
    match found {
        None => {
            proof {
                assert forall|m: int| !publishes(all, entity_type@, m) by {
                    if publishes(all, entity_type@, m) {
                        assert(local_name(all[m].subject_type) == entity_type@);
                    }
                }
            }
            None
        },
        Some(j) => {
            proof {
                assert(all[j as int] == declared@[j as int]@);
            }
            if declared[j].descriptor_contract_v1_active
                && declared[j].migration_provenance.is_some() {
                Some(j)
            } else {
                proof {
                    assert forall|m: int| !publishes(all, entity_type@, m) by {
                        if publishes(all, entity_type@, m) {
                            assert(local_name(all[m].subject_type) == entity_type@);
                        }
                    }
                }
                None
            }
        },
    }
}

/// The committed schema pointer of a scope, as far as streams are concerned.
#[derive(Clone, Debug, PartialEq, Eq)]
pub struct StreamPointer {
    pub predecessor_digest: Option<String>,
    pub published_types: OrdSet<String>,
    /// Whether the schema that it points to publishes the stream in question.
    pub target_publishes: bool,
}

/// Whether writes under the pinned schema `bundle_digest` carry a descriptor:
/// its own schema publishes the stream, or the schema that replaced it does.
pub open spec fn pinned_contract(
    declared: bool,
    store: Option<Result<Option<StreamPointer>, String>>,
    bundle_digest: Seq<char>,
    entity_type: Seq<char>,
) -> Result<bool, ResolutionErrorModel> {
    if declared {
        Ok(true)
    } else {
        match store {
            None => Err(ResolutionErrorModel::JournalUnavailable),
            Some(Err(e)) => Err(ResolutionErrorModel::Storage(e@)),
            Some(Ok(None)) => Ok(false),
            Some(Ok(Some(pointer))) => Ok(
                opt_text(pointer.predecessor_digest) == Some(bundle_digest)
                    && pointer.published_types@.contains(entity_type)
                    && pointer.target_publishes,
            ),
        }
    }
}

/// Whether writes under a pinned schema carry a descriptor.
pub fn pinned_contract_activated(
    declared: bool,
    store: &Option<Result<Option<StreamPointer>, String>>,
    bundle_digest: &str,
    entity_type: &str,
) -> (r: Result<bool, StreamDescriptorResolutionError>)
    requires
        store is Some && store->0 is Ok && store->0->Ok_0 is Some
            ==> store->0->Ok_0->0.published_types.wf(),
    ensures
        resolution(r) == pinned_contract(declared, *store, bundle_digest@, entity_type@),
{
    if declared {
        return Ok(true);
    }
    match store {
        None => Err(StreamDescriptorResolutionError::JournalUnavailable),
        Some(Err(e)) => Err(StreamDescriptorResolutionError::Storage(e.clone())),
        Some(Ok(None)) => Ok(false),
        Some(Ok(Some(pointer))) => {
            let succeeds = match &pointer.predecessor_digest {
                Some(d) => same(d.as_str(), bundle_digest),
                None => false,
            };
            Ok(
                succeeds && pointer.published_types.contains(&entity_type.to_owned())
                    && pointer.target_publishes,
            )
        },
    }
}

/// Whether writes under the live schema carry a descriptor: the schema
/// publishes the stream, and the journal has the fence for it.
pub open spec fn live_contract(
    declared: bool,
    fence: Option<Result<bool, String>>,
) -> Result<bool, ResolutionErrorModel> {
    if !declared {
        Ok(false)
    } else {
        match fence {
            None => Err(ResolutionErrorModel::JournalUnavailable),
            Some(Err(e)) => Err(ResolutionErrorModel::Storage(e@)),
            Some(Ok(active)) => Ok(active),
        }
    }
}

/// Whether writes under the live schema carry a descriptor. `fence` is the
/// journal's answer, where there is a journal.
pub fn live_contract_activated(declared: bool, fence: &Option<Result<bool, String>>) -> (r: Result<
    bool,
    StreamDescriptorResolutionError,
>)
    ensures
        resolution(r) == live_contract(declared, *fence),
{
    if !declared {
        return Ok(false);
    }
    match fence {
        None => Err(StreamDescriptorResolutionError::JournalUnavailable),
        Some(Err(e)) => Err(StreamDescriptorResolutionError::Storage(e.clone())),
        Some(Ok(active)) => Ok(*active),
    }
}

proof fn a_replay_keeps_to_its_subject(
    entity_type: Seq<char>,
    entity_id: Seq<char>,
    events: Seq<EnvelopeModel>,
    i: int,
)
    requires
        replayed(entity_type, entity_id, events) is Ok,
        0 <= i < events.len(),
        events[i].descriptor is Some,
    ensures
        ({
            let d = events[i].descriptor->0;
            let last = replayed(entity_type, entity_id, events)->Ok_0;
            &&& d.subject == (entity_type, entity_id)
            &&& d.descriptor_event_sequence == events[i].sequence_nr
            &&& d.content_event_sequence <= events[i].sequence_nr
            &&& last is Some
            &&& (forall|j: int|
                i < j < events.len() ==> (#[trigger] events[j]).descriptor is None) ==> last
                == Some(d)
            &&& (exists|j: int|
                i < j < events.len() && (#[trigger] events[j]).descriptor is Some)
                ==> d.mutability == StreamMutability::Mutable
        }),
    decreases events.len(),
{
    let rest = events.drop_last();
    assert forall|j: int| 0 <= j < rest.len() implies #[trigger] rest[j] == events[j] by {}
    if i < rest.len() {
        a_replay_keeps_to_its_subject(entity_type, entity_id, rest, i);
        if forall|j: int| i < j < events.len() ==> (#[trigger] events[j]).descriptor is None {
            assert(events[events.len() - 1].descriptor is None);
        }
        if exists|j: int| i < j < events.len() && (#[trigger] events[j]).descriptor is Some {
            let j = choose|j: int|
                i < j < events.len() && (#[trigger] events[j]).descriptor is Some;
            if j < rest.len() {
                assert(rest[j].descriptor is Some);
            } else if forall|k: int|
                i < k < rest.len() ==> (#[trigger] rest[k]).descriptor is None {
            } else {
                let k = choose|k: int|
                    i < k < rest.len() && (#[trigger] rest[k]).descriptor is Some;
                assert(rest[k].descriptor is Some);
            }
        }
    }
}

/// A resolved descriptor is carried by an event of the journal after which no
/// event carries one. Every descriptor of the journal is of the entity that was
/// asked for and at its own event, and only the last one may be immutable.
pub proof fn a_resolved_descriptor_is_the_last_one(
    entity_type: &str,
    entity_id: &str,
    events: &Vec<Envelope>,
    exhausted: bool,
    r: Result<StreamDescriptor, StreamDescriptorResolutionError>,
    i: int,
)
    requires
        call_ensures(
            resolve_descriptor_events,
            (entity_type, entity_id, events, exhausted),
            r,
        ),
        r is Ok,
        0 <= i < events@.len(),
        events@[i].descriptor is Some,
    ensures
        ({
            let d = events@[i].descriptor->0@;
            &&& d.subject == (entity_type@, entity_id@)
            &&& d.descriptor_event_sequence == events@[i].sequence_nr
            &&& d.content_event_sequence <= events@[i].sequence_nr
            &&& (forall|j: int|
                i < j < events@.len() ==> (#[trigger] events@[j]).descriptor is None) ==> r->Ok_0@
                == d
            &&& (exists|j: int|
                i < j < events@.len() && (#[trigger] events@[j]).descriptor is Some)
                ==> d.mutability == StreamMutability::Mutable
        }),
{
    let all = views(events@);
    assert forall|j: int| 0 <= j < events@.len() implies #[trigger] all[j] == events@[j]@ by {}
    a_replay_keeps_to_its_subject(entity_type@, entity_id@, all, i);
    if exists|j: int| i < j < events@.len() && (#[trigger] events@[j]).descriptor is Some {
        let j = choose|j: int|
            i < j < events@.len() && (#[trigger] events@[j]).descriptor is Some;
        assert(all[j].descriptor is Some);
    }
    if forall|j: int| i < j < events@.len() ==> (#[trigger] events@[j]).descriptor is None {
        assert forall|j: int| i < j < all.len() implies (#[trigger] all[j]).descriptor is None by {
            assert(events@[j].descriptor is None);
        }
    }
}

/// A journal without a descriptor has none to resolve: it is missing, or may lie
/// beyond what was read.
pub proof fn no_descriptor_is_made_up(
    entity_type: Seq<char>,
    entity_id: Seq<char>,
    events: Seq<EnvelopeModel>,
    exhausted: bool,
)
    requires
        forall|i: int| 0 <= i < events.len() ==> (#[trigger] events[i]).descriptor is None,
    ensures
        resolved(entity_type, entity_id, events, exhausted) == Err::<
            DescriptorModel,
            ResolutionErrorModel,
        >(
            if exhausted {
                ResolutionErrorModel::ReplayBudgetExceeded
            } else {
                ResolutionErrorModel::Missing
            },
        ),
{
    nothing_is_replayed(entity_type, entity_id, events);
}

proof fn nothing_is_replayed(
    entity_type: Seq<char>,
    entity_id: Seq<char>,
    events: Seq<EnvelopeModel>,
)
    requires
        forall|i: int| 0 <= i < events.len() ==> (#[trigger] events[i]).descriptor is None,
    ensures
        replayed(entity_type, entity_id, events) == Ok::<
            Option<DescriptorModel>,
            ResolutionErrorModel,
        >(None),
    decreases events.len(),
{
    if events.len() > 0 {
        let rest = events.drop_last();
        assert forall|i: int| 0 <= i < rest.len() implies (#[trigger] rest[i]).descriptor
            is None by {
            assert(rest[i] == events[i]);
        }
        nothing_is_replayed(entity_type, entity_id, rest);
        assert(events[events.len() - 1].descriptor is None);
    }
}

/// A sound journal is resolved: where every descriptor is of the entity and at
/// its own event, and none that is immutable is followed by another, the last one
/// is given.
pub proof fn a_sound_journal_is_resolved(
    entity_type: Seq<char>,
    entity_id: Seq<char>,
    events: Seq<EnvelopeModel>,
)
    requires
        forall|i: int|
            0 <= i < events.len() && (#[trigger] events[i]).descriptor is Some ==> {
                let d = events[i].descriptor->0;
                &&& d.subject == (entity_type, entity_id)
                &&& d.descriptor_event_sequence == events[i].sequence_nr
                &&& d.content_event_sequence <= events[i].sequence_nr
            },
        forall|i: int, j: int|
            0 <= i < j < events.len() && (#[trigger] events[i]).descriptor is Some && (
            #[trigger] events[j]).descriptor is Some ==> events[i].descriptor->0.mutability
                == StreamMutability::Mutable,
    ensures
        replayed(entity_type, entity_id, events) is Ok,
        replayed(entity_type, entity_id, events)->Ok_0 is Some ==> exists|i: int|
            0 <= i < events.len() && (#[trigger] events[i]).descriptor == replayed(
                entity_type,
                entity_id,
                events,
            )->Ok_0,
    decreases events.len(),
{
    if events.len() > 0 {
        let rest = events.drop_last();
        assert forall|i: int| 0 <= i < rest.len() implies #[trigger] rest[i] == events[i] by {}
        a_sound_journal_is_resolved(entity_type, entity_id, rest);
        let prior = replayed(entity_type, entity_id, rest)->Ok_0;
        let n = events.len() - 1;
        if prior is Some {
            let i = choose|i: int|
                0 <= i < rest.len() && (#[trigger] rest[i]).descriptor == prior;
            assert(events[i].descriptor == prior);
        }
        assert(events[n] == events.last());
    }
}

/// A read of the tail is trusted only where nothing stands beyond it.
pub proof fn only_a_stable_tail_is_resolved(
    entity_type: Seq<char>,
    entity_id: Seq<char>,
    events: Seq<EnvelopeModel>,
    beyond_tail: usize,
)
    ensures
        beyond_tail > 0 ==> resolved_tail(entity_type, entity_id, events, beyond_tail) is Err,
        resolved_tail(entity_type, entity_id, events, beyond_tail) is Ok ==> beyond_tail == 0
            && exists|i: int|
            0 <= i < events.len() && (#[trigger] events[i]).descriptor == Some(
                resolved_tail(entity_type, entity_id, events, beyond_tail)->Ok_0,
            ),
{
    if resolved_tail(entity_type, entity_id, events, beyond_tail) is Ok {
        a_replayed_descriptor_is_carried(entity_type, entity_id, events);
    }
}

proof fn a_replayed_descriptor_is_carried(
    entity_type: Seq<char>,
    entity_id: Seq<char>,
    events: Seq<EnvelopeModel>,
)
    requires
        replayed(entity_type, entity_id, events) is Ok,
        replayed(entity_type, entity_id, events)->Ok_0 is Some,
    ensures
        exists|i: int|
            0 <= i < events.len() && (#[trigger] events[i]).descriptor == replayed(
                entity_type,
                entity_id,
                events,
            )->Ok_0,
    decreases events.len(),
{
    if events.len() > 0 {
        let n = events.len() - 1;
        if events.last().descriptor is Some {
            assert(events[n].descriptor == replayed(entity_type, entity_id, events)->Ok_0);
        } else {
            let rest = events.drop_last();
            a_replayed_descriptor_is_carried(entity_type, entity_id, rest);
            let i = choose|i: int|
                0 <= i < rest.len() && (#[trigger] rest[i]).descriptor == replayed(
                    entity_type,
                    entity_id,
                    rest,
                )->Ok_0;
            assert(events[i] == rest[i]);
        }
    }
}

/// The bytes of a stream are read exactly where the descriptor's length is within
/// the budget and the stored bytes have that length and the descriptor's digest;
/// and they are those bytes. A budget that is too small is told before anything
/// that the store says.
pub proof fn a_stream_is_read_whole_or_not_at_all(
    descriptor: &StreamDescriptor,
    budget_bytes: u64,
    read: Result<BlobReadBounded, String>,
    r: Result<Vec<u8>, StreamDescriptorResolutionError>,
)
    requires
        call_ensures(read_stream_descriptor_bytes, (descriptor, budget_bytes, read), r),
        descriptor.byte_length <= usize::MAX,
    ensures
        r is Ok <==> {
            &&& descriptor.byte_length <= budget_bytes
            &&& read is Ok
            &&& read->Ok_0 is Found
            &&& read->Ok_0->Found_0@.len() == descriptor.byte_length
            &&& content_digest(read->Ok_0->Found_0@) == descriptor.content_hash@
        },
        r is Ok ==> r->Ok_0@ == read->Ok_0->Found_0@,
        descriptor.byte_length > budget_bytes ==> r->Err_0@
            == ResolutionErrorModel::BudgetExceeded,
        descriptor.byte_length <= budget_bytes && read is Err ==> r->Err_0@
            == ResolutionErrorModel::Storage(read->Err_0@),
        descriptor.byte_length <= budget_bytes && read is Ok && r is Err ==> r->Err_0@
            is Integrity,
{
}

/// A stream is published by the one capability of its type, where that is in
/// force and has provenance; two of one type publish nothing.
pub proof fn one_capability_publishes_a_stream(
    declared: &Vec<StreamCapability>,
    entity_type: &str,
    r: Option<usize>,
    i: int,
)
    requires
        call_ensures(active_stream_publication_binding, (declared, entity_type), r),
        0 <= i < declared@.len(),
        local_name(declared@[i].subject_type@) == entity_type@,
        forall|k: int|
            0 <= k < declared@.len() && k != i ==> local_name(
                (#[trigger] declared@[k]).subject_type@,
            ) != entity_type@,
    ensures
        r is Some <==> declared@[i].descriptor_contract_v1_active
            && declared@[i].migration_provenance is Some,
        r is Some ==> r->0 == i,
{
    let all = views(declared@);
    assert forall|k: int| 0 <= k < all.len() implies #[trigger] all[k] == declared@[k]@ by {}
    if declared@[i].descriptor_contract_v1_active && declared@[i].migration_provenance is Some {
        assert forall|k: int| 0 <= k < all.len() implies (local_name(
            (#[trigger] all[k]).subject_type,
        ) == entity_type@) == (k == i) by {
            assert(all[k].subject_type == declared@[k].subject_type@);
            if k != i {
                assert(local_name(declared@[k].subject_type@) != entity_type@);
            }
        }
        assert(all[i] == declared@[i]@);
        assert(publishes(all, entity_type@, i));
        if r is None {
            assert(!publishes(views(declared@), entity_type@, i));
        }
    }
    if r is Some {
        assert(all[i].subject_type == declared@[i].subject_type@);
        assert(local_name(all[i].subject_type) == entity_type@);
        assert(r->0 == i);
        assert(all[i].descriptor_contract_v1_active);
        assert(all[i].migration_provenance is Some);
        assert(declared@[i]@.migration_provenance is Some);
        assert(declared@[i].migration_provenance is Some);
    }
}

/// A contract that is pinned or live is told of only where it can be: a schema
/// that declares it has it, and a live one has it as its fence says.
pub proof fn a_contract_is_what_its_schema_and_fence_say(
    declared: bool,
    fence: Option<Result<bool, String>>,
    store: Option<Result<Option<StreamPointer>, String>>,
    bundle_digest: Seq<char>,
    entity_type: Seq<char>,
)
    ensures
        declared ==> pinned_contract(declared, store, bundle_digest, entity_type) == Ok::<
            bool,
            ResolutionErrorModel,
        >(true),
        !declared ==> live_contract(declared, fence) == Ok::<bool, ResolutionErrorModel>(false),
        declared && fence is Some && fence->0 is Ok ==> live_contract(declared, fence) == Ok::<
            bool,
            ResolutionErrorModel,
        >(fence->0->Ok_0),
        declared && fence is None ==> live_contract(declared, fence) is Err,
        !declared && pinned_contract(declared, store, bundle_digest, entity_type) == Ok::<
            bool,
            ResolutionErrorModel,
        >(true) ==> store is Some && store->0 is Ok && store->0->Ok_0 is Some && opt_text(
            store->0->Ok_0->0.predecessor_digest,
        ) == Some(bundle_digest) && store->0->Ok_0->0.published_types@.contains(entity_type)
            && store->0->Ok_0->0.target_publishes,
{
}

/// A stream is read only if all of it fits the budget, and then all of it.
pub proof fn a_stream_is_admitted_within_its_budget(
    d: &StreamDescriptor,
    budget: u64,
    r: Result<usize, StreamDescriptorResolutionError>,
)
    requires
        call_ensures(admit_stream_read, (d, budget), r),
    ensures
        r is Ok ==> r->Ok_0 == d.byte_length && d.byte_length <= budget,
        d.byte_length > budget ==> r is Err && r->Err_0@ is BudgetExceeded,
        d.byte_length <= budget && d.byte_length <= usize::MAX ==> r is Ok,
{
}

/// The bytes that are handed out are those that were found, of the length and
/// with the digest of their descriptor, and such bytes are handed out.
pub proof fn only_the_described_bytes_are_handed_out(
    d: &StreamDescriptor,
    read: Result<BlobReadBounded, String>,
    r: Result<Vec<u8>, StreamDescriptorResolutionError>,
)
    requires
        call_ensures(verify_stream_read, (d, read), r),
    ensures
        r is Ok <==> read is Ok && read->Ok_0 is Found && read->Ok_0->Found_0@.len()
            == d.byte_length && content_digest(read->Ok_0->Found_0@) == d.content_hash@,
        r is Ok ==> r->Ok_0@ == read->Ok_0->Found_0@,
        read is Err ==> r is Err && r->Err_0@ is Storage,
        read is Ok && r is Err ==> r->Err_0@ is Integrity,
{
}

} // verus!
