//! Bounded, explicit migration of historical stream descriptors.

use vstd::prelude::*;
use vstd::string::*;

use crate::digest::content_digest;
use crate::digest::content_digest_of;
use crate::digest::hex;
use crate::digest::sha256;
use crate::digest::sha256_hex;
use crate::json::model_of_parts;
use crate::json::Json;
use crate::json::JsonModel;
use crate::provenance::capability_refusal;
use crate::provenance::historical_facts;
use crate::provenance::historical_stream_facts;
use crate::provenance::schema_refusal;
use crate::provenance::validate_stream_descriptor_capability;
use crate::provenance::validate_verified_capability;
use crate::provenance::FactsModel;
use crate::provenance::HistoricalStreamFacts;
use crate::provenance::BACKFILL_HISTORY_EVENT_BUDGET;
use crate::stream::copy_ref;
use crate::stream::same_ref;
use crate::stream::DescriptorModel;
use crate::stream::EntityEvent;
use crate::stream::Envelope;
use crate::stream::EnvelopeModel;
use crate::stream::EventModel;
use crate::stream::MigrationProvenance;
use crate::stream::ProvenanceModel;
use crate::stream::StreamCapability;
use crate::stream::StreamDescriptor;
use crate::stream::StreamEntityRef;
use crate::stream::StreamMutability;
use crate::text::opt_as_str;
use crate::text::opt_copy;
use crate::text::opt_str;
use crate::text::opt_text;
use crate::text::outcome;
use crate::text::same_opt;
use crate::text::trim;
use crate::text::trimmed;
use crate::text::views;
use crate::time::Timestamp;

verus! {

/// The most candidates of one page.
pub const BACKFILL_BATCH_ITEM_BUDGET: usize = 256;

/// The most bytes of the encoded candidates of one page.
pub const BACKFILL_BATCH_BYTE_BUDGET: usize = 1_048_576;

/// One exact historical stream selected by a separately audited inventory.
#[derive(Clone, Debug, PartialEq, Eq)]
pub struct StreamDescriptorBackfillCandidateV1 {
    /// Runtime entity type that owns the stream.
    pub entity_type: String,
    /// Entity identifier within the supplied tenant.
    pub entity_id: String,
    /// Inventoried platform digest, verified again against stored bytes.
    pub content_hash: String,
    /// Exact provider-opaque storage identity from the historical inventory.
    pub storage_object_id: String,
    /// Inventoried byte length, enforced before the verification read.
    pub byte_length: u64,
    /// Historical media type, when one was committed.
    pub content_type: Option<String>,
    /// Exact historical publication sequence.
    pub content_event_sequence: u64,
    /// Journal fence captured by the inventory.
    pub expected_current_sequence: u64,
    /// Verified replacement semantics for this subject.
    pub mutability: StreamMutability,
}

/// What a candidate holds.
pub struct CandidateModel {
    pub entity_type: Seq<char>,
    pub entity_id: Seq<char>,
    pub content_hash: Seq<char>,
    pub storage_object_id: Seq<char>,
    pub byte_length: u64,
    pub content_type: Option<Seq<char>>,
    pub content_event_sequence: u64,
    pub expected_current_sequence: u64,
    pub mutability: StreamMutability,
}

impl View for StreamDescriptorBackfillCandidateV1 {
    type V = CandidateModel;

    open spec fn view(&self) -> CandidateModel {
        CandidateModel {
            entity_type: self.entity_type@,
            entity_id: self.entity_id@,
            content_hash: self.content_hash@,
            storage_object_id: self.storage_object_id@,
            byte_length: self.byte_length,
            content_type: opt_text(self.content_type),
            content_event_sequence: self.content_event_sequence,
            expected_current_sequence: self.expected_current_sequence,
            mutability: self.mutability,
        }
    }
}

/// Durable result for one bounded backfill candidate.
#[derive(Clone, Debug, PartialEq, Eq)]
pub enum StreamDescriptorBackfillOutcomeV1 {
    /// A new kernel-only descriptor event was appended.
    Appended {
        /// Committed journal sequence of the backfill event.
        descriptor_event_sequence: u64,
    },
    /// An idempotent rerun found the exact descriptor already committed.
    AlreadyPresent {
        /// Existing descriptor event sequence.
        descriptor_event_sequence: u64,
    },
    /// Verification failed without manufacturing descriptor authority.
    Unresolved {
        /// Bounded actionable failure classification.
        reason: String,
    },
}

/// The sequence of the last event, and zero where there is none.
pub open spec fn tail_sequence(events: Seq<EnvelopeModel>) -> u64 {
    if events.len() == 0 {
        0
    } else {
        events.last().sequence_nr
    }
}

/// The first event with the sequence `n`.
pub open spec fn event_at(events: Seq<EnvelopeModel>, n: u64) -> Option<EnvelopeModel>
    decreases events.len(),
{
    if events.len() == 0 {
        None
    } else if events[0].sequence_nr == n {
        Some(events[0])
    } else {
        event_at(events.drop_first(), n)
    }
}

/// The last descriptor that the events carry.
pub open spec fn last_descriptor(events: Seq<EnvelopeModel>) -> Option<DescriptorModel>
    decreases events.len(),
{
    if events.len() == 0 {
        None
    } else if events.last().descriptor is Some {
        events.last().descriptor
    } else {
        last_descriptor(events.drop_last())
    }
}

/// Whether some event after `n` is of type `action`.
pub open spec fn published_after(events: Seq<EnvelopeModel>, n: u64, action: Seq<char>) -> bool {
    exists|i: int|
        0 <= i < events.len() && (#[trigger] events[i]).sequence_nr > n && events[i].event_type
            == action
}

/// What the journal says of the stream that a candidate names, or why the
/// candidate is refused before any byte is read.
pub open spec fn admission(
    events: Seq<EnvelopeModel>,
    c: CandidateModel,
    p: ProvenanceModel,
    parent_type: Option<Seq<char>>,
    parent_form: Result<(), String>,
) -> Result<FactsModel, Seq<char>> {
    if events.len() > BACKFILL_HISTORY_EVENT_BUDGET {
        Err("historical stream journal exceeds the backfill event budget"@)
    } else if tail_sequence(events) != c.expected_current_sequence {
        Err("historical stream sequence changed during inventory"@)
    } else {
        match event_at(events, c.content_event_sequence) {
            None => Err("historical content event is outside the bounded inventory"@),
            Some(event) => if event.event_type != p.publication_action {
                Err("historical content sequence is not a TemperFS "@ + p.publication_action + " event"@)
            } else if published_after(events, c.content_event_sequence, p.publication_action) {
                Err("historical content sequence is not the latest publication"@)
            } else {
                match historical_facts(event, p, c.entity_type, parent_type, parent_form) {
                    Err(e) => Err(e),
                    Ok(facts) => if facts.content_hash != c.content_hash || facts.byte_length
                        != c.byte_length || facts.content_type != c.content_type {
                        Err("historical event content facts differ from inventory"@)
                    } else {
                        Ok(facts)
                    },
                }
            },
        }
    }
}

fn find_event(events: &Vec<Envelope>, n: u64) -> (r: Option<usize>)
    ensures
        match r {
            Some(i) => i < events.len() && event_at(views(events@), n) == Some(events@[i as int]@),
            None => event_at(views(events@), n) is None,
        },
{
    let ghost all = views(events@);
    let mut i: usize = 0;
    proof {
        assert(all.skip(0) =~= all);
    }
    while i < events.len()
        invariant
            i <= events.len(),
            all == views(events@),
            event_at(all, n) == event_at(all.skip(i as int), n),
        decreases events.len() - i,
    {
        proof {
            assert(all.skip(i as int)[0] == all[i as int]);
            assert(all.skip(i as int).drop_first() =~= all.skip(i + 1));
        }
        if events[i].sequence_nr == n {
            return Some(i);
        }
        i = i + 1;
    }
    None
}

fn is_published_after(events: &Vec<Envelope>, n: u64, action: &String) -> (r: bool)
    ensures
        r == published_after(views(events@), n, action@),
{
    let ghost all = views(events@);
    let mut i: usize = 0;
    while i < events.len()
        invariant
            i <= events.len(),
            all == views(events@),
            forall|k: int|
                0 <= k < i ==> !((#[trigger] all[k]).sequence_nr > n && all[k].event_type
                    == action@),
        decreases events.len() - i,
    {
        proof {
            assert(all[i as int] == events@[i as int]@);
        }
        if events[i].sequence_nr > n && events[i].event_type == *action {
            return true;
        }
        i = i + 1;
    }
    false
}

/// Decides, before any byte is read, whether the journal bears a candidate
/// out, and gives what the journal says of the stream. `parent_form` is what the
/// constructor of references says of the names of the parent.
pub fn admit_backfill(
    events: &Vec<Envelope>,
    candidate: &StreamDescriptorBackfillCandidateV1,
    provenance: &MigrationProvenance,
    authorization_parent_type: Option<&str>,
    parent_form: &Result<(), String>,
) -> (r: Result<HistoricalStreamFacts, String>)
    ensures
        outcome(r) == admission(
            views(events@),
            candidate@,
            provenance@,
            opt_str(authorization_parent_type),
            *parent_form,
        ),
{
    proof {
        assert(views(events@).len() == events@.len());
    }
    if events.len() > BACKFILL_HISTORY_EVENT_BUDGET {
        return Err("historical stream journal exceeds the backfill event budget".to_owned());
    }
    let tail: u64 = if events.len() == 0 {
        0
    } else {
        events[events.len() - 1].sequence_nr
    };
    if tail != candidate.expected_current_sequence {
        return Err("historical stream sequence changed during inventory".to_owned());
    }
    let at: usize = match find_event(events, candidate.content_event_sequence) {
        Some(i) => i,
        None => return Err(
            "historical content event is outside the bounded inventory".to_owned(),
        ),
    };
    let content_event = &events[at];
    if content_event.event_type != provenance.publication_action {
        let mut text = "historical content sequence is not a TemperFS ".to_owned();
        text.append(provenance.publication_action.as_str());
        text.append(" event");
        return Err(text);
    }
    if is_published_after(
        events,
        candidate.content_event_sequence,
        &provenance.publication_action,
    ) {
        return Err("historical content sequence is not the latest publication".to_owned());
    }
    let facts = match historical_stream_facts(
        content_event,
        provenance,
        candidate.entity_type.as_str(),
        authorization_parent_type,
        parent_form,
    ) {
        Ok(facts) => facts,
        Err(e) => return Err(e),
    };
    if facts.content_hash != candidate.content_hash || facts.byte_length != candidate.byte_length
        || !same_opt(opt_as_str(&candidate.content_type), opt_as_str(&facts.content_type)) {
        return Err("historical event content facts differ from inventory".to_owned());
    }
    Ok(facts)
}

/// The stored object behind a candidate: the length that the store declares,
/// and the chunks that it was read in.
#[derive(Clone, Debug, PartialEq, Eq)]
pub enum StoredStream {
    Found { content_length: u64, chunks: Vec<Vec<u8>> },
    Missing,
    TooLarge,
}

/// The bytes of the first `n` chunks.
pub open spec fn joined(chunks: Seq<Vec<u8>>, n: int) -> Seq<u8>
    decreases n,
{
    if n <= 0 {
        Seq::<u8>::empty()
    } else {
        joined(chunks, n - 1) + chunks[n - 1]@
    }
}

/// Why the first `n` chunks of a stored stream are not those of a stream of
/// `limit` bytes.
pub open spec fn chunk_refusal(chunks: Seq<Vec<u8>>, n: int, limit: u64) -> Option<Seq<char>>
    decreases n,
{
    if n <= 0 {
        None
    } else if chunk_refusal(chunks, n - 1, limit) is Some {
        chunk_refusal(chunks, n - 1, limit)
    } else if joined(chunks, n).len() > u64::MAX {
        Some("historical stream length overflowed"@)
    } else if joined(chunks, n).len() > limit {
        Some("historical stream blob exceeds inventoried length"@)
    } else {
        None
    }
}

/// Why the stored bytes are not those that the candidate names.
pub open spec fn blob_refusal(stored: StoredStream, c: CandidateModel) -> Option<Seq<char>> {
    match stored {
        StoredStream::Missing => Some("historical stream blob is missing"@),
        StoredStream::TooLarge => Some("historical stream blob exceeds inventoried length"@),
        StoredStream::Found { content_length, chunks } => {
            let bytes = joined(chunks@, chunks@.len() as int);
            if content_length != c.byte_length {
                Some("historical stream blob length differs from inventory"@)
            } else if chunk_refusal(chunks@, chunks@.len() as int, c.byte_length) is Some {
                chunk_refusal(chunks@, chunks@.len() as int, c.byte_length)
            } else if bytes.len() != c.byte_length {
                Some("historical stream blob length differs from inventory"@)
            } else if content_digest(bytes) != c.content_hash {
                Some("historical stream blob digest differs from inventory"@)
            } else {
                None
            }
        },
    }
}

/// Holds the stored bytes against the length and the digest of a candidate.
pub fn verify_stored_stream(
    stored: &StoredStream,
    candidate: &StreamDescriptorBackfillCandidateV1,
) -> (r: Result<(), String>)
    ensures
        match r {
            Ok(_) => blob_refusal(*stored, candidate@) is None,
            Err(e) => blob_refusal(*stored, candidate@) == Some(e@),
        },
{
    match stored {
        StoredStream::Missing => Err("historical stream blob is missing".to_owned()),
        StoredStream::TooLarge => Err(
            "historical stream blob exceeds inventoried length".to_owned(),
        ),
        StoredStream::Found { content_length, chunks } => {
            if *content_length != candidate.byte_length {
                return Err("historical stream blob length differs from inventory".to_owned());
            }
            let mut bytes: Vec<u8> = Vec::new();
            let mut i: usize = 0;
            while i < chunks.len()
                invariant
                    i <= chunks.len(),
                    bytes@ == joined(chunks@, i as int),
                    bytes@.len() <= candidate.byte_length,
                    chunk_refusal(chunks@, i as int, candidate.byte_length) is None,
                    *content_length == candidate.byte_length,
                    *stored == (StoredStream::Found {
                        content_length: *content_length,
                        chunks: *chunks,
                    }),
                decreases chunks.len() - i,
            {
                let chunk = &chunks[i];
                proof {
                    assert(joined(chunks@, i + 1) == bytes@ + chunk@);
                }
                let total: u128 = bytes.len() as u128 + chunk.len() as u128;
                if total > u64::MAX as u128 {
                    proof {
                        refusal_stays(
                            chunks@,
                            i + 1,
                            chunks@.len() as int,
                            candidate.byte_length,
                        );
                    }
                    return Err("historical stream length overflowed".to_owned());
                }
                if total > candidate.byte_length as u128 {
                    proof {
                        refusal_stays(
                            chunks@,
                            i + 1,
                            chunks@.len() as int,
                            candidate.byte_length,
                        );
                    }
                    return Err("historical stream blob exceeds inventoried length".to_owned());
                }
                extend_bytes(&mut bytes, chunk);
                i = i + 1;
            }
            if bytes.len() as u64 != candidate.byte_length {
                return Err("historical stream blob length differs from inventory".to_owned());
            }
            if content_digest_of(bytes.as_slice()) != candidate.content_hash {
                return Err("historical stream blob digest differs from inventory".to_owned());
            }
            Ok(())
        },
    }
}

/// Appends the bytes of `more`.
pub fn extend_bytes(bytes: &mut Vec<u8>, more: &Vec<u8>)
    ensures
        final(bytes)@ == old(bytes)@ + more@,
{
    let mut i: usize = 0;
    proof {
        assert(bytes@ + more@.take(0) =~= bytes@);
    }
    while i < more.len()
        invariant
            i <= more.len(),
            bytes@ == old(bytes)@ + more@.take(i as int),
        decreases more.len() - i,
    {
        bytes.push(more[i]);
        i = i + 1;
        proof {
            assert(old(bytes)@ + more@.take(i as int) =~= (old(bytes)@ + more@.take(i - 1)).push(
                more@[i - 1],
            ));
        }
    }
    proof {
        assert(more@.take(more@.len() as int) =~= more@);
    }
}

proof fn refusal_stays(chunks: Seq<Vec<u8>>, n: int, m: int, limit: u64)
    requires
        0 <= n <= m,
        chunk_refusal(chunks, n, limit) is Some,
    ensures
        chunk_refusal(chunks, m, limit) == chunk_refusal(chunks, n, limit),
    decreases m - n,
{
    if n < m {
        refusal_stays(chunks, n, m - 1, limit);
    }
}

/// What says that a descriptor may be written: the verified capability of a
/// governed migration, or the streams that the live schema declares.
#[derive(Debug, PartialEq, Eq)]
pub enum DescriptorAuthority {
    Verified(StreamCapability),
    Declared(Result<Vec<StreamCapability>, String>),
}

/// Why the authority does not allow a descriptor.
pub open spec fn authority_refusal(a: DescriptorAuthority, d: DescriptorModel) -> Option<
    Seq<char>,
> {
    match a {
        DescriptorAuthority::Verified(c) => capability_refusal(d, c@),
        DescriptorAuthority::Declared(Ok(declared)) => schema_refusal(d, views(declared@)),
        DescriptorAuthority::Declared(Err(e)) => Some(e@),
    }
}

fn check_authority(authority: &DescriptorAuthority, descriptor: &StreamDescriptor) -> (r: Result<
    (),
    String,
>)
    ensures
        match r {
            Ok(_) => authority_refusal(*authority, descriptor@) is None,
            Err(e) => authority_refusal(*authority, descriptor@) == Some(e@),
        },
{
    match authority {
        DescriptorAuthority::Verified(c) => validate_verified_capability(descriptor, c),
        DescriptorAuthority::Declared(Ok(declared)) => validate_stream_descriptor_capability(
            declared,
            descriptor,
        ),
        DescriptorAuthority::Declared(Err(e)) => Err(e.clone()),
    }
}

/// What a repair does to the journal.
#[derive(Clone, Debug, PartialEq, Eq)]
pub enum BackfillStep {
    /// The journal has this descriptor already.
    AlreadyPresent { descriptor_event_sequence: u64 },
    /// Append one event that carries this descriptor and leaves the entity in
    /// this status.
    Append { descriptor: StreamDescriptor, status: String },
}

/// What a [`BackfillStep`] holds.
pub enum StepModel {
    AlreadyPresent { descriptor_event_sequence: u64 },
    Append { descriptor: DescriptorModel, status: Seq<char> },
}

impl View for BackfillStep {
    type V = StepModel;

    open spec fn view(&self) -> StepModel {
        match self {
            BackfillStep::AlreadyPresent { descriptor_event_sequence } => StepModel::AlreadyPresent {
                descriptor_event_sequence: *descriptor_event_sequence,
            },
            BackfillStep::Append { descriptor, status } => StepModel::Append {
                descriptor: descriptor@,
                status: status@,
            },
        }
    }
}

/// The descriptor that a repair writes for a candidate, as the event
/// `sequence`.
pub open spec fn repaired(
    c: CandidateModel,
    parent: Option<(Seq<char>, Seq<char>)>,
    sequence: u64,
) -> DescriptorModel {
    DescriptorModel {
        subject: (c.entity_type, c.entity_id),
        authorization_parent: parent,
        content_hash: c.content_hash,
        storage_object_id: c.storage_object_id,
        byte_length: c.byte_length,
        content_type: c.content_type,
        content_event_sequence: c.content_event_sequence,
        descriptor_event_sequence: sequence,
        mutability: c.mutability,
    }
}

/// Whether a committed descriptor is the one that the candidate asks for.
pub open spec fn is_exact(
    existing: DescriptorModel,
    c: CandidateModel,
    parent: Option<(Seq<char>, Seq<char>)>,
) -> bool {
    existing == repaired(c, parent, existing.descriptor_event_sequence)
}

/// What a repair does to the journal once the bytes are verified, or why it
/// does nothing.
pub open spec fn settlement(
    events: Seq<EnvelopeModel>,
    c: CandidateModel,
    facts: FactsModel,
    form: Result<(), String>,
    authority: DescriptorAuthority,
) -> Result<StepModel, Seq<char>> {
    let existing = last_descriptor(events);
    let parent = facts.authorization_parent;
    if existing is Some && is_exact(existing->0, c, parent) {
        Ok(
            StepModel::AlreadyPresent {
                descriptor_event_sequence: existing->0.descriptor_event_sequence,
            },
        )
    } else if existing is Some && (existing->0.mutability == StreamMutability::Immutable
        || c.mutability == StreamMutability::Immutable) {
        Err("a different immutable stream descriptor is already committed"@)
    } else if existing is Some && c.content_event_sequence <= existing->0.content_event_sequence {
        Err("mutable stream descriptor candidate is not newer"@)
    } else if c.expected_current_sequence == u64::MAX {
        Err("historical stream sequence overflowed"@)
    } else if form is Err {
        Err(form->Err_0@)
    } else {
        let d = repaired(c, parent, (c.expected_current_sequence + 1) as u64);
        if authority_refusal(authority, d) is Some {
            Err(authority_refusal(authority, d)->0)
        } else if events.len() == 0 {
            Err("historical stream journal is empty"@)
        } else {
            match events.last().event {
                Err(e) => Err("latest historical stream event is invalid: "@ + e),
                Ok(latest) => Ok(StepModel::Append { descriptor: d, status: latest.to_status }),
            }
        }
    }
}

fn find_last_descriptor(events: &Vec<Envelope>) -> (r: Option<&StreamDescriptor>)
    ensures
        match r {
            Some(d) => last_descriptor(views(events@)) == Some(d@),
            None => last_descriptor(views(events@)) is None,
        },
{
    let ghost all = views(events@);
    let mut n: usize = events.len();
    proof {
        assert(all.take(n as int) =~= all);
    }
    while n > 0
        invariant
            n <= events.len(),
            all == views(events@),
            last_descriptor(all) == last_descriptor(all.take(n as int)),
        decreases n,
    {
        proof {
            assert(all.take(n as int).last() == events@[n - 1]@);
            assert(all.take(n as int).drop_last() =~= all.take(n - 1));
        }
        match &events[n - 1].descriptor {
            Some(d) => return Some(d),
            None => {},
        }
        n = n - 1;
    }
    None
}

fn is_exact_of(
    existing: &StreamDescriptor,
    candidate: &StreamDescriptorBackfillCandidateV1,
    parent: &Option<StreamEntityRef>,
) -> (r: bool)
    ensures
        r == is_exact(existing@, candidate@, crate::text::opt_view(*parent)),
{
    existing.subject.entity_type == candidate.entity_type && existing.subject.entity_id
        == candidate.entity_id && same_ref(&existing.authorization_parent, parent)
        && existing.content_hash == candidate.content_hash && existing.storage_object_id
        == candidate.storage_object_id && existing.byte_length == candidate.byte_length && same_opt(
        opt_as_str(&existing.content_type),
        opt_as_str(&candidate.content_type),
    ) && existing.content_event_sequence == candidate.content_event_sequence && existing.mutability
        == candidate.mutability
}

/// Decides, once the bytes are verified, what a repair does to the journal.
pub fn settle_backfill(
    events: &Vec<Envelope>,
    candidate: &StreamDescriptorBackfillCandidateV1,
    facts: &HistoricalStreamFacts,
    form: &Result<(), String>,
    authority: &DescriptorAuthority,
) -> (r: Result<BackfillStep, String>)
    ensures
        outcome(r) == settlement(views(events@), candidate@, facts@, *form, *authority),
{
    proof {
        assert(views(events@).len() == events@.len());
    }
    match find_last_descriptor(events) {
        Some(existing) => {
            if is_exact_of(existing, candidate, &facts.authorization_parent) {
                return Ok(
                    BackfillStep::AlreadyPresent {
                        descriptor_event_sequence: existing.descriptor_event_sequence,
                    },
                );
            }
            if existing.mutability == StreamMutability::Immutable || candidate.mutability
                == StreamMutability::Immutable {
                return Err(
                    "a different immutable stream descriptor is already committed".to_owned(),
                );
            }
            if candidate.content_event_sequence <= existing.content_event_sequence {
                return Err("mutable stream descriptor candidate is not newer".to_owned());
            }
        },
        None => {},
    }
    if candidate.expected_current_sequence == u64::MAX {
        return Err("historical stream sequence overflowed".to_owned());
    }
    match form {
        Ok(_) => {},
        Err(e) => return Err(e.clone()),
    }
    let descriptor = StreamDescriptor {
        subject: StreamEntityRef {
            entity_type: candidate.entity_type.clone(),
            entity_id: candidate.entity_id.clone(),
        },
        authorization_parent: copy_ref(&facts.authorization_parent),
        content_hash: candidate.content_hash.clone(),
        storage_object_id: candidate.storage_object_id.clone(),
        byte_length: candidate.byte_length,
        content_type: opt_copy(&candidate.content_type),
        content_event_sequence: candidate.content_event_sequence,
        descriptor_event_sequence: candidate.expected_current_sequence + 1,
        mutability: candidate.mutability,
    };
    match check_authority(authority, &descriptor) {
        Ok(_) => {},
        Err(e) => return Err(e),
    }
    if events.len() == 0 {
        return Err("historical stream journal is empty".to_owned());
    }
    proof {
        assert(views(events@).last() == events@[events@.len() - 1]@);
    }
    match &events[events.len() - 1].event {
        Err(e) => {
            let mut text = "latest historical stream event is invalid: ".to_owned();
            text.append(e.as_str());
            Err(text)
        },
        Ok(latest) => Ok(BackfillStep::Append { descriptor, status: latest.to_status.clone() }),
    }
}

/// What a repair of one candidate does to the journal, from the journal, the
/// stored bytes and the authority.
pub open spec fn repair(
    events: Seq<EnvelopeModel>,
    c: CandidateModel,
    p: ProvenanceModel,
    parent_type: Option<Seq<char>>,
    parent_form: Result<(), String>,
    stored: Result<StoredStream, String>,
    form: Result<(), String>,
    authority: DescriptorAuthority,
) -> Result<StepModel, Seq<char>> {
    match admission(events, c, p, parent_type, parent_form) {
        Err(e) => Err(e),
        Ok(facts) => match stored {
            Err(e) => Err("backend unavailable: "@ + e@),
            Ok(stored) => match blob_refusal(stored, c) {
                Some(e) => Err(e),
                None => settlement(events, c, facts, form, authority),
            },
        },
    }
}

/// Verifies one candidate against the journal, the stored bytes and the
/// authority, and decides what is appended. `parent_form` and `form` are whether
/// the names of the parent, and those in the descriptor, have the form that their
/// constructors ask for.
pub fn backfill_stream_descriptor_v1_inner(
    events: &Vec<Envelope>,
    candidate: &StreamDescriptorBackfillCandidateV1,
    provenance: &MigrationProvenance,
    authorization_parent_type: Option<&str>,
    parent_form: &Result<(), String>,
    stored: &Result<StoredStream, String>,
    form: &Result<(), String>,
    authority: &DescriptorAuthority,
) -> (r: Result<BackfillStep, String>)
    ensures
        outcome(r) == repair(
            views(events@),
            candidate@,
            provenance@,
            opt_str(authorization_parent_type),
            *parent_form,
            *stored,
            *form,
            *authority,
        ),
{
    let facts = match admit_backfill(
        events,
        candidate,
        provenance,
        authorization_parent_type,
        parent_form,
    ) {
        Ok(facts) => facts,
        Err(e) => return Err(e),
    };
    match stored {
        Err(e) => {
            let mut text = "backend unavailable: ".to_owned();
            text.append(e.as_str());
            return Err(text);
        },
        Ok(stored) => match verify_stored_stream(stored, candidate) {
            Ok(_) => {},
            Err(e) => return Err(e),
        },
    }
    settle_backfill(events, candidate, &facts, form, authority)
}

/// A repair that appends names exactly the candidate, one past the fence that
/// the inventory captured, and only for bytes of the named length and digest
/// that the journal's latest publication names.
pub proof fn an_appended_descriptor_is_backed(
    events: Seq<EnvelopeModel>,
    c: CandidateModel,
    p: ProvenanceModel,
    parent_type: Option<Seq<char>>,
    parent_form: Result<(), String>,
    stored: Result<StoredStream, String>,
    form: Result<(), String>,
    authority: DescriptorAuthority,
)
    requires
        repair(events, c, p, parent_type, parent_form, stored, form, authority) is Ok,
        repair(events, c, p, parent_type, parent_form, stored, form, authority)->Ok_0 is Append,
    ensures
        ({
            let d = repair(
                events,
                c,
                p,
                parent_type,
                parent_form,
                stored,
                form,
                authority,
            )->Ok_0->Append_descriptor;
            let facts = admission(events, c, p, parent_type, parent_form)->Ok_0;
            &&& d == repaired(
                c,
                facts.authorization_parent,
                (tail_sequence(events) + 1) as u64,
            )
            &&& facts.content_hash == d.content_hash
            &&& facts.byte_length == d.byte_length
            &&& stored is Ok
            &&& stored->Ok_0 is Found
            &&& joined(
                stored->Ok_0->Found_chunks@,
                stored->Ok_0->Found_chunks@.len() as int,
            ).len() == d.byte_length
            &&& content_digest(
                joined(
                    stored->Ok_0->Found_chunks@,
                    stored->Ok_0->Found_chunks@.len() as int,
                ),
            ) == d.content_hash
            &&& authority_refusal(authority, d) is None
        }),
{
}

/// The type of the event that carries a descriptor to an existing stream.
pub open spec fn backfilled_event() -> Seq<char> {
    "_TemperStreamDescriptorBackfilledV1"@
}

/// The events that a repair appends: none, or one that carries the descriptor
/// and leaves the entity in its status. `evidence` is the encoding of the
/// provenance by which the descriptor was made.
pub open spec fn appended_events(
    step: StepModel,
    evidence: JsonModel,
    now: Timestamp,
) -> Seq<EnvelopeModel> {
    match step {
        StepModel::AlreadyPresent { .. } => Seq::empty(),
        StepModel::Append { descriptor, status } => seq![
            EnvelopeModel {
                sequence_nr: descriptor.descriptor_event_sequence,
                event_type: backfilled_event(),
                event: Ok(
                    EventModel {
                        action: backfilled_event(),
                        from_status: status,
                        to_status: status,
                        timestamp: now,
                        params: JsonModel::Object(seq![("migration_provenance"@, evidence)]),
                        idempotency_key: None,
                    },
                ),
                descriptor: Some(descriptor),
            },
        ],
    }
}

/// Makes the events that a repair appends, behind the fence that the inventory
/// captured.
pub fn events_to_append(step: &BackfillStep, evidence: &Json, now: Timestamp) -> (r: Vec<Envelope>)
    ensures
        views(r@) == appended_events(step@, evidence@, now),
{
    let mut out: Vec<Envelope> = Vec::new();
    match step {
        BackfillStep::AlreadyPresent { .. } => {},
        BackfillStep::Append { descriptor, status } => {
            let mut members: Vec<(String, Json)> = Vec::new();
            members.push(("migration_provenance".to_owned(), evidence.copy()));
            let params = Json::Object(members);
            proof {
                model_of_parts(params);
                assert(params@->Object_0 =~= seq![("migration_provenance"@, evidence@)]);
            }
            out.push(
                Envelope {
                    sequence_nr: descriptor.descriptor_event_sequence,
                    event_type: "_TemperStreamDescriptorBackfilledV1".to_owned(),
                    event: Ok(
                        EntityEvent {
                            action: "_TemperStreamDescriptorBackfilledV1".to_owned(),
                            from_status: status.clone(),
                            to_status: status.clone(),
                            timestamp: now,
                            params,
                            idempotency_key: None,
                        },
                    ),
                    descriptor: Some(descriptor.copy()),
                },
            );
        },
    }
    proof {
        assert(views(out@) =~= appended_events(step@, evidence@, now));
    }
    out
}

proof fn an_earlier_event_is_found(events: Seq<EnvelopeModel>, last: EnvelopeModel, n: u64)
    requires
        event_at(events, n) is Some,
    ensures
        event_at(events.push(last), n) == event_at(events, n),
    decreases events.len(),
{
    assert(events.push(last)[0] == events[0]);
    if events[0].sequence_nr != n {
        assert(events.push(last).drop_first() =~= events.drop_first().push(last));
        an_earlier_event_is_found(events.drop_first(), last, n);
    }
}

/// A repair that appends makes exactly one event, the next one of the journal,
/// and says its sequence; one that finds its descriptor present makes none.
pub proof fn a_repair_appends_one_event_or_none(
    events: Seq<EnvelopeModel>,
    c: CandidateModel,
    p: ProvenanceModel,
    parent_type: Option<Seq<char>>,
    parent_form: Result<(), String>,
    stored: Result<StoredStream, String>,
    form: Result<(), String>,
    authority: DescriptorAuthority,
    evidence: JsonModel,
    now: Timestamp,
)
    requires
        repair(events, c, p, parent_type, parent_form, stored, form, authority) is Ok,
    ensures
        ({
            let step = repair(
                events,
                c,
                p,
                parent_type,
                parent_form,
                stored,
                form,
                authority,
            )->Ok_0;
            let made = appended_events(step, evidence, now);
            match repair_outcome(step, Ok::<(), StoreFailure>(()))->Ok_0 {
                StreamDescriptorBackfillOutcomeV1::Appended { descriptor_event_sequence } => {
                    &&& made.len() == 1
                    &&& made[0].sequence_nr == descriptor_event_sequence
                    &&& descriptor_event_sequence == tail_sequence(events) + 1
                },
                StreamDescriptorBackfillOutcomeV1::AlreadyPresent { .. } => made.len() == 0,
                StreamDescriptorBackfillOutcomeV1::Unresolved { .. } => false,
            }
        }),
{
}

/// A repair may be run again: with the event that it appended in the journal, the
/// same candidate at the new fence, over the same bytes, is found already
/// present, and nothing more is appended. The event must not itself be of the
/// type that publishes the stream, and the journal must stay within its budget.
pub proof fn a_repair_runs_once(
    events: Seq<EnvelopeModel>,
    c: CandidateModel,
    p: ProvenanceModel,
    parent_type: Option<Seq<char>>,
    parent_form: Result<(), String>,
    stored: Result<StoredStream, String>,
    form: Result<(), String>,
    authority: DescriptorAuthority,
    evidence: JsonModel,
    now: Timestamp,
)
    requires
        repair(events, c, p, parent_type, parent_form, stored, form, authority) is Ok,
        repair(events, c, p, parent_type, parent_form, stored, form, authority)->Ok_0 is Append,
        p.publication_action != backfilled_event(),
        events.len() < BACKFILL_HISTORY_EVENT_BUDGET,
    ensures
        ({
            let step = repair(
                events,
                c,
                p,
                parent_type,
                parent_form,
                stored,
                form,
                authority,
            )->Ok_0;
            let n = (c.expected_current_sequence + 1) as u64;
            let again = CandidateModel { expected_current_sequence: n, ..c };
            let second = repair(
                events + appended_events(step, evidence, now),
                again,
                p,
                parent_type,
                parent_form,
                stored,
                form,
                authority,
            );
            &&& second == Ok::<StepModel, Seq<char>>(
                StepModel::AlreadyPresent { descriptor_event_sequence: n },
            )
            &&& appended_events(second->Ok_0, evidence, now).len() == 0
        }),
{
    let step = repair(
        events,
        c,
        p,
        parent_type,
        parent_form,
        stored,
        form,
        authority,
    )->Ok_0;
    let appended = appended_events(step, evidence, now)[0];
    let after = events.push(appended);
    assert(events + appended_events(step, evidence, now) =~= after);
    assert(after.last() == appended);
    an_earlier_event_is_found(events, appended, c.content_event_sequence);
    assert(!published_after(after, c.content_event_sequence, p.publication_action)) by {
        assert forall|i: int| 0 <= i < after.len() implies !((#[trigger] after[i]).sequence_nr
            > c.content_event_sequence && after[i].event_type == p.publication_action) by {
            if i < events.len() {
                assert(after[i] == events[i]);
            }
        }
    }
    let again = CandidateModel {
        expected_current_sequence: (c.expected_current_sequence + 1) as u64,
        ..c
    };
    assert(blob_refusal(stored->Ok_0, again) == blob_refusal(stored->Ok_0, c));
}

/// How the store failed.
#[derive(Clone, Debug, PartialEq, Eq)]
pub struct StoreFailure {
    /// The journal moved past the expected sequence.
    pub concurrency: bool,
    pub text: String,
}

/// The text of a store failure: a stale fence where the journal moved, else an
/// unavailable backend.
pub open spec fn failure_text(f: StoreFailure) -> Seq<char> {
    if f.concurrency {
        "stale fence: "@ + f.text@
    } else {
        "backend unavailable: "@ + f.text@
    }
}

/// The text of a store failure.
pub fn persistence_error(failure: &StoreFailure) -> (r: String)
    ensures
        r@ == failure_text(*failure),
{
    let mut text = if failure.concurrency {
        "stale fence: ".to_owned()
    } else {
        "backend unavailable: ".to_owned()
    };
    text.append(failure.text.as_str());
    text
}

/// What a page records of a candidate: its outcome, or why it is unresolved.
pub fn recorded_outcome(repaired: Result<StreamDescriptorBackfillOutcomeV1, String>) -> (r:
    StreamDescriptorBackfillOutcomeV1)
    ensures
        match repaired {
            Ok(outcome) => r == outcome,
            Err(e) => r == (StreamDescriptorBackfillOutcomeV1::Unresolved { reason: e }),
        },
{
    match repaired {
        Ok(outcome) => outcome,
        Err(reason) => StreamDescriptorBackfillOutcomeV1::Unresolved { reason },
    }
}

/// The outcome of a repair, after the append of the event where one was due.
pub open spec fn repair_outcome(
    step: StepModel,
    appended: Result<(), StoreFailure>,
) -> Result<StreamDescriptorBackfillOutcomeV1, Seq<char>> {
    match step {
        StepModel::AlreadyPresent { descriptor_event_sequence } => Ok(
            StreamDescriptorBackfillOutcomeV1::AlreadyPresent { descriptor_event_sequence },
        ),
        StepModel::Append { descriptor, .. } => match appended {
            Ok(_) => Ok(
                StreamDescriptorBackfillOutcomeV1::Appended {
                    descriptor_event_sequence: descriptor.descriptor_event_sequence,
                },
            ),
            Err(f) => Err(failure_text(f)),
        },
    }
}

/// The outcome of a repair. `appended` is how the append ended; it is not read
/// where nothing was due.
pub fn backfill_outcome(step: &BackfillStep, appended: &Result<(), StoreFailure>) -> (r: Result<
    StreamDescriptorBackfillOutcomeV1,
    String,
>)
    ensures
        match r {
            Ok(o) => repair_outcome(step@, *appended) == Ok::<
                StreamDescriptorBackfillOutcomeV1,
                Seq<char>,
            >(o),
            Err(e) => repair_outcome(step@, *appended) == Err::<
                StreamDescriptorBackfillOutcomeV1,
                Seq<char>,
            >(e@),
        },
{
    match step {
        BackfillStep::AlreadyPresent { descriptor_event_sequence } => Ok(
            StreamDescriptorBackfillOutcomeV1::AlreadyPresent {
                descriptor_event_sequence: *descriptor_event_sequence,
            },
        ),
        BackfillStep::Append { descriptor, .. } => match appended {
            Ok(_) => Ok(
                StreamDescriptorBackfillOutcomeV1::Appended {
                    descriptor_event_sequence: descriptor.descriptor_event_sequence,
                },
            ),
            Err(f) => Err(persistence_error(f)),
        },
    }
}

/// Why a page of an inventory is refused as a whole.
pub open spec fn page_refusal(
    cursor: Seq<char>,
    cursor_bytes: nat,
    cursor_byte_budget: usize,
    candidates: nat,
    encoded: Result<nat, Seq<char>>,
) -> Option<Seq<char>> {
    if cursor.len() == 0 || trimmed(cursor) != cursor || cursor_bytes > cursor_byte_budget {
        Some("stream descriptor migration cursor is invalid or over budget"@)
    } else if candidates > BACKFILL_BATCH_ITEM_BUDGET {
        Some("stream descriptor backfill batch exceeds 256 items"@)
    } else {
        match encoded {
            Err(e) => Some("stream descriptor inventory encoding failed: "@ + e),
            Ok(n) => if n > BACKFILL_BATCH_BYTE_BUDGET {
                Some("stream descriptor backfill batch exceeds 1048576 bytes"@)
            } else {
                None
            },
        }
    }
}

/// Decides whether a page of an inventory is taken up. `encoded` is the
/// encoding of its candidates.
pub fn admit_inventory_page(
    cursor: &str,
    cursor_byte_budget: usize,
    candidates: usize,
    encoded: &Result<Vec<u8>, String>,
) -> (r: Result<(), String>)
    ensures
        ({
            let refusal = page_refusal(
                cursor@,
                cursor.spec_bytes().len(),
                cursor_byte_budget,
                candidates as nat,
                match *encoded {
                    Ok(bytes) => Ok(bytes@.len()),
                    Err(e) => Err(e@),
                },
            );
            match r {
                Ok(_) => refusal is None,
                Err(e) => refusal == Some(e@),
            }
        }),
{
    let bytes = cursor.as_bytes();
    if cursor.is_empty() || trim(cursor) != cursor.to_owned() || bytes.len()
        > cursor_byte_budget {
        return Err("stream descriptor migration cursor is invalid or over budget".to_owned());
    }
    if candidates > BACKFILL_BATCH_ITEM_BUDGET {
        return Err("stream descriptor backfill batch exceeds 256 items".to_owned());
    }
    match encoded {
        Err(e) => {
            let mut text = "stream descriptor inventory encoding failed: ".to_owned();
            text.append(e.as_str());
            Err(text)
        },
        Ok(bytes) => if bytes.len() > BACKFILL_BATCH_BYTE_BUDGET {
            Err("stream descriptor backfill batch exceeds 1048576 bytes".to_owned())
        } else {
            Ok(())
        },
    }
}

/// Whether a page ends its migration: it is the last one and every candidate
/// of it is resolved.
pub open spec fn page_completes(
    final_page: bool,
    outcomes: Seq<StreamDescriptorBackfillOutcomeV1>,
) -> bool {
    final_page && forall|i: int| 0 <= i < outcomes.len() ==> !((#[trigger] outcomes[i]) is Unresolved)
}

/// Whether a page ends its migration.
pub fn migration_complete(
    final_page: bool,
    outcomes: &Vec<StreamDescriptorBackfillOutcomeV1>,
) -> (r: bool)
    ensures
        r == page_completes(final_page, outcomes@),
{
    if !final_page {
        return false;
    }
    let mut i: usize = 0;
    while i < outcomes.len()
        invariant
            i <= outcomes.len(),
            final_page,
            forall|k: int| 0 <= k < i ==> !((#[trigger] outcomes@[k]) is Unresolved),
        decreases outcomes.len() - i,
    {
        match &outcomes[i] {
            StreamDescriptorBackfillOutcomeV1::Unresolved { .. } => {
                return false;
            },
            _ => {},
        }
        i = i + 1;
    }
    true
}

/// The cursor of a page that is named by its own encoding.
pub open spec fn batch_cursor(encoded: Seq<u8>) -> Seq<char> {
    "batch-sha256:"@ + hex(sha256(encoded))
}

/// The cursor of a page that is named by its own encoding.
pub fn batch_cursor_of(encoded: &Vec<u8>) -> (r: String)
    ensures
        r@ == batch_cursor(encoded@),
{
    let mut text = "batch-sha256:".to_owned();
    text.append(sha256_hex(encoded.as_slice()).as_str());
    text
}

/// A candidate is admitted exactly where the journal, within its budget and at
/// the fence of the inventory, has at the candidate's sequence its latest
/// publication, and that says what the candidate says.
pub proof fn a_candidate_is_borne_out_by_the_journal(
    events: Seq<EnvelopeModel>,
    c: CandidateModel,
    p: ProvenanceModel,
    parent_type: Option<Seq<char>>,
    parent_form: Result<(), String>,
)
    ensures
        ({
            let at = event_at(events, c.content_event_sequence);
            let facts = historical_facts(at->0, p, c.entity_type, parent_type, parent_form);
            &&& admission(events, c, p, parent_type, parent_form) is Ok <==> {
                &&& events.len() <= BACKFILL_HISTORY_EVENT_BUDGET
                &&& events.len() == 0 ==> c.expected_current_sequence == 0
                &&& events.len() > 0 ==> events.last().sequence_nr == c.expected_current_sequence
                &&& at is Some
                &&& at->0.event_type == p.publication_action
                &&& forall|i: int|
                    0 <= i < events.len() && (#[trigger] events[i]).sequence_nr
                        > c.content_event_sequence ==> events[i].event_type
                        != p.publication_action
                &&& facts is Ok
                &&& facts->Ok_0.content_hash == c.content_hash
                &&& facts->Ok_0.byte_length == c.byte_length
                &&& facts->Ok_0.content_type == c.content_type
            }
            &&& admission(events, c, p, parent_type, parent_form) is Ok ==> admission(
                events,
                c,
                p,
                parent_type,
                parent_form,
            )->Ok_0 == facts->Ok_0
        }),
{
}

/// The event at a sequence is one of the journal's with that sequence.
pub proof fn an_event_is_at_its_own_sequence(events: Seq<EnvelopeModel>, n: u64)
    ensures
        event_at(events, n) is Some ==> event_at(events, n)->0.sequence_nr == n && events.contains(
            event_at(events, n)->0,
        ),
        event_at(events, n) is None ==> forall|i: int|
            0 <= i < events.len() ==> (#[trigger] events[i]).sequence_nr != n,
    decreases events.len(),
{
    if events.len() > 0 {
        let rest = events.drop_first();
        if events[0].sequence_nr == n {
            assert(events.contains(events[0]));
        } else {
            an_event_is_at_its_own_sequence(rest, n);
            if event_at(rest, n) is Some {
                let i = choose|i: int| 0 <= i < rest.len() && rest[i] == event_at(rest, n)->0;
                assert(events[i + 1] == rest[i]);
            } else {
                assert forall|i: int| 0 <= i < events.len() implies (
                #[trigger] events[i]).sequence_nr != n by {
                    if i > 0 {
                        assert(rest[i - 1] == events[i]);
                    }
                }
            }
        }
    }
}

/// The last descriptor of a journal is carried by an event after which none is.
pub proof fn the_last_descriptor_is_carried_last(events: Seq<EnvelopeModel>)
    ensures
        last_descriptor(events) is Some ==> exists|i: int|
            {
                &&& 0 <= i < events.len()
                &&& (#[trigger] events[i]).descriptor == last_descriptor(events)
                &&& forall|j: int|
                    i < j < events.len() ==> (#[trigger] events[j]).descriptor is None
            },
        last_descriptor(events) is None ==> forall|i: int|
            0 <= i < events.len() ==> (#[trigger] events[i]).descriptor is None,
    decreases events.len(),
{
    if events.len() > 0 {
        let rest = events.drop_last();
        let n = events.len() - 1;
        if events.last().descriptor is Some {
            assert(events[n].descriptor == last_descriptor(events));
        } else {
            the_last_descriptor_is_carried_last(rest);
            assert forall|i: int| 0 <= i < rest.len() implies #[trigger] rest[i] == events[i] by {}
            if last_descriptor(rest) is Some {
                let i = choose|i: int|
                    {
                        &&& 0 <= i < rest.len()
                        &&& (#[trigger] rest[i]).descriptor == last_descriptor(rest)
                        &&& forall|j: int|
                            i < j < rest.len() ==> (#[trigger] rest[j]).descriptor is None
                    };
                assert(events[i].descriptor == last_descriptor(events));
                assert forall|j: int| i < j < events.len() implies (
                #[trigger] events[j]).descriptor is None by {
                    if j < rest.len() {
                        assert(rest[j].descriptor is None);
                    }
                }
            } else {
                assert forall|j: int| 0 <= j < events.len() implies (
                #[trigger] events[j]).descriptor is None by {
                    if j < rest.len() {
                        assert(rest[j].descriptor is None);
                    }
                }
            }
        }
    }
}

proof fn parts_are_no_longer_than_the_whole(chunks: Seq<Vec<u8>>, n: int, m: int)
    requires
        0 <= n <= m,
    ensures
        joined(chunks, n).len() <= joined(chunks, m).len(),
    decreases m - n,
{
    if n < m {
        parts_are_no_longer_than_the_whole(chunks, n, m - 1);
    }
}

proof fn short_parts_pass(chunks: Seq<Vec<u8>>, n: int, limit: u64)
    requires
        0 <= n,
        joined(chunks, n).len() <= limit,
    ensures
        chunk_refusal(chunks, n, limit) is None,
    decreases n,
{
    if n > 0 {
        parts_are_no_longer_than_the_whole(chunks, n - 1, n);
        short_parts_pass(chunks, n - 1, limit);
    }
}

/// Stored bytes bear a candidate out exactly where they are found, declared and
/// read at the candidate's length, and have its digest.
pub proof fn only_the_named_bytes_bear_a_candidate_out(
    stored: &StoredStream,
    candidate: &StreamDescriptorBackfillCandidateV1,
    r: Result<(), String>,
)
    requires
        call_ensures(verify_stored_stream, (stored, candidate), r),
    ensures
        r is Ok <==> {
            let chunks = stored->Found_chunks@;
            let bytes = joined(chunks, chunks.len() as int);
            &&& *stored is Found
            &&& stored->Found_content_length == candidate.byte_length
            &&& bytes.len() == candidate.byte_length
            &&& content_digest(bytes) == candidate.content_hash@
        },
{
    if *stored is Found {
        let chunks = stored->Found_chunks@;
        if joined(chunks, chunks.len() as int).len() == candidate.byte_length {
            short_parts_pass(chunks, chunks.len() as int, candidate.byte_length);
        }
    }
}

/// A repair never replaces a descriptor that is immutable, nor makes an existing
/// stream immutable, nor goes back to an older publication. The very descriptor
/// that it would write is found to be present.
pub proof fn a_repair_replaces_only_what_is_older(
    events: Seq<EnvelopeModel>,
    c: CandidateModel,
    facts: FactsModel,
    form: Result<(), String>,
    authority: DescriptorAuthority,
    existing: DescriptorModel,
)
    requires
        last_descriptor(events) == Some(existing),
    ensures
        ({
            let step = settlement(events, c, facts, form, authority);
            let same = existing.subject == (c.entity_type, c.entity_id)
                && existing.authorization_parent == facts.authorization_parent
                && existing.content_hash == c.content_hash && existing.storage_object_id
                == c.storage_object_id && existing.byte_length == c.byte_length
                && existing.content_type == c.content_type && existing.content_event_sequence
                == c.content_event_sequence && existing.mutability == c.mutability;
            &&& same <==> step is Ok && step->Ok_0 is AlreadyPresent
            &&& same ==> step->Ok_0->AlreadyPresent_descriptor_event_sequence
                == existing.descriptor_event_sequence
            &&& step is Ok && step->Ok_0 is Append ==> {
                &&& existing.mutability == StreamMutability::Mutable
                &&& c.mutability == StreamMutability::Mutable
                &&& c.content_event_sequence > existing.content_event_sequence
            }
        }),
{
}

/// A repair on a journal without a descriptor, of names in form and with the
/// authority for it, appends one where the last event can be read; and leaves the
/// entity in the status that this event left it in.
pub proof fn a_first_descriptor_is_appended(
    events: Seq<EnvelopeModel>,
    c: CandidateModel,
    facts: FactsModel,
    authority: DescriptorAuthority,
)
    requires
        last_descriptor(events) is None,
        events.len() > 0,
        events.last().event is Ok,
        c.expected_current_sequence < u64::MAX,
        authority_refusal(
            authority,
            repaired(c, facts.authorization_parent, (c.expected_current_sequence + 1) as u64),
        ) is None,
    ensures
        ({
            let step = settlement(events, c, facts, Ok::<(), String>(()), authority);
            &&& step is Ok
            &&& step->Ok_0 is Append
            &&& step->Ok_0->Append_status == events.last().event->Ok_0.to_status
            &&& step->Ok_0->Append_descriptor.descriptor_event_sequence
                == c.expected_current_sequence + 1
        }),
{
}

/// What a repair ended with is what the caller is told: the sequence of the
/// descriptor that was appended or found, or how the store failed.
pub proof fn a_repair_tells_how_it_ended(
    step: &BackfillStep,
    appended: &Result<(), StoreFailure>,
    r: Result<StreamDescriptorBackfillOutcomeV1, String>,
)
    requires
        call_ensures(backfill_outcome, (step, appended), r),
    ensures
        *step is AlreadyPresent ==> r is Ok && r->Ok_0 is AlreadyPresent
            && r->Ok_0->AlreadyPresent_descriptor_event_sequence
            == step->AlreadyPresent_descriptor_event_sequence,
        *step is Append && *appended is Ok ==> r is Ok && r->Ok_0 is Appended
            && r->Ok_0->Appended_descriptor_event_sequence
            == step->Append_descriptor.descriptor_event_sequence,
        *step is Append && *appended is Err ==> r is Err && r->Err_0@ == (
        if appended->Err_0.concurrency {
            "stale fence: "@
        } else {
            "backend unavailable: "@
        }) + appended->Err_0.text@,
{
}

/// A migration is complete exactly where its last page leaves nothing unresolved.
pub proof fn a_migration_completes_with_nothing_unresolved(
    final_page: bool,
    outcomes: &Vec<StreamDescriptorBackfillOutcomeV1>,
    r: bool,
    i: int,
)
    requires
        call_ensures(migration_complete, (final_page, outcomes), r),
    ensures
        r ==> final_page && (0 <= i < outcomes@.len() ==> !(outcomes@[i] is Unresolved)),
        final_page && (forall|k: int|
            0 <= k < outcomes@.len() ==> !((#[trigger] outcomes@[k]) is Unresolved)) ==> r,
{
}

/// A journal is at the sequence of its last event, and at none where it is
/// empty.
pub proof fn a_journal_is_at_its_last_event(events: Seq<EnvelopeModel>)
    ensures
        events.len() == 0 ==> tail_sequence(events) == 0,
        events.len() > 0 ==> tail_sequence(events) == events[events.len() - 1].sequence_nr,
{
}

/// A page of candidates is taken exactly if its cursor is plain and within its
/// budget, it has no more candidates than a batch, and it can be encoded within
/// the budget of a batch.
pub proof fn a_page_keeps_to_its_budgets(
    cursor: Seq<char>,
    cursor_bytes: nat,
    cursor_byte_budget: usize,
    candidates: nat,
    encoded: Result<nat, Seq<char>>,
)
    ensures
        page_refusal(cursor, cursor_bytes, cursor_byte_budget, candidates, encoded) is None <==> {
            &&& cursor.len() > 0
            &&& trimmed(cursor) == cursor
            &&& cursor_bytes <= cursor_byte_budget
            &&& candidates <= 256
            &&& encoded is Ok
            &&& encoded->Ok_0 <= 1_048_576
        },
{
}

} // verus!
