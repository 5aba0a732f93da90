//! Streams of entities: the records that the stream operations work on.

use vstd::prelude::*;
use vstd::string::*;

use crate::json::Json;
use crate::json::JsonModel;
use crate::text::opt_copy;
use crate::text::opt_as_str;
use crate::text::opt_text;
use crate::text::opt_view;
use crate::text::same_opt;
use crate::time::Timestamp;

verus! {

/// Whether a later descriptor may replace this one.
#[derive(Clone, Copy, Debug, PartialEq, Eq, Structural)]
pub enum StreamMutability {
    Mutable,
    Immutable,
}

/// An entity, by its type and its identifier.
#[derive(Clone, Debug, PartialEq, Eq)]
pub struct StreamEntityRef {
    pub entity_type: String,
    pub entity_id: String,
}

impl View for StreamEntityRef {
    type V = (Seq<char>, Seq<char>);

    open spec fn view(&self) -> (Seq<char>, Seq<char>) {
        (self.entity_type@, self.entity_id@)
    }
}

impl StreamEntityRef {
    pub fn copy(&self) -> (r: Self)
        ensures
            r@ == self@,
    {
        StreamEntityRef { entity_type: self.entity_type.clone(), entity_id: self.entity_id.clone() }
    }

    pub fn equals(&self, other: &Self) -> (r: bool)
        ensures
            r == (self@ == other@),
    {
        self.entity_type == other.entity_type && self.entity_id == other.entity_id
    }
}

/// Whether two optional references name the same entity.
pub fn same_ref(a: &Option<StreamEntityRef>, b: &Option<StreamEntityRef>) -> (r: bool)
    ensures
        r == (opt_view(*a) == opt_view(*b)),
{
    match (a, b) {
        (Some(x), Some(y)) => x.equals(y),
        (None, None) => true,
        _ => false,
    }
}

/// A copy of an optional reference.
pub fn copy_ref(a: &Option<StreamEntityRef>) -> (r: Option<StreamEntityRef>)
    ensures
        opt_view(r) == opt_view(*a),
{
    match a {
        Some(x) => Some(x.copy()),
        None => None,
    }
}

/// What one publication of a stream is: whose it is, where its bytes are, and
/// which events say so.
#[derive(Clone, Debug, PartialEq, Eq)]
pub struct StreamDescriptor {
    pub subject: StreamEntityRef,
    pub authorization_parent: Option<StreamEntityRef>,
    pub content_hash: String,
    pub storage_object_id: String,
    pub byte_length: u64,
    pub content_type: Option<String>,
    pub content_event_sequence: u64,
    pub descriptor_event_sequence: u64,
    pub mutability: StreamMutability,
}

/// What a [`StreamDescriptor`] holds.
pub struct DescriptorModel {
    pub subject: (Seq<char>, Seq<char>),
    pub authorization_parent: Option<(Seq<char>, Seq<char>)>,
    pub content_hash: Seq<char>,
    pub storage_object_id: Seq<char>,
    pub byte_length: u64,
    pub content_type: Option<Seq<char>>,
    pub content_event_sequence: u64,
    pub descriptor_event_sequence: u64,
    pub mutability: StreamMutability,
}

impl View for StreamDescriptor {
    type V = DescriptorModel;

    open spec fn view(&self) -> DescriptorModel {
        DescriptorModel {
            subject: self.subject@,
            authorization_parent: opt_view(self.authorization_parent),
            content_hash: self.content_hash@,
            storage_object_id: self.storage_object_id@,
            byte_length: self.byte_length,
            content_type: opt_text(self.content_type),
            content_event_sequence: self.content_event_sequence,
            descriptor_event_sequence: self.descriptor_event_sequence,
            mutability: self.mutability,
        }
    }
}

impl StreamDescriptor {
    pub fn copy(&self) -> (r: Self)
        ensures
            r@ == self@,
    {
        StreamDescriptor {
            subject: self.subject.copy(),
            authorization_parent: copy_ref(&self.authorization_parent),
            content_hash: self.content_hash.clone(),
            storage_object_id: self.storage_object_id.clone(),
            byte_length: self.byte_length,
            content_type: opt_copy(&self.content_type),
            content_event_sequence: self.content_event_sequence,
            descriptor_event_sequence: self.descriptor_event_sequence,
            mutability: self.mutability,
        }
    }
}

/// How the historical publications of a stream are read: which action
/// publishes, and which of its parameters hold the facts.
#[derive(Clone, Debug, PartialEq, Eq)]
pub struct MigrationProvenance {
    pub publication_action: String,
    pub content_hash_parameter: String,
    pub byte_length_parameter: String,
    pub content_type_parameter: Option<String>,
    pub authorization_parent_parameter: Option<String>,
    pub storage_contract_version: u32,
    pub storage_key_prefix: String,
}

/// What a [`MigrationProvenance`] holds.
pub struct ProvenanceModel {
    pub publication_action: Seq<char>,
    pub content_hash_parameter: Seq<char>,
    pub byte_length_parameter: Seq<char>,
    pub content_type_parameter: Option<Seq<char>>,
    pub authorization_parent_parameter: Option<Seq<char>>,
    pub storage_contract_version: u32,
    pub storage_key_prefix: Seq<char>,
}

impl View for MigrationProvenance {
    type V = ProvenanceModel;

    open spec fn view(&self) -> ProvenanceModel {
        ProvenanceModel {
            publication_action: self.publication_action@,
            content_hash_parameter: self.content_hash_parameter@,
            byte_length_parameter: self.byte_length_parameter@,
            content_type_parameter: opt_text(self.content_type_parameter),
            authorization_parent_parameter: opt_text(self.authorization_parent_parameter),
            storage_contract_version: self.storage_contract_version,
            storage_key_prefix: self.storage_key_prefix@,
        }
    }
}

impl MigrationProvenance {
    pub fn copy(&self) -> (r: Self)
        ensures
            r@ == self@,
    {
        MigrationProvenance {
            publication_action: self.publication_action.clone(),
            content_hash_parameter: self.content_hash_parameter.clone(),
            byte_length_parameter: self.byte_length_parameter.clone(),
            content_type_parameter: opt_copy(&self.content_type_parameter),
            authorization_parent_parameter: opt_copy(&self.authorization_parent_parameter),
            storage_contract_version: self.storage_contract_version,
            storage_key_prefix: self.storage_key_prefix.clone(),
        }
    }

    pub fn equals(&self, other: &Self) -> (r: bool)
        ensures
            r == (self@ == other@),
    {
        self.publication_action == other.publication_action && self.content_hash_parameter
            == other.content_hash_parameter && self.byte_length_parameter
            == other.byte_length_parameter && same_opt(
            opt_as_str(&self.content_type_parameter),
            opt_as_str(&other.content_type_parameter),
        ) && same_opt(
            opt_as_str(&self.authorization_parent_parameter),
            opt_as_str(&other.authorization_parent_parameter),
        ) && self.storage_contract_version == other.storage_contract_version
            && self.storage_key_prefix == other.storage_key_prefix
    }
}

/// The stream that the schema declares for one entity type.
#[derive(Clone, Debug, PartialEq, Eq)]
pub struct StreamCapability {
    pub subject_type: String,
    pub mutability: StreamMutability,
    pub authorization_parent_type: Option<String>,
    pub descriptor_contract_v1_active: bool,
    pub migration_provenance: Option<MigrationProvenance>,
}

/// What a [`StreamCapability`] holds.
pub struct CapabilityModel {
    pub subject_type: Seq<char>,
    pub mutability: StreamMutability,
    pub authorization_parent_type: Option<Seq<char>>,
    pub descriptor_contract_v1_active: bool,
    pub migration_provenance: Option<ProvenanceModel>,
}

impl View for StreamCapability {
    type V = CapabilityModel;

    open spec fn view(&self) -> CapabilityModel {
        CapabilityModel {
            subject_type: self.subject_type@,
            mutability: self.mutability,
            authorization_parent_type: opt_text(self.authorization_parent_type),
            descriptor_contract_v1_active: self.descriptor_contract_v1_active,
            migration_provenance: opt_view(self.migration_provenance),
        }
    }
}

impl StreamCapability {
    pub fn copy(&self) -> (r: Self)
        ensures
            r@ == self@,
    {
        let migration_provenance = match &self.migration_provenance {
            Some(p) => Some(p.copy()),
            None => None,
        };
        StreamCapability {
            subject_type: self.subject_type.clone(),
            mutability: self.mutability,
            authorization_parent_type: opt_copy(&self.authorization_parent_type),
            descriptor_contract_v1_active: self.descriptor_contract_v1_active,
            migration_provenance,
        }
    }

    pub fn equals(&self, other: &Self) -> (r: bool)
        ensures
            r == (self@ == other@),
    {
        let provenance = match (&self.migration_provenance, &other.migration_provenance) {
            (Some(a), Some(b)) => a.equals(b),
            (None, None) => true,
            _ => false,
        };
        provenance && self.subject_type == other.subject_type && self.mutability
            == other.mutability && same_opt(
            opt_as_str(&self.authorization_parent_type),
            opt_as_str(&other.authorization_parent_type),
        ) && self.descriptor_contract_v1_active == other.descriptor_contract_v1_active
    }
}

/// One event of an entity's journal, as its action wrote it.
#[derive(Debug, PartialEq, Eq)]
pub struct EntityEvent {
    pub action: String,
    pub from_status: String,
    pub to_status: String,
    pub timestamp: Timestamp,
    pub params: Json,
    pub idempotency_key: Option<String>,
}

/// What an [`EntityEvent`] holds.
pub struct EventModel {
    pub action: Seq<char>,
    pub from_status: Seq<char>,
    pub to_status: Seq<char>,
    pub timestamp: Timestamp,
    pub params: JsonModel,
    pub idempotency_key: Option<Seq<char>>,
}

impl View for EntityEvent {
    type V = EventModel;

    open spec fn view(&self) -> EventModel {
        EventModel {
            action: self.action@,
            from_status: self.from_status@,
            to_status: self.to_status@,
            timestamp: self.timestamp,
            params: self.params@,
            idempotency_key: opt_text(self.idempotency_key),
        }
    }
}

impl EntityEvent {
    pub fn copy(&self) -> (r: Self)
        ensures
            r@ == self@,
    {
        EntityEvent {
            action: self.action.clone(),
            from_status: self.from_status.clone(),
            to_status: self.to_status.clone(),
            timestamp: self.timestamp,
            params: self.params.copy(),
            idempotency_key: opt_copy(&self.idempotency_key),
        }
    }
}

/// A stored journal entry: its sequence, its declared type, the event that its
/// payload decodes to (or why it does not), and the stream descriptor that the
/// kernel attached to it.
#[derive(Debug, PartialEq, Eq)]
pub struct Envelope {
    pub sequence_nr: u64,
    pub event_type: String,
    pub event: Result<EntityEvent, String>,
    pub descriptor: Option<StreamDescriptor>,
}

/// What an [`Envelope`] holds.
pub struct EnvelopeModel {
    pub sequence_nr: u64,
    pub event_type: Seq<char>,
    pub event: Result<EventModel, Seq<char>>,
    pub descriptor: Option<DescriptorModel>,
}

impl View for Envelope {
    type V = EnvelopeModel;

    open spec fn view(&self) -> EnvelopeModel {
        EnvelopeModel {
            sequence_nr: self.sequence_nr,
            event_type: self.event_type@,
            event: crate::text::outcome(self.event),
            descriptor: opt_view(self.descriptor),
        }
    }
}

/// Two capabilities are the same only if they agree in every part.
pub proof fn capabilities_agree_in_every_part(
    a: &StreamCapability,
    b: &StreamCapability,
    r: bool,
)
    requires
        call_ensures(StreamCapability::equals, (a, b), r),
    ensures
        r <==> {
            &&& a.subject_type@ == b.subject_type@
            &&& a.mutability == b.mutability
            &&& opt_text(a.authorization_parent_type) == opt_text(b.authorization_parent_type)
            &&& a.descriptor_contract_v1_active == b.descriptor_contract_v1_active
            &&& opt_view(a.migration_provenance) == opt_view(b.migration_provenance)
        },
{
}

/// Two accounts of how streams were published are the same only if they agree in
/// every part.
pub proof fn provenances_agree_in_every_part(
    a: &MigrationProvenance,
    b: &MigrationProvenance,
    r: bool,
)
    requires
        call_ensures(MigrationProvenance::equals, (a, b), r),
    ensures
        r <==> {
            &&& a.publication_action@ == b.publication_action@
            &&& a.content_hash_parameter@ == b.content_hash_parameter@
            &&& a.byte_length_parameter@ == b.byte_length_parameter@
            &&& opt_text(a.content_type_parameter) == opt_text(b.content_type_parameter)
            &&& opt_text(a.authorization_parent_parameter) == opt_text(
                b.authorization_parent_parameter,
            )
            &&& a.storage_contract_version == b.storage_contract_version
            &&& a.storage_key_prefix@ == b.storage_key_prefix@
        },
{
}

/// A copy of a descriptor has every part of it.
pub proof fn a_copy_has_every_part(a: &StreamDescriptor, r: StreamDescriptor)
    requires
        call_ensures(StreamDescriptor::copy, (a,), r),
    ensures
        r.subject.entity_type@ == a.subject.entity_type@,
        r.subject.entity_id@ == a.subject.entity_id@,
        opt_view(r.authorization_parent) == opt_view(a.authorization_parent),
        r.content_hash@ == a.content_hash@,
        r.storage_object_id@ == a.storage_object_id@,
        r.byte_length == a.byte_length,
        opt_text(r.content_type) == opt_text(a.content_type),
        r.content_event_sequence == a.content_event_sequence,
        r.descriptor_event_sequence == a.descriptor_event_sequence,
        r.mutability == a.mutability,
{
}

} // verus!
