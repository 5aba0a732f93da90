//! Historical stream publications: what an old event says of a stream, and the
//! evidence that a repaired descriptor rests on.

use vstd::prelude::*;
use vstd::string::*;

use crate::json::text_member;
use crate::json::unsigned_value;
use crate::json::member;
use crate::stream::same_ref;
use crate::stream::CapabilityModel;
use crate::stream::DescriptorModel;
use crate::stream::Envelope;
use crate::stream::EnvelopeModel;
use crate::stream::EventModel;
use crate::stream::MigrationProvenance;
use crate::stream::ProvenanceModel;
use crate::stream::StreamCapability;
use crate::stream::StreamDescriptor;
use crate::stream::StreamEntityRef;
use crate::text::after_last;
use crate::text::after_last_char;
use crate::text::filter_keeps_exactly;
use crate::text::opt_as_str;
use crate::text::opt_text;
use crate::text::opt_str;
use crate::text::opt_view;
use crate::text::outcome;
use crate::text::same;
use crate::text::same_opt;
use crate::text::views;

verus! {

/// The most events of one stream that a repair reads.
pub const BACKFILL_HISTORY_EVENT_BUDGET: usize = 1_024;

/// The name of a type without its namespace.
pub open spec fn local_name(t: Seq<char>) -> Seq<char> {
    after_last(t, '.')
}

/// The name of a type without its namespace.
pub fn local_type(value: &str) -> (r: String)
    ensures
        r@ == local_name(value@),
{
    after_last_char(value, '.')
}

/// What one historical publication says of its stream.
#[derive(Clone, Debug, PartialEq, Eq)]
pub struct HistoricalStreamFacts {
    pub content_hash: String,
    pub byte_length: u64,
    pub content_type: Option<String>,
    pub authorization_parent: Option<StreamEntityRef>,
}

/// What [`HistoricalStreamFacts`] hold.
pub struct FactsModel {
    pub content_hash: Seq<char>,
    pub byte_length: u64,
    pub content_type: Option<Seq<char>>,
    pub authorization_parent: Option<(Seq<char>, Seq<char>)>,
}

impl View for HistoricalStreamFacts {
    type V = FactsModel;

    open spec fn view(&self) -> FactsModel {
        FactsModel {
            content_hash: self.content_hash@,
            byte_length: self.byte_length,
            content_type: opt_text(self.content_type),
            authorization_parent: opt_view(self.authorization_parent),
        }
    }
}

/// The provenance that a repaired descriptor was written with.
#[derive(Clone, Debug, PartialEq, Eq)]
pub struct BackfillProvenanceEvidence {
    pub provenance: MigrationProvenance,
    pub authorization_parent_type: Option<String>,
}

/// Whether the relation of a descriptor to its parent is the declared one.
pub open spec fn parent_agrees(
    declared: Option<Seq<char>>,
    actual: Option<(Seq<char>, Seq<char>)>,
) -> bool {
    match (declared, actual) {
        (None, None) => true,
        (Some(expected), Some(parent)) => local_name(expected) == parent.0,
        _ => false,
    }
}

fn parent_agrees_of(declared: &Option<String>, actual: &Option<StreamEntityRef>) -> (r: bool)
    ensures
        r == parent_agrees(opt_text(*declared), opt_view(*actual)),
{
    match (declared, actual) {
        (None, None) => true,
        (Some(expected), Some(parent)) => local_type(expected.as_str()) == parent.entity_type,
        _ => false,
    }
}

/// Why a descriptor is not the one that a verified capability allows.
pub open spec fn capability_refusal(
    d: DescriptorModel,
    c: CapabilityModel,
) -> Option<Seq<char>> {
    if local_name(c.subject_type) != d.subject.0 {
        Some("stream descriptor subject differs from verified migration capability"@)
    } else if c.mutability != d.mutability || !parent_agrees(
        c.authorization_parent_type,
        d.authorization_parent,
    ) {
        Some("stream descriptor relation or mutability differs from verified migration capability"@)
    } else {
        None
    }
}

/// Holds a descriptor against the verified capability of its migration.
pub fn validate_verified_capability(
    descriptor: &StreamDescriptor,
    capability: &StreamCapability,
) -> (r: Result<(), String>)
    ensures
        match r {
            Ok(_) => capability_refusal(descriptor@, capability@) is None,
            Err(e) => capability_refusal(descriptor@, capability@) == Some(e@),
        },
{
    if local_type(capability.subject_type.as_str()) != descriptor.subject.entity_type {
        return Err("stream descriptor subject differs from verified migration capability".to_owned());
    }
    if capability.mutability != descriptor.mutability || !parent_agrees_of(
        &capability.authorization_parent_type,
        &descriptor.authorization_parent,
    ) {
        return Err(
            "stream descriptor relation or mutability differs from verified migration capability".to_owned(),
        );
    }
    Ok(())
}

/// Why a descriptor is not the one stream of its type that the schema
/// declares.
pub open spec fn schema_refusal(d: DescriptorModel, declared: Seq<CapabilityModel>) -> Option<
    Seq<char>,
> {
    let own = declared.filter(|c: CapabilityModel| local_name(c.subject_type) == d.subject.0);
    if own.len() != 1 {
        Some("stream descriptor subject capability is missing or ambiguous"@)
    } else if own[0].mutability != d.mutability || !parent_agrees(
        own[0].authorization_parent_type,
        d.authorization_parent,
    ) {
        Some("stream descriptor relation or mutability differs from CSDL"@)
    } else {
        None
    }
}

/// Holds a descriptor against the streams that its schema declares.
pub fn validate_stream_descriptor_capability(
    declared: &Vec<StreamCapability>,
    descriptor: &StreamDescriptor,
) -> (r: Result<(), String>)
    ensures
        match r {
            Ok(_) => schema_refusal(descriptor@, views(declared@)) is None,
            Err(e) => schema_refusal(descriptor@, views(declared@)) == Some(e@),
        },
{
    let ghost all = views(declared@);
    let ghost pred = |c: CapabilityModel| local_name(c.subject_type) == descriptor@.subject.0;
    let mut found: Option<usize> = None;
    let mut count: usize = 0;
    let mut i: usize = 0;
    proof {
        assert(all.take(0).filter(pred) =~= Seq::<CapabilityModel>::empty());
    }
    while i < declared.len()
        invariant
            i <= declared.len(),
            count <= i,
            all == views(declared@),
            pred == (|c: CapabilityModel| local_name(c.subject_type) == descriptor@.subject.0),
            all.take(i as int).filter(pred).len() == count,
            count > 0 ==> found is Some && found->0 < declared.len()
                && all.take(i as int).filter(pred).last() == declared@[found->0 as int]@,
        decreases declared.len() - i,
    {
        proof {
            assert(all.take(i + 1) =~= all.take(i as int).push(all[i as int]));
            assert(all.take(i + 1).drop_last() =~= all.take(i as int));
            reveal(Seq::filter);
        }
        if local_type(declared[i].subject_type.as_str()) == descriptor.subject.entity_type {
            found = Some(i);
            count = count + 1;
        }
        i = i + 1;
    }
    proof {
        assert(all.take(all.len() as int) =~= all);
    }
    if count != 1 {
        return Err("stream descriptor subject capability is missing or ambiguous".to_owned());
    }
    match found {
        Some(k) => {
            let capability = &declared[k];
            if capability.mutability != descriptor.mutability || !parent_agrees_of(
                &capability.authorization_parent_type,
                &descriptor.authorization_parent,
            ) {
                return Err(
                    "stream descriptor relation or mutability differs from CSDL".to_owned(),
                );
            }
            Ok(())
        },
        None => Err("stream descriptor subject capability is missing or ambiguous".to_owned()),
    }
}

/// The parent that a publication names, where its provenance has one. `form` is
/// what the constructor of references says of the parent's names.
pub open spec fn historical_parent(
    event: EventModel,
    p: ProvenanceModel,
    entity_type: Seq<char>,
    parent_type: Option<Seq<char>>,
    form: Result<(), String>,
) -> Result<Option<(Seq<char>, Seq<char>)>, Seq<char>> {
    match (p.authorization_parent_parameter, parent_type) {
        (None, None) => Ok(None),
        (Some(parameter), Some(kind)) => match text_member(event.params, parameter) {
            Some(id) => match form {
                Ok(_) => Ok(Some((local_name(kind), id))),
                Err(e) => Err(e@),
            },
            None => Err("historical stream event has no mapped parent parameter '"@ + parameter + "'"@),
        },
        _ => Err("stream migration provenance for '"@ + entity_type + "' is incomplete"@),
    }
}

/// The media type that a publication names, where its provenance has one.
pub open spec fn historical_content_type(event: EventModel, p: ProvenanceModel) -> Result<
    Option<Seq<char>>,
    Seq<char>,
> {
    match p.content_type_parameter {
        None => Ok(None),
        Some(parameter) => match text_member(event.params, parameter) {
            Some(t) => Ok(Some(t)),
            None => Err(
                "historical stream event has no mapped content type parameter '"@ + parameter + "'"@,
            ),
        },
    }
}

/// What a historical publication says of its stream, or why it says nothing.
pub open spec fn historical_facts(
    envelope: EnvelopeModel,
    p: ProvenanceModel,
    entity_type: Seq<char>,
    parent_type: Option<Seq<char>>,
    parent_form: Result<(), String>,
) -> Result<FactsModel, Seq<char>> {
    match envelope.event {
        Err(e) => Err("historical stream event is invalid: "@ + e),
        Ok(event) => if event.action != envelope.event_type {
            Err("historical stream event action differs from its envelope"@)
        } else {
            match (
                text_member(event.params, p.content_hash_parameter),
                unsigned_value(member(event.params, p.byte_length_parameter)),
            ) {
                (None, _) => Err("historical stream event has no mapped content hash"@),
                (_, None) => Err("historical stream event has no non-negative mapped byte length"@),
                (Some(content_hash), Some(byte_length)) => match historical_content_type(event, p) {
                    Err(e) => Err(e),
                    Ok(content_type) => match historical_parent(
                        event,
                        p,
                        entity_type,
                        parent_type,
                        parent_form,
                    ) {
                        Err(e) => Err(e),
                        Ok(authorization_parent) => Ok(
                            FactsModel {
                                content_hash,
                                byte_length,
                                content_type,
                                authorization_parent,
                            },
                        ),
                    },
                },
            }
        },
    }
}

/// Reads what a historical publication says of its stream. `parent_form` is what
/// the constructor of references says of the names of the parent; it is not read
/// where the publication names none.
pub fn historical_stream_facts(
    envelope: &Envelope,
    provenance: &MigrationProvenance,
    entity_type: &str,
    authorization_parent_type: Option<&str>,
    parent_form: &Result<(), String>,
) -> (r: Result<HistoricalStreamFacts, String>)
    ensures
        outcome(r) == historical_facts(
            envelope@,
            provenance@,
            entity_type@,
            opt_str(authorization_parent_type),
            *parent_form,
        ),
{
    let event = match &envelope.event {
        Ok(event) => event,
        Err(e) => {
            let mut text = "historical stream event is invalid: ".to_owned();
            text.append(e.as_str());
            return Err(text);
        },
    };
    if event.action != envelope.event_type {
        return Err("historical stream event action differs from its envelope".to_owned());
    }
    let content_hash = match event.params.get_text(provenance.content_hash_parameter.as_str()) {
        Some(v) => v.to_owned(),
        None => return Err("historical stream event has no mapped content hash".to_owned()),
    };
    let byte_length: u64 = match event.params.get_unsigned(
        provenance.byte_length_parameter.as_str(),
    ) {
        Some(v) => v,
        None => return Err(
            "historical stream event has no non-negative mapped byte length".to_owned(),
        ),
    };
    let content_type = match &provenance.content_type_parameter {
        None => None,
        Some(parameter) => match event.params.get_text(parameter.as_str()) {
            Some(v) => Some(v.to_owned()),
            None => {
                let mut text = "historical stream event has no mapped content type parameter '".to_owned();
                text.append(parameter.as_str());
                text.append("'");
                return Err(text);
            },
        },
    };
    let authorization_parent = match (
        &provenance.authorization_parent_parameter,
        authorization_parent_type,
    ) {
        (None, None) => None,
        (Some(parameter), Some(kind)) => match event.params.get_text(parameter.as_str()) {
            Some(id) => match parent_form {
                Ok(_) => Some(
                    StreamEntityRef { entity_type: local_type(kind), entity_id: id.to_owned() },
                ),
                Err(e) => return Err(e.clone()),
            },
            None => {
                let mut text = "historical stream event has no mapped parent parameter '".to_owned();
                text.append(parameter.as_str());
                text.append("'");
                return Err(text);
            },
        },
        _ => {
            let mut text = "stream migration provenance for '".to_owned();
            text.append(entity_type);
            text.append("' is incomplete");
            return Err(text);
        },
    };
    Ok(HistoricalStreamFacts { content_hash, byte_length, content_type, authorization_parent })
}

/// The provenance of the file streams that predate declared provenance.
pub open spec fn legacy_provenance(entity_type: Seq<char>) -> Result<ProvenanceModel, Seq<char>> {
    if entity_type == "File"@ || entity_type == "FileVersion"@ {
        Ok(
            ProvenanceModel {
                publication_action: if entity_type == "File"@ {
                    "StreamUpdated"@
                } else {
                    "Create"@
                },
                content_hash_parameter: "content_hash"@,
                byte_length_parameter: "size_bytes"@,
                content_type_parameter: Some("mime_type"@),
                authorization_parent_parameter: if entity_type == "File"@ {
                    None
                } else {
                    Some("file_id"@)
                },
                storage_contract_version: 1,
                storage_key_prefix: "temper-fs/"@,
            },
        )
    } else {
        Err("legacy backfill supports only TemperFS; use the governed operation"@)
    }
}

/// The provenance of the file streams that predate declared provenance.
pub fn legacy_temper_fs_provenance(entity_type: &str) -> (r: Result<MigrationProvenance, String>)
    ensures
        outcome(r) == legacy_provenance(entity_type@),
{
    let (publication_action, authorization_parent_parameter) = if same(entity_type, "File") {
        ("StreamUpdated".to_owned(), None)
    } else if same(entity_type, "FileVersion") {
        ("Create".to_owned(), Some("file_id".to_owned()))
    } else {
        return Err("legacy backfill supports only TemperFS; use the governed operation".to_owned());
    };
    Ok(
        MigrationProvenance {
            publication_action,
            content_hash_parameter: "content_hash".to_owned(),
            byte_length_parameter: "size_bytes".to_owned(),
            content_type_parameter: Some("mime_type".to_owned()),
            authorization_parent_parameter,
            storage_contract_version: 1,
            storage_key_prefix: "temper-fs/".to_owned(),
        },
    )
}

/// The type of the entity that a historical file stream answers to.
pub open spec fn legacy_parent_type(entity_type: Seq<char>) -> Option<Seq<char>> {
    if entity_type == "FileVersion"@ {
        Some("Temper.FS.File"@)
    } else {
        None
    }
}

/// The type of the entity that a historical file stream answers to.
pub fn legacy_temper_fs_parent_type(entity_type: &str) -> (r: Option<&'static str>)
    ensures
        opt_str(r) == legacy_parent_type(entity_type@),
{
    if same(entity_type, "FileVersion") {
        Some("Temper.FS.File")
    } else {
        None
    }
}

/// How many events stand between a publication and the descriptor that was
/// written for it, or why the two do not belong together.
pub open spec fn replay_gap(
    content_events: Seq<EnvelopeModel>,
    descriptor_events: Seq<EnvelopeModel>,
    evidence: Result<(ProvenanceModel, Option<Seq<char>>), Seq<char>>,
    d: DescriptorModel,
    parent_form: Result<(), String>,
) -> Result<int, Seq<char>> {
    if content_events.len() != 1 {
        Err("backfill content provenance event is unavailable"@)
    } else if content_events[0].sequence_nr != d.content_event_sequence {
        Err("backfill content provenance sequence is inconsistent"@)
    } else if descriptor_events.len() != 1 {
        Err("backfill descriptor event is unavailable"@)
    } else {
        match descriptor_events[0].event {
            Err(e) => Err("backfill descriptor event is invalid: "@ + e),
            Ok(event) => if member(event.params, "migration_provenance"@) is None {
                Err("backfill descriptor has no verified migration provenance"@)
            } else {
                match evidence {
                    Err(e) => Err("backfill migration provenance is invalid: "@ + e),
                    Ok((p, parent_type)) => if content_events[0].event_type
                        != p.publication_action {
                        Err("backfill content provenance has the wrong event type"@)
                    } else {
                        match historical_facts(
                            content_events[0],
                            p,
                            d.subject.0,
                            parent_type,
                            parent_form,
                        ) {
                            Err(e) => Err(e),
                            Ok(facts) => if facts.content_hash != d.content_hash
                                || facts.byte_length != d.byte_length || facts.content_type
                                != d.content_type || facts.authorization_parent
                                != d.authorization_parent {
                                Err("backfill descriptor differs from historical event provenance"@)
                            } else if d.descriptor_event_sequence <= d.content_event_sequence {
                                Err("backfill descriptor sequence ordering is invalid"@)
                            } else if d.descriptor_event_sequence - d.content_event_sequence - 1
                                > usize::MAX {
                                Err("backfill provenance exceeds platform size"@)
                            } else if d.descriptor_event_sequence - d.content_event_sequence - 1
                                > BACKFILL_HISTORY_EVENT_BUDGET {
                                Err("backfill provenance exceeds its replay budget"@)
                            } else {
                                Ok(d.descriptor_event_sequence - d.content_event_sequence - 1)
                            },
                        }
                    },
                }
            },
        }
    }
}

/// Holds a repaired descriptor against the publication that it was written
/// for, and tells how many events between the two are still to be read. The
/// `evidence` is the decoded `migration_provenance` of the descriptor's event.
pub fn replay_provenance_gap(
    content_events: &Vec<Envelope>,
    descriptor_events: &Vec<Envelope>,
    evidence: &Result<BackfillProvenanceEvidence, String>,
    descriptor: &StreamDescriptor,
    parent_form: &Result<(), String>,
) -> (r: Result<usize, String>)
    ensures
        ({
            let read = match *evidence {
                Ok(e) => Ok((e.provenance@, opt_text(e.authorization_parent_type))),
                Err(e) => Err(e@),
            };
            let expected = replay_gap(
                views(content_events@),
                views(descriptor_events@),
                read,
                descriptor@,
                *parent_form,
            );
            match r {
                Ok(n) => expected == Ok::<int, Seq<char>>(n as int),
                Err(e) => expected == Err::<int, Seq<char>>(e@),
            }
        }),
{
    proof {
        assert(views(content_events@).len() == content_events@.len());
        assert(views(descriptor_events@).len() == descriptor_events@.len());
    }
    if content_events.len() != 1 {
        return Err("backfill content provenance event is unavailable".to_owned());
    }
    let content_event = &content_events[0];
    if content_event.sequence_nr != descriptor.content_event_sequence {
        return Err("backfill content provenance sequence is inconsistent".to_owned());
    }
    if descriptor_events.len() != 1 {
        return Err("backfill descriptor event is unavailable".to_owned());
    }
    let event = match &descriptor_events[0].event {
        Ok(event) => event,
        Err(e) => {
            let mut text = "backfill descriptor event is invalid: ".to_owned();
            text.append(e.as_str());
            return Err(text);
        },
    };
    if event.params.get("migration_provenance").is_none() {
        return Err("backfill descriptor has no verified migration provenance".to_owned());
    }
    let evidence = match evidence {
        Ok(e) => e,
        Err(e) => {
            let mut text = "backfill migration provenance is invalid: ".to_owned();
            text.append(e.as_str());
            return Err(text);
        },
    };
    if content_event.event_type != evidence.provenance.publication_action {
        return Err("backfill content provenance has the wrong event type".to_owned());
    }
    let facts = match historical_stream_facts(
        content_event,
        &evidence.provenance,
        descriptor.subject.entity_type.as_str(),
        opt_as_str(&evidence.authorization_parent_type),
        parent_form,
    ) {
        Ok(facts) => facts,
        Err(e) => return Err(e),
    };
    if facts.content_hash != descriptor.content_hash || facts.byte_length != descriptor.byte_length
        || !same_opt(opt_as_str(&facts.content_type), opt_as_str(&descriptor.content_type))
        || !same_ref(&facts.authorization_parent, &descriptor.authorization_parent) {
        return Err("backfill descriptor differs from historical event provenance".to_owned());
    }
    if descriptor.descriptor_event_sequence <= descriptor.content_event_sequence {
        return Err("backfill descriptor sequence ordering is invalid".to_owned());
    }
    let gap: u64 = descriptor.descriptor_event_sequence - descriptor.content_event_sequence - 1;
    if gap > usize::MAX as u64 {
        return Err("backfill provenance exceeds platform size".to_owned());
    }
    if gap as usize > BACKFILL_HISTORY_EVENT_BUDGET {
        return Err("backfill provenance exceeds its replay budget".to_owned());
    }
    Ok(gap as usize)
}

/// Whether `events` are the `gap` events that follow `content_sequence`, none
/// of them another publication.
pub open spec fn gap_is_covered(
    events: Seq<EnvelopeModel>,
    content_sequence: u64,
    gap: int,
    publication_action: Seq<char>,
) -> bool {
    &&& events.len() == gap
    &&& forall|i: int|
        0 <= i < gap ==> (#[trigger] events[i]).sequence_nr == content_sequence + i + 1
            && events[i].event_type != publication_action
}

/// Holds the events between a publication and its descriptor to be all there
/// and none of them a later publication.
pub fn validate_replay_gap(
    intermediate: &Vec<Envelope>,
    content_sequence: u64,
    gap: usize,
    publication_action: &str,
) -> (r: Result<(), String>)
    ensures
        match r {
            Ok(_) => gap_is_covered(
                views(intermediate@),
                content_sequence,
                gap as int,
                publication_action@,
            ),
            Err(e) => !gap_is_covered(
                views(intermediate@),
                content_sequence,
                gap as int,
                publication_action@,
            ) && e@ == "backfill provenance does not cover the latest content publication"@,
        },
{
    let ghost all = views(intermediate@);
    proof {
        assert(all.len() == intermediate@.len());
    }
    if intermediate.len() != gap {
        return Err("backfill provenance does not cover the latest content publication".to_owned());
    }
    let mut i: usize = 0;
    while i < intermediate.len()
        invariant
            i <= intermediate.len(),
            intermediate.len() == gap,
            all == views(intermediate@),
            forall|k: int|
                0 <= k < i ==> (#[trigger] all[k]).sequence_nr == content_sequence + k + 1
                    && all[k].event_type != publication_action@,
        decreases intermediate.len() - i,
    {
        let event = &intermediate[i];
        proof {
            assert(all[i as int] == event@);
        }
        let distance: u128 = i as u128 + 1;
        if event.sequence_nr as u128 != content_sequence as u128 + distance || same(
            event.event_type.as_str(),
            publication_action,
        ) {
            return Err(
                "backfill provenance does not cover the latest content publication".to_owned(),
            );
        }
        i = i + 1;
    }
    Ok(())
}

/// A historical publication says of its stream what its parameters hold under the
/// names that its provenance maps: it is read exactly where the event decodes, is
/// of its declared type, and has a value of the right kind under each of them.
pub proof fn a_publication_says_what_its_parameters_hold(
    envelope: &Envelope,
    provenance: &MigrationProvenance,
    entity_type: &str,
    parent_type: Option<&str>,
    parent_form: &Result<(), String>,
    r: Result<HistoricalStreamFacts, String>,
)
    requires
        call_ensures(
            historical_stream_facts,
            (envelope, provenance, entity_type, parent_type, parent_form),
            r,
        ),
    ensures
        ({
            let params = envelope.event->Ok_0.params@;
            let p = provenance@;
            let hash = text_member(params, p.content_hash_parameter);
            let length = unsigned_value(member(params, p.byte_length_parameter));
            &&& r is Ok ==> {
                &&& envelope.event is Ok
                &&& envelope.event->Ok_0.action@ == envelope.event_type@
                &&& hash == Some(r->Ok_0@.content_hash)
                &&& length == Some(r->Ok_0@.byte_length)
                &&& p.content_type_parameter is None ==> r->Ok_0@.content_type is None
                &&& p.content_type_parameter is Some ==> r->Ok_0@.content_type is Some
                    && text_member(params, p.content_type_parameter->0) == r->Ok_0@.content_type
                &&& p.authorization_parent_parameter is None <==> parent_type is None
                &&& parent_type is None ==> r->Ok_0@.authorization_parent is None
                &&& parent_type is Some ==> r->Ok_0@.authorization_parent is Some
                    && (r->Ok_0@.authorization_parent->0).0 == local_name(parent_type->0@)
                    && text_member(params, p.authorization_parent_parameter->0) == Some(
                    (r->Ok_0@.authorization_parent->0).1,
                )
            }
            &&& envelope.event is Ok && envelope.event->Ok_0.action@ == envelope.event_type@
                && hash is Some && length is Some && p.content_type_parameter is None
                && p.authorization_parent_parameter is None && parent_type is None ==> r is Ok
        }),
{
}

/// A descriptor is held to the capability of its subject: its type, whether it may
/// be replaced, and the type of its parent.
pub proof fn a_descriptor_keeps_to_its_capability(d: DescriptorModel, c: CapabilityModel)
    ensures
        capability_refusal(d, c) is None <==> {
            &&& local_name(c.subject_type) == d.subject.0
            &&& c.mutability == d.mutability
            &&& c.authorization_parent_type is None <==> d.authorization_parent is None
            &&& c.authorization_parent_type is Some && d.authorization_parent is Some ==> local_name(
                c.authorization_parent_type->0,
            ) == (d.authorization_parent->0).0
        },
{
}

/// A descriptor is held to the one capability that its schema declares for its
/// type.
pub proof fn a_descriptor_keeps_to_its_schema(
    d: DescriptorModel,
    declared: Seq<CapabilityModel>,
    c: CapabilityModel,
)
    requires
        schema_refusal(d, declared) is None,
        declared.contains(c),
        local_name(c.subject_type) == d.subject.0,
    ensures
        c.mutability == d.mutability,
        c.authorization_parent_type is None <==> d.authorization_parent is None,
        c.authorization_parent_type is Some ==> local_name(c.authorization_parent_type->0)
            == (d.authorization_parent->0).0,
{
    let pred = |c: CapabilityModel| local_name(c.subject_type) == d.subject.0;
    filter_keeps_exactly(declared, pred, c);
    let own = declared.filter(pred);
    let i = choose|i: int| 0 <= i < own.len() && own[i] == c;
    assert(own[i] == own[0]);
}

/// A repaired descriptor stands only on the publication that it was written for:
/// what the publication says is what the descriptor says, and the descriptor
/// follows it within the budget.
pub proof fn a_repaired_descriptor_stands_on_its_publication(
    content_events: &Vec<Envelope>,
    descriptor_events: &Vec<Envelope>,
    evidence: &Result<BackfillProvenanceEvidence, String>,
    descriptor: &StreamDescriptor,
    parent_form: &Result<(), String>,
    r: Result<usize, String>,
)
    requires
        call_ensures(
            replay_provenance_gap,
            (content_events, descriptor_events, evidence, descriptor, parent_form),
            r,
        ),
        r is Ok,
    ensures
        content_events@.len() == 1,
        descriptor_events@.len() == 1,
        *evidence is Ok,
        content_events@[0].sequence_nr == descriptor.content_event_sequence,
        content_events@[0].event_type@ == evidence->Ok_0.provenance@.publication_action,
        ({
            let facts = historical_facts(
                content_events@[0]@,
                evidence->Ok_0.provenance@,
                descriptor@.subject.0,
                opt_text(evidence->Ok_0.authorization_parent_type),
                *parent_form,
            );
            &&& facts is Ok
            &&& facts->Ok_0.content_hash == descriptor@.content_hash
            &&& facts->Ok_0.byte_length == descriptor@.byte_length
            &&& facts->Ok_0.content_type == descriptor@.content_type
            &&& facts->Ok_0.authorization_parent == descriptor@.authorization_parent
        }),
        r->Ok_0 == descriptor.descriptor_event_sequence - descriptor.content_event_sequence - 1,
        r->Ok_0 <= BACKFILL_HISTORY_EVENT_BUDGET,
{
    assert(views(content_events@).len() == content_events@.len());
    assert(views(descriptor_events@).len() == descriptor_events@.len());
    assert(views(content_events@)[0] == content_events@[0]@);
}

/// The events between a publication and its descriptor are all there, in order,
/// and none of them publishes the stream.
pub proof fn no_publication_hides_in_the_gap(
    intermediate: &Vec<Envelope>,
    content_sequence: u64,
    gap: usize,
    publication_action: &str,
    r: Result<(), String>,
    i: int,
)
    requires
        call_ensures(
            validate_replay_gap,
            (intermediate, content_sequence, gap, publication_action),
            r,
        ),
        r is Ok,
    ensures
        intermediate@.len() == gap,
        0 <= i < gap ==> intermediate@[i].sequence_nr == content_sequence + i + 1
            && intermediate@[i].event_type@ != publication_action@,
{
    let all = views(intermediate@);
    assert(all.len() == intermediate@.len());
    if 0 <= i < gap {
        assert(all[i] == intermediate@[i]@);
    }
}

/// The streams that predate declared provenance are those of files and their
/// versions, each by its own publication.
pub proof fn only_files_have_legacy_provenance(entity_type: Seq<char>)
    ensures
        legacy_provenance(entity_type) is Ok <==> entity_type == "File"@ || entity_type
            == "FileVersion"@,
        entity_type == "File"@ ==> legacy_provenance(entity_type)->Ok_0.publication_action
            == "StreamUpdated"@ && legacy_parent_type(entity_type) is None
            && legacy_provenance(entity_type)->Ok_0.authorization_parent_parameter is None,
        entity_type == "FileVersion"@ && entity_type != "File"@ ==> legacy_provenance(
            entity_type,
        )->Ok_0.publication_action == "Create"@ && legacy_parent_type(entity_type) == Some(
            "Temper.FS.File"@,
        ) && legacy_provenance(entity_type)->Ok_0.authorization_parent_parameter is Some,
        legacy_provenance(entity_type) is Ok ==> legacy_provenance(
            entity_type,
        )->Ok_0.content_hash_parameter == "content_hash"@ && legacy_provenance(
            entity_type,
        )->Ok_0.byte_length_parameter == "size_bytes"@,
{
    reveal_strlit("File");
    reveal_strlit("FileVersion");
    assert("File"@.len() != "FileVersion"@.len());
}

} // verus!
