//! Creating a file together with its first content, as one operation.

use vstd::prelude::*;
use vstd::string::*;

use crate::file_writes::FileErrorModel;
use crate::file_writes::FileStreamContentError;
use crate::json::Json;
use crate::json::JsonModel;
use crate::ordered::OrdMap;
use crate::reference_evidence::add_facts;
use crate::reference_evidence::facts_on;
use crate::stream::DescriptorModel;
use crate::stream::EntityEvent;
use crate::stream::EventModel;
use crate::stream::StreamDescriptor;
use crate::stream::StreamEntityRef;
use crate::stream::StreamMutability;
use crate::text::opt_str;
use crate::text::views;
use crate::time::Timestamp;

verus! {

/// A file that is being made: its status, its fields, the sequence of its last
/// event and the events so far.
#[derive(Debug, PartialEq, Eq)]
pub struct SyntheticFile {
    pub status: String,
    pub fields: Json,
    pub sequence_nr: u64,
    pub events: Vec<EntityEvent>,
}

/// The text of a create of a file that exists.
pub open spec fn file_exists_text(file_id: Seq<char>) -> Seq<char> {
    "File('"@ + file_id + "') already exists; use File $value update for existing content"@
}

/// The text of a create of a file that exists.
pub fn file_exists_text_of(file_id: &str) -> (r: String)
    ensures
        r@ == file_exists_text(file_id@),
{
    let mut text = "File('".to_owned();
    text.append(file_id);
    text.append("') already exists; use File $value update for existing content");
    text
}

/// What is found of a file before it is created.
#[derive(Debug, PartialEq, Eq)]
pub struct InitialChecks {
    /// Why its identifier is not valid.
    pub id_refusal: Option<String>,
    pub known: bool,
    pub has_journal: bool,
    /// Its type has a transition table.
    pub has_table: bool,
    /// Why its references do not allow it.
    pub reference_refusal: Option<String>,
}

/// Why a file may not be created: its identifier is not valid, there is one with
/// it, there is no journal to write to, the type is not known, or its references
/// do not allow it.
pub open spec fn initial_refusal(
    c: InitialChecks,
    tenant: Seq<char>,
    file_id: Seq<char>,
) -> Option<FileErrorModel> {
    if c.id_refusal is Some {
        Some(FileErrorModel::ActionRejected(c.id_refusal->0@))
    } else if c.known {
        Some(FileErrorModel::ActionRejected(file_exists_text(file_id)))
    } else if !c.has_journal {
        Some(FileErrorModel::State("File initial content create requires an event journal"@))
    } else if !c.has_table {
        Some(
            FileErrorModel::State(
                "No transition table for tenant '"@ + tenant + "', entity type 'File'"@,
            ),
        )
    } else if c.reference_refusal is Some {
        Some(FileErrorModel::ActionRejected(c.reference_refusal->0@))
    } else {
        None
    }
}

/// Decides whether a file may be created.
pub fn admit_initial_file(checks: &InitialChecks, tenant: &str, file_id: &str) -> (r: Result<
    (),
    FileStreamContentError,
>)
    ensures
        match r {
            Ok(_) => initial_refusal(*checks, tenant@, file_id@) is None,
            Err(e) => initial_refusal(*checks, tenant@, file_id@) == Some(e@),
        },
{
    match &checks.id_refusal {
        Some(e) => return Err(FileStreamContentError::ActionRejected(e.clone())),
        None => {},
    }
    if checks.known {
        return Err(FileStreamContentError::ActionRejected(file_exists_text_of(file_id)));
    }
    if !checks.has_journal {
        return Err(
            FileStreamContentError::State(
                "File initial content create requires an event journal".to_owned(),
            ),
        );
    }
    if !checks.has_table {
        let mut text = "No transition table for tenant '".to_owned();
        text.append(tenant);
        text.append("', entity type 'File'");
        return Err(FileStreamContentError::State(text));
    }
    match &checks.reference_refusal {
        Some(e) => Err(FileStreamContentError::ActionRejected(e.clone())),
        None => Ok(()),
    }
}

/// What the state machine gave for an action on a file.
#[derive(Debug, PartialEq, Eq)]
pub struct SyntheticResult {
    /// Fields grew out of their place.
    pub overflow: bool,
    pub success: bool,
    pub error: Option<String>,
    pub event: Option<EntityEvent>,
}

/// The event of an action on a file that is being made, or why there is none.
pub open spec fn synthetic_event(result: SyntheticResult, action: Seq<char>) -> Result<
    EventModel,
    FileErrorModel,
> {
    if result.overflow {
        Err(
            FileErrorModel::State(
                "File."@ + action
                    + " produced field-overflow blobs on the atomic initial content path"@,
            ),
        )
    } else if !result.success {
        Err(
            FileErrorModel::ActionRejected(
                match result.error {
                    Some(e) => e@,
                    None => "File."@ + action + " rejected"@,
                },
            ),
        )
    } else {
        match result.event {
            Some(e) => Ok(e@),
            None => Err(
                FileErrorModel::State(
                    "File."@ + action + " succeeded without producing a durable event"@,
                ),
            ),
        }
    }
}

/// The event of an action on a file that is being made.
pub fn apply_synthetic_file_action(result: SyntheticResult, action: &str) -> (r: Result<
    EntityEvent,
    FileStreamContentError,
>)
    ensures
        crate::file_writes::file_outcome(r) == synthetic_event(result, action@),
{
    if result.overflow {
        let mut text = "File.".to_owned();
        text.append(action);
        text.append(" produced field-overflow blobs on the atomic initial content path");
        return Err(FileStreamContentError::State(text));
    }
    if !result.success {
        let text = match result.error {
            Some(e) => e,
            None => {
                let mut text = "File.".to_owned();
                text.append(action);
                text.append(" rejected");
                text
            },
        };
        return Err(FileStreamContentError::ActionRejected(text));
    }
    match result.event {
        Some(event) => Ok(event),
        None => {
            let mut text = "File.".to_owned();
            text.append(action);
            text.append(" succeeded without producing a durable event");
            Err(FileStreamContentError::State(text))
        },
    }
}

/// Each event of a file that is being made has its own sequence, counted from
/// one.
pub open spec fn counted(f: SyntheticFile) -> bool {
    f.sequence_nr == f.events@.len()
}

/// Adds an event to a file that is being made.
pub fn push_synthetic_event(file: &mut SyntheticFile, event: EntityEvent)
    ensures
        final(file).status == old(file).status,
        final(file).fields == old(file).fields,
        views(final(file).events@) == views(old(file).events@).push(event@),
        final(file).events@ == old(file).events@.push(event),
        final(file).sequence_nr == if old(file).sequence_nr < u64::MAX {
            (old(file).sequence_nr + 1) as u64
        } else {
            u64::MAX
        },
        counted(*old(file)) && old(file).sequence_nr < u64::MAX ==> counted(*final(file)),
{
    let ghost before = views(file.events@);
    let ghost e = event@;
    file.sequence_nr = file.sequence_nr.saturating_add(1);
    file.events.push(event);
    proof {
        assert(views(file.events@) =~= before.push(e));
    }
}

/// Begins a file in its initial state, with the fields that a file has there: its
/// first event is its creation.
pub fn begin_synthetic_file(initial_state: &str, fields: Json, now: Timestamp) -> (r: SyntheticFile)
    ensures
        r.status@ == initial_state@,
        r.fields == fields,
        counted(r),
        r.sequence_nr == 1,
        views(r.events@) == seq![
            EventModel {
                action: "Created"@,
                from_status: Seq::empty(),
                to_status: initial_state@,
                timestamp: now,
                params: JsonModel::Object(Seq::empty()),
                idempotency_key: None,
            },
        ],
{
    let params = Json::Object(Vec::new());
    proof {
        crate::json::model_of_parts(params);
        assert(params@->Object_0 =~= Seq::<(Seq<char>, JsonModel)>::empty());
    }
    let created = EntityEvent {
        action: "Created".to_owned(),
        from_status: String::new(),
        to_status: initial_state.to_owned(),
        timestamp: now,
        params,
        idempotency_key: None,
    };
    let ghost c = created@;
    let mut file = SyntheticFile {
        status: initial_state.to_owned(),
        fields,
        sequence_nr: 0,
        events: Vec::new(),
    };
    push_synthetic_event(&mut file, created);
    proof {
        assert(views(file.events@) =~= seq![c]);
    }
    file
}

/// Whether the create action runs before the content is recorded: the request
/// has parameters for it.
pub fn has_create_params(create_params: &Json) -> (r: bool)
    ensures
        r == (create_params@ is Object && create_params@->Object_0.len() > 0),
{
    match create_params {
        Json::Object(members) => {
            proof {
                crate::json::model_of_parts(*create_params);
                assert(crate::json::members_model(members@).len() == members@.len());
            }
            members.len() > 0
        },
        _ => false,
    }
}

/// The first descriptor of a new file: the file itself, without a parent, of
/// content that may be replaced, all with the sequence of the file's last event.
pub open spec fn first_descriptor(
    file_id: Seq<char>,
    content_hash: Seq<char>,
    storage_object_id: Seq<char>,
    byte_length: u64,
    content_type: Option<Seq<char>>,
    sequence_nr: u64,
) -> DescriptorModel {
    DescriptorModel {
        subject: ("File"@, file_id),
        authorization_parent: None,
        content_hash,
        storage_object_id,
        byte_length,
        content_type,
        content_event_sequence: sequence_nr,
        descriptor_event_sequence: sequence_nr,
        mutability: StreamMutability::Mutable,
    }
}

/// The first descriptor of a new file, of the content that was stored for it.
pub fn initial_descriptor(
    file_id: &str,
    content_hash: &str,
    storage_object_id: &str,
    byte_length: u64,
    content_type: Option<&str>,
    sequence_nr: u64,
) -> (r: StreamDescriptor)
    ensures
        r@ == first_descriptor(
            file_id@,
            content_hash@,
            storage_object_id@,
            byte_length,
            opt_str(content_type),
            sequence_nr,
        ),
{
    StreamDescriptor {
        subject: StreamEntityRef { entity_type: "File".to_owned(), entity_id: file_id.to_owned() },
        authorization_parent: None,
        content_hash: content_hash.to_owned(),
        storage_object_id: storage_object_id.to_owned(),
        byte_length,
        content_type: match content_type {
            Some(t) => Some(t.to_owned()),
            None => None,
        },
        content_event_sequence: sequence_nr,
        descriptor_event_sequence: sequence_nr,
        mutability: StreamMutability::Mutable,
    }
}

/// What the guards of the action that records the first content are told: that
/// the owning workspace takes content, which was seen before any byte was
/// stored, and the evidence on the references of the file.
pub fn stream_evidence(evidence: &Vec<(String, bool)>) -> (r: OrdMap<String, bool>)
    ensures
        r.wf(),
        r@ == facts_on(
            Map::empty().insert("__xref:Workspace:workspace_id"@, true),
            evidence@,
            evidence@.len() as int,
        ),
{
    let mut facts: OrdMap<String, bool> = OrdMap::new();
    facts.insert("__xref:Workspace:workspace_id".to_owned(), true);
    add_facts(&mut facts, evidence);
    facts
}

/// An event as it is written: its sequence, and whether the stream descriptor
/// goes with it.
#[derive(Clone, Copy, Debug, PartialEq, Eq, Structural)]
pub struct PlannedEnvelope {
    pub sequence_nr: u64,
    pub with_descriptor: bool,
}

/// The events as they are written: counted from one, with the descriptor on the
/// one that recorded the content.
pub fn plan_envelopes(file: &SyntheticFile, has_descriptor: bool) -> (r: Vec<PlannedEnvelope>)
    ensures
        r@.len() == file.events@.len(),
        forall|i: int|
            0 <= i < r@.len() ==> (#[trigger] r@[i]).sequence_nr == i + 1 && r@[i].with_descriptor
                == (has_descriptor && i + 1 == file.sequence_nr),
{
    let mut out: Vec<PlannedEnvelope> = Vec::new();
    let mut i: usize = 0;
    while i < file.events.len()
        invariant
            i <= file.events.len(),
            out@.len() == i,
            forall|k: int|
                0 <= k < i ==> (#[trigger] out@[k]).sequence_nr == k + 1 && out@[k].with_descriptor
                    == (has_descriptor && k + 1 == file.sequence_nr),
        decreases file.events.len() - i,
    {
        let sequence_nr: u64 = i as u64 + 1;
        out.push(
            PlannedEnvelope {
                sequence_nr,
                with_descriptor: has_descriptor && sequence_nr == file.sequence_nr,
            },
        );
        i = i + 1;
    }
    out
}

/// A descriptor goes with exactly one event, the last one.
pub proof fn the_last_event_carries_the_descriptor(
    file: SyntheticFile,
    planned: Seq<PlannedEnvelope>,
)
    requires
        counted(file),
        planned.len() == file.events@.len(),
        planned.len() > 0,
        forall|i: int|
            0 <= i < planned.len() ==> (#[trigger] planned[i]).sequence_nr == i + 1
                && planned[i].with_descriptor == (i + 1 == file.sequence_nr),
    ensures
        planned.last().with_descriptor,
        forall|i: int|
            0 <= i < planned.len() - 1 ==> !(#[trigger] planned[i]).with_descriptor,
{
}

/// How far a failed write of events went.
#[derive(Clone, Debug, PartialEq, Eq)]
pub enum AppendFailure {
    /// Somebody else wrote first.
    Concurrency,
    NotApplied(String),
    Applied(String),
    Unknown(String),
}

/// What a create is told when its events could not be written; how far the
/// write went is kept.
pub open spec fn append_error(failure: AppendFailure, file_id: Seq<char>) -> FileErrorModel {
    match failure {
        AppendFailure::Concurrency => FileErrorModel::PersistenceNotApplied(
            file_exists_text(file_id),
        ),
        AppendFailure::NotApplied(e) => FileErrorModel::PersistenceNotApplied(
            "failed to persist atomic File initial content events for File('"@ + file_id + "'): "@
                + e@,
        ),
        AppendFailure::Applied(e) => FileErrorModel::PersistenceApplied(
            "failed after persisting atomic File initial content events for File('"@ + file_id
                + "'): "@ + e@,
        ),
        AppendFailure::Unknown(e) => FileErrorModel::PersistenceUnknown(
            "could not acknowledge atomic File initial content events for File('"@ + file_id
                + "'): "@ + e@,
        ),
    }
}

fn phase_text(head: &str, file_id: &str, error: &str) -> (r: String)
    ensures
        r@ == head@ + file_id@ + "'): "@ + error@,
{
    let mut text = head.to_owned();
    text.append(file_id);
    text.append("'): ");
    text.append(error);
    text
}

/// What a create is told when its events could not be written.
pub fn initial_append_error(failure: &AppendFailure, file_id: &str) -> (r: FileStreamContentError)
    ensures
        r@ == append_error(*failure, file_id@),
{
    match failure {
        AppendFailure::Concurrency => FileStreamContentError::PersistenceNotApplied(
            file_exists_text_of(file_id),
        ),
        AppendFailure::NotApplied(e) => FileStreamContentError::PersistenceNotApplied(
            phase_text(
                "failed to persist atomic File initial content events for File('",
                file_id,
                e.as_str(),
            ),
        ),
        AppendFailure::Applied(e) => FileStreamContentError::PersistenceApplied(
            phase_text(
                "failed after persisting atomic File initial content events for File('",
                file_id,
                e.as_str(),
            ),
        ),
        AppendFailure::Unknown(e) => FileStreamContentError::PersistenceUnknown(
            phase_text(
                "could not acknowledge atomic File initial content events for File('",
                file_id,
                e.as_str(),
            ),
        ),
    }
}

/// How far a failed write went is never lost on the way to the caller.
pub proof fn the_phase_of_a_failed_write_is_kept(failure: AppendFailure, file_id: Seq<char>)
    ensures
        (failure is NotApplied || failure is Concurrency) == (append_error(failure, file_id)
            is PersistenceNotApplied),
        failure is Applied == append_error(failure, file_id) is PersistenceApplied,
        failure is Unknown == append_error(failure, file_id) is PersistenceUnknown,
{
}

/// The attributes that a policy sees of a file that does not exist yet: those
/// of one that was just made.
pub fn synthesize_new_file_resource_attrs(
    file_id: &str,
    initial_state: &str,
    has_spec: bool,
) -> (r: Json)
    ensures
        r@ == JsonModel::Object(
            seq![
                ("Id"@, JsonModel::Text(file_id@)),
                ("Status"@, JsonModel::Text(initial_state@)),
                ("has_spec"@, JsonModel::Bool(has_spec)),
                ("id"@, JsonModel::Text(file_id@)),
                ("status"@, JsonModel::Text(initial_state@)),
            ],
        ),
{
    let mut members: Vec<(String, Json)> = Vec::new();
    members.push(("Id".to_owned(), Json::Text(file_id.to_owned())));
    members.push(("Status".to_owned(), Json::Text(initial_state.to_owned())));
    members.push(("has_spec".to_owned(), Json::Bool(has_spec)));
    members.push(("id".to_owned(), Json::Text(file_id.to_owned())));
    members.push(("status".to_owned(), Json::Text(initial_state.to_owned())));
    let r = Json::Object(members);
    proof {
        crate::json::model_of_parts(r);
        assert(r@->Object_0 =~= seq![
            ("Id"@, JsonModel::Text(file_id@)),
            ("Status"@, JsonModel::Text(initial_state@)),
            ("has_spec"@, JsonModel::Bool(has_spec)),
            ("id"@, JsonModel::Text(file_id@)),
            ("status"@, JsonModel::Text(initial_state@)),
        ]);
    }
    r
}

/// A new file is admitted exactly where its identifier is valid, it is not known,
/// there are a journal and a transition table, and its references hold. A file
/// that is known is told apart before anything else is looked at.
pub proof fn only_a_new_file_is_created(
    checks: &InitialChecks,
    tenant: &str,
    file_id: &str,
    r: Result<(), FileStreamContentError>,
)
    requires
        call_ensures(admit_initial_file, (checks, tenant, file_id), r),
    ensures
        r is Ok <==> checks.id_refusal is None && !checks.known && checks.has_journal
            && checks.has_table && checks.reference_refusal is None,
        checks.id_refusal is None && checks.known ==> r->Err_0@ == FileErrorModel::ActionRejected(
            "File('"@ + file_id@
                + "') already exists; use File $value update for existing content"@,
        ),
{
}

/// An action on a new file gives the event that the state machine made, and is
/// refused where the machine refused it, made none, or moved fields out of their
/// place.
pub proof fn only_a_plain_success_gives_an_event(result: SyntheticResult, action: Seq<char>)
    ensures
        synthetic_event(result, action) is Ok <==> !result.overflow && result.success
            && result.event is Some,
        synthetic_event(result, action) is Ok ==> synthetic_event(result, action)->Ok_0
            == result.event->0@,
        !result.overflow && !result.success && result.error is Some ==> synthetic_event(
            result,
            action,
        ) == Err::<EventModel, FileErrorModel>(
            FileErrorModel::ActionRejected(result.error->0@),
        ),
{
}

/// The first descriptor of a file is of the file itself and of the content that
/// was stored for it, may be replaced, answers to no parent, and stands at the
/// event that carries it.
pub proof fn a_first_descriptor_is_of_its_file(
    file_id: &str,
    content_hash: &str,
    storage_object_id: &str,
    byte_length: u64,
    content_type: Option<&str>,
    sequence_nr: u64,
    r: StreamDescriptor,
)
    requires
        call_ensures(
            initial_descriptor,
            (file_id, content_hash, storage_object_id, byte_length, content_type, sequence_nr),
            r,
        ),
    ensures
        r.subject.entity_type@ == "File"@,
        r.subject.entity_id@ == file_id@,
        r.authorization_parent is None,
        r.content_hash@ == content_hash@,
        r.storage_object_id@ == storage_object_id@,
        r.byte_length == byte_length,
        crate::text::opt_text(r.content_type) == opt_str(content_type),
        r.content_event_sequence == sequence_nr,
        r.descriptor_event_sequence == sequence_nr,
        r.mutability == StreamMutability::Mutable,
{
    assert(r@.subject == ("File"@, file_id@));
    assert(r@.authorization_parent is None);
}

/// The evidence on a reference stands for whatever was known of it before, and
/// without any the owning workspace is known to take content.
pub proof fn the_workspace_is_known_to_take_content(evidence: &Vec<(String, bool)>, name: Seq<char>)
    ensures
        ({
            let facts = facts_on(
                Map::empty().insert("__xref:Workspace:workspace_id"@, true),
                evidence@,
                evidence@.len() as int,
            );
            &&& (forall|i: int|
                0 <= i < evidence@.len() ==> (#[trigger] evidence@[i]).0@
                    != "__xref:Workspace:workspace_id"@) ==> facts.contains_key(
                "__xref:Workspace:workspace_id"@,
            ) && facts["__xref:Workspace:workspace_id"@]
            &&& facts.contains_key(name) ==> name == "__xref:Workspace:workspace_id"@ || exists|
                i: int,
            |
                0 <= i < evidence@.len() && (#[trigger] evidence@[i]).0@ == name && evidence@[i].1
                    == facts[name]
        }),
{
    let base = Map::<Seq<char>, bool>::empty().insert("__xref:Workspace:workspace_id"@, true);
    crate::reference_evidence::a_fact_is_the_last_one_of_its_name(
        base,
        evidence@,
        evidence@.len() as int,
        "__xref:Workspace:workspace_id"@,
    );
    crate::reference_evidence::a_fact_is_the_last_one_of_its_name(
        base,
        evidence@,
        evidence@.len() as int,
        name,
    );
}

/// The events of a new file are numbered from one in their order, and the last
/// one alone carries the descriptor, where there is one.
pub proof fn events_are_numbered_from_one(
    file: &SyntheticFile,
    has_descriptor: bool,
    r: Vec<PlannedEnvelope>,
    i: int,
)
    requires
        counted(*file),
        call_ensures(plan_envelopes, (file, has_descriptor), r),
        0 <= i < r@.len(),
    ensures
        r@.len() == file.events@.len(),
        r@[i].sequence_nr == i + 1,
        r@[i].with_descriptor <==> has_descriptor && i == r@.len() - 1,
{
}

/// A file is created with parameters only where there are some.
pub proof fn only_given_parameters_create(params: &Json, r: bool)
    requires
        call_ensures(has_create_params, (params,), r),
    ensures
        r <==> params@ is Object && params@->Object_0.len() > 0,
{
}

} // verus!
