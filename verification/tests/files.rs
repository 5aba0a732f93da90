use temper_server::digest::content_digest_of;
use temper_server::file_initial_writes::{
    begin_synthetic_file, initial_append_error, plan_envelopes, push_synthetic_event,
    stream_evidence, synthesize_new_file_resource_attrs, AppendFailure, InitialChecks,
    SyntheticResult,
};
use temper_server::file_run::{
    admit_native_write, record_native_write, InitialFileRun, InitialPhase, StoredFile,
};
use temper_server::file_writes::{
    download_step, falls_back_to_adapter, file_has_content, upload_step, AdapterReply,
    DownloadStep, FileStreamContentError, IndexedFileStreamRead, UploadStep,
};
use temper_server::json::{Json, JsonNumber};
use temper_server::query_projection::ProjectionRow;
use temper_server::stream::{EntityEvent, StreamDescriptor, StreamEntityRef, StreamMutability};
use temper_server::time::Timestamp;

fn text(s: &str) -> String {
    s.to_string()
}

fn now() -> Timestamp {
    Timestamp { secs: 1, nanos: 0 }
}

fn workspace(id: &str) -> Json {
    Json::Object(vec![(text("workspace_id"), Json::Text(text(id)))])
}

fn stored(fields: Json) -> StoredFile {
    StoredFile { fields, sequence_nr: 4, version_count: Some(2) }
}

#[test]
fn content_is_refused_before_it_is_stored() {
    let file = Ok(stored(workspace("w")));
    assert_eq!(
        admit_native_write("f", &file, Some("Archived"), None, b"abc"),
        Err(FileStreamContentError::ActionRejected(text(
            "workspace 'w' is 'Archived', not 'Active'; it does not accept new file content"
        )))
    );
    assert_eq!(
        admit_native_write("f", &file, Some("Active"), Some(5), b"abc"),
        Err(FileStreamContentError::ActionRejected(text("SequenceConflict")))
    );
    assert_eq!(
        admit_native_write("f", &Err(text("gone")), None, None, b"abc"),
        Err(FileStreamContentError::State(text("failed to load File('f') state: gone")))
    );
    let write = admit_native_write("f", &file, Some("Active"), Some(4), b"abc").unwrap();
    assert_eq!(write.content_hash, content_digest_of(b"abc"));
    assert_eq!(write.blob_key, format!("temper-fs/{}", content_digest_of(b"abc")));
}

#[test]
fn stored_content_is_recorded_as_the_next_version() {
    let mut fields = workspace("w");
    fields.put("last_version_id", Json::Text(text("v-2")));
    let file = stored(fields);
    let write = admit_native_write("f", &Ok(stored(Json::Null)), None, None, b"abc").unwrap();
    let params =
        record_native_write(&write, &file, &Ok(()), 3, "text/plain", Some("a")).unwrap();
    assert_eq!(params.get_text("content_hash"), Some(content_digest_of(b"abc").as_str()));
    assert_eq!(params.get_unsigned("version_number"), Some(3));
    assert_eq!(params.get_text("previous_version_id"), Some("v-2"));
    assert_eq!(params.get_text("created_by"), Some("a"));
    assert_eq!(params.get_unsigned("size_bytes"), Some(3));
    assert!(matches!(
        record_native_write(&write, &file, &Err(text("full")), 3, "text/plain", None),
        Err(FileStreamContentError::BlobStore(_))
    ));
}

fn checks() -> InitialChecks {
    InitialChecks {
        id_refusal: None,
        known: false,
        has_journal: true,
        has_table: true,
        reference_refusal: None,
    }
}

fn event(action: &str) -> EntityEvent {
    EntityEvent {
        action: text(action),
        from_status: text("Created"),
        to_status: text("Ready"),
        timestamp: now(),
        params: Json::Null,
        idempotency_key: None,
    }
}

fn applied(action: &str) -> SyntheticResult {
    SyntheticResult { overflow: false, success: true, error: None, event: Some(event(action)) }
}

fn run(params: Json) -> InitialFileRun {
    InitialFileRun::begin(text("t"), text("f"), params, text("text/plain"), Some(text("a")))
}

#[test]
fn a_new_file_is_written_with_its_content() {
    let mut run = run(workspace("w"));
    run.surveyed(&checks()).unwrap();
    run.workspace_checked(Some("Active")).unwrap();
    assert_eq!(run.phase, InitialPhase::StoreContent);
    run.content_stored(Ok((content_digest_of(b"abc"), 3)), "Created", Json::Null, now()).unwrap();
    assert_eq!(run.phase, InitialPhase::ApplyCreate);
    let versioned = Json::Object(vec![(text("last_version_id"), Json::Text(text("v0")))]);
    run.create_applied(applied("Create"), text("Created"), versioned).unwrap();
    let params = run.stream_params(None).unwrap();
    assert_eq!(params.get_text("previous_version_id"), Some("v0"));
    assert_eq!(params.get_unsigned("version_number"), Some(1));
    let fields = Json::Object(vec![
        (text("name"), Json::Text(text("n"))),
        (text("notes"), Json::Null),
    ]);
    run.stream_applied(applied("StreamUpdated"), text("Ready"), fields).unwrap();
    assert_eq!(
        run.contract_checked(Err(text("fence")), Ok(()), "o"),
        Err(FileStreamContentError::State(text("fence")))
    );
    assert_eq!(
        run.contract_checked(Ok(true), Err(text("name")), "o"),
        Err(FileStreamContentError::State(text("name")))
    );
    let (planned, descriptor) = run.contract_checked(Ok(true), Ok(()), "o").unwrap();
    assert_eq!(
        descriptor,
        Some(StreamDescriptor {
            subject: StreamEntityRef { entity_type: text("File"), entity_id: text("f") },
            authorization_parent: None,
            content_hash: content_digest_of(b"abc"),
            storage_object_id: text("o"),
            byte_length: 3,
            content_type: Some(text("text/plain")),
            content_event_sequence: 3,
            descriptor_event_sequence: 3,
            mutability: StreamMutability::Mutable,
        })
    );
    assert_eq!(
        planned.iter().map(|p| (p.sequence_nr, p.with_descriptor)).collect::<Vec<_>>(),
        vec![(1, false), (2, false), (3, true)]
    );
    run.appended(&Ok(7)).unwrap();
    assert_eq!(run.file.sequence_nr, 7);
    assert_eq!(run.content_hash, content_digest_of(b"abc"));
    assert_eq!(run.byte_length, 3);
    let encoded = Json::Object(vec![(text("events"), Json::Array(vec![Json::Null]))]);
    assert_eq!(
        run.projection_row(&Ok(encoded), &Some(vec![text("notes")])),
        ProjectionRow {
            status: text("Ready"),
            fields: Json::Object(vec![(text("name"), Json::Text(text("n")))]),
            state: Json::Object(vec![(text("events"), Json::Array(Vec::new()))]),
            sequence_nr: 7,
        }
    );
    assert!(matches!(
        run.projected(Err(text("down"))),
        Err(FileStreamContentError::PersistenceApplied(_))
    ));
    run.projected(Ok(())).unwrap();
    assert_eq!(run.phase, InitialPhase::Return);
    let actions: Vec<&str> = run.file.events.iter().map(|e| e.action.as_str()).collect();
    assert_eq!(actions, vec!["Created", "Create", "StreamUpdated"]);
    assert_eq!(run.file.status, "Ready");
}

#[test]
fn a_new_file_without_parameters_is_not_created_twice() {
    let mut run = run(Json::Object(Vec::new()));
    run.surveyed(&checks()).unwrap();
    run.workspace_checked(None).unwrap();
    run.content_stored(Ok((text("h"), 3)), "Created", Json::Null, now()).unwrap();
    assert_eq!(run.phase, InitialPhase::ApplyStream);
    let refused = SyntheticResult { overflow: false, success: false, error: None, event: None };
    assert_eq!(
        run.stream_applied(refused, text("x"), Json::Null),
        Err(FileStreamContentError::ActionRejected(text("File.StreamUpdated rejected")))
    );
    let overflow = SyntheticResult { overflow: true, success: true, error: None, event: None };
    assert!(matches!(
        run.stream_applied(overflow, text("x"), Json::Null),
        Err(FileStreamContentError::State(_))
    ));
    run.stream_applied(applied("StreamUpdated"), text("Ready"), Json::Null).unwrap();
    let (planned, descriptor) = run.contract_checked(Ok(false), Err(text("name")), "o").unwrap();
    assert_eq!(planned.len(), 2);
    assert_eq!(descriptor, None);
    assert_eq!(
        run.appended(&Err(AppendFailure::Concurrency)),
        Err(FileStreamContentError::PersistenceNotApplied(text(
            "File('f') already exists; use File $value update for existing content"
        )))
    );
}

#[test]
fn a_new_file_is_refused_for_the_first_reason() {
    let mut c = checks();
    c.known = true;
    assert!(matches!(
        run(Json::Null).surveyed(&c),
        Err(FileStreamContentError::ActionRejected(_))
    ));
    let mut c = checks();
    c.has_table = false;
    assert_eq!(
        run(Json::Null).surveyed(&c),
        Err(FileStreamContentError::State(text(
            "No transition table for tenant 't', entity type 'File'"
        )))
    );
    let mut c = checks();
    c.has_journal = false;
    assert!(run(Json::Null).surveyed(&c).is_err());
    let mut c = checks();
    c.id_refusal = Some(text("bad id"));
    assert_eq!(
        run(Json::Null).surveyed(&c),
        Err(FileStreamContentError::ActionRejected(text("bad id")))
    );
    let mut c = checks();
    c.reference_refusal = Some(text("bad ref"));
    assert_eq!(
        run(Json::Null).surveyed(&c),
        Err(FileStreamContentError::ActionRejected(text("bad ref")))
    );
}

#[test]
fn the_last_event_carries_the_descriptor() {
    let mut file = begin_synthetic_file("Created", Json::Null, now());
    push_synthetic_event(&mut file, event("StreamUpdated"));
    let planned = plan_envelopes(&file, true);
    assert!(!planned[0].with_descriptor && planned[1].with_descriptor);
    assert!(plan_envelopes(&file, false).iter().all(|p| !p.with_descriptor));
}

#[test]
fn the_phase_of_a_failed_write_is_kept() {
    assert!(matches!(
        initial_append_error(&AppendFailure::NotApplied(text("e")), "f"),
        FileStreamContentError::PersistenceNotApplied(_)
    ));
    assert!(matches!(
        initial_append_error(&AppendFailure::Applied(text("e")), "f"),
        FileStreamContentError::PersistenceApplied(_)
    ));
    assert_eq!(
        initial_append_error(&AppendFailure::Unknown(text("e")), "f").message(),
        "could not acknowledge atomic File initial content events for File('f'): e"
    );
}

#[test]
fn a_policy_sees_a_new_file_as_just_made() {
    let attrs = synthesize_new_file_resource_attrs("f", "Created", true);
    assert_eq!(attrs.get_text("id"), Some("f"));
    assert_eq!(attrs.get_text("Id"), Some("f"));
    assert_eq!(attrs.get_text("status"), Some("Created"));
    assert_eq!(attrs.get_text("Status"), Some("Created"));
    assert_eq!(attrs.get_bool("has_spec"), Some(true));
}

#[test]
fn uploads_fall_back_only_on_a_remote_blob_store() {
    let blob = FileStreamContentError::BlobStore(text("down"));
    assert!(falls_back_to_adapter(&blob, true, false));
    assert!(!falls_back_to_adapter(&blob, true, true));
    assert!(!falls_back_to_adapter(&blob, false, false));
    let state = FileStreamContentError::State(text("down"));
    assert!(!falls_back_to_adapter(&state, true, false));
}

#[test]
fn adapter_replies_and_reads() {
    let reply = |success: bool, error: Option<&str>, action: &str| AdapterReply {
        success,
        error: error.map(text),
        callback_action: text(action),
    };
    assert_eq!(upload_step(reply(true, None, "")), Ok(UploadStep::Reload));
    assert_eq!(upload_step(reply(true, None, "Go")), Ok(UploadStep::Dispatch(text("Go"))));
    assert_eq!(
        upload_step(reply(false, None, "Go")),
        Err(FileStreamContentError::Wasm(text("blob_adapter returned an unknown error")))
    );
    assert_eq!(
        download_step(IndexedFileStreamRead::Content(vec![1])),
        DownloadStep::Respond(200, vec![1])
    );
    assert!(matches!(
        download_step(IndexedFileStreamRead::NoContent),
        DownloadStep::Respond(404, _)
    ));
    assert_eq!(download_step(IndexedFileStreamRead::StaleIndex), DownloadStep::Materialize);
    let with_content = Json::Object(vec![(
        text("booleans"),
        Json::Object(vec![(text("has_content"), Json::Bool(true))]),
    )]);
    assert!(file_has_content(&with_content));
    assert!(!file_has_content(&Json::Object(vec![(
        text("n"),
        Json::Number(JsonNumber::Unsigned(1))
    )])));
}

#[test]
fn the_first_content_is_recorded_in_a_workspace_that_takes_it() {
    let facts = stream_evidence(&vec![(text("__ref:A:1"), false)]);
    assert_eq!(facts.get(&text("__xref:Workspace:workspace_id")), Some(&true));
    assert_eq!(facts.get(&text("__ref:A:1")), Some(&false));
    assert_eq!(facts.len(), 2);
    let facts = stream_evidence(&vec![(text("__xref:Workspace:workspace_id"), false)]);
    assert_eq!(facts.get(&text("__xref:Workspace:workspace_id")), Some(&false));
}
