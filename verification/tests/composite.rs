use temper_server::composite::{
    composite_event_already_persisted, composite_persistence_id, composite_target, prepare_composite_sub_writes,
    reload_after_batch, streams_to_append, sub_write_failure, CompositeParent, CompositeTarget,
    Evaluation, Overflow, ParentEvent, PreparedCompositeSubWrite, Reload, StageVerdict,
    SubWriteAuthorization, SubWriteChecks, SubWriteResult,
};
use temper_server::composite_helpers::{
    composite_batch_persistence_error, composite_parent_idempotency, composite_storage_cap_error,
    has_sub_writes, is_zero_git_sha, normalize_sub_write_params, validate_sub_writes, BatchFailure,
    CompositeActionMetadata, CompositeSubWrite, DeclaredSubWrite, StorageCapFailure,
};
use temper_server::composite_run::{
    atomic_targets, batch_start, composite_entry, preflight_composite_sub_writes, BatchRun,
    BatchStart, BatchStep, BatchWrite, Outlook,
};
use temper_server::dispatch_actions::DispatchError;
use temper_server::json::Json;
use temper_server::ordered::{OrdSet, Pair};
use temper_server::stream::EntityEvent;
use temper_server::time::Timestamp;

fn text(s: &str) -> String {
    s.to_string()
}

fn now() -> Timestamp {
    Timestamp { secs: 1, nanos: 0 }
}

fn parent() -> CompositeParent {
    CompositeParent {
        tenant: text("t"),
        entity_type: text("Push"),
        entity_id: text("p-1"),
        action: text("Receive"),
        idempotency: text("idem"),
    }
}

fn metadata() -> CompositeActionMetadata {
    CompositeActionMetadata {
        sub_writes: vec![DeclaredSubWrite {
            target_entity: text("Doc"),
            action: text("Create"),
            generated_from: None,
        }],
        has_cedar_gate: false,
        record_parent_event: true,
    }
}

fn sub_write(entity_type: &str, id: &str, action: &str) -> CompositeSubWrite {
    CompositeSubWrite {
        entity_type: text(entity_type),
        entity_id: text(id),
        action: text(action),
        params: Json::Object(Vec::new()),
    }
}

fn checks(authorization: SubWriteAuthorization) -> SubWriteChecks {
    SubWriteChecks {
        governed: true,
        derived_id: Ok(None),
        authorization,
    }
}

#[test]
fn sub_writes_are_prepared_all_or_none() {
    let writes = vec![sub_write("Doc", "a", "Create"), sub_write("Doc", "b", "Create")];
    let granted = vec![
        checks(SubWriteAuthorization::Granted),
        checks(SubWriteAuthorization::Granted),
    ];
    let prepared =
        prepare_composite_sub_writes(&parent(), &metadata(), true, &writes, &granted).unwrap();
    assert_eq!(prepared[0].idempotency_key, "composite:t:Push:p-1:Receive:idem:subwrite:0");
    assert_eq!(prepared[1].idempotency_key, "composite:t:Push:p-1:Receive:idem:subwrite:1");
    let denied = vec![
        checks(SubWriteAuthorization::Granted),
        checks(SubWriteAuthorization::Denied(text("no"))),
    ];
    assert_eq!(
        prepare_composite_sub_writes(&parent(), &metadata(), true, &writes, &denied),
        Err(DispatchError::AuthzDenied(text(
            "composite Push.Receive sub-write 1 denied for Doc.Create: no"
        )))
    );
    let missing = vec![
        checks(SubWriteAuthorization::NoTarget),
        checks(SubWriteAuthorization::Denied(text("no"))),
    ];
    assert_eq!(
        prepare_composite_sub_writes(&parent(), &metadata(), true, &writes, &missing),
        Err(DispatchError::Internal(text("composite sub-write target Doc:a does not exist")))
    );
    assert!(
        prepare_composite_sub_writes(&parent(), &metadata(), false, &writes, &granted).is_err()
    );
    let mut ungoverned = checks(SubWriteAuthorization::Granted);
    ungoverned.governed = false;
    assert_eq!(
        prepare_composite_sub_writes(
            &parent(),
            &metadata(),
            true,
            &vec![sub_write("Doc", "a", "Create")],
            &vec![ungoverned]
        ),
        Err(DispatchError::Ungoverned(text("Doc")))
    );
    let mut derived = checks(SubWriteAuthorization::Granted);
    derived.derived_id = Ok(Some(text("derived")));
    let prepared = prepare_composite_sub_writes(
        &parent(),
        &metadata(),
        true,
        &vec![sub_write("Doc", "a", "Create")],
        &vec![derived],
    )
    .unwrap();
    assert_eq!(prepared[0].write.entity_id, "derived");
}

fn target(existed: bool, sequence_nr: u64) -> CompositeTarget {
    CompositeTarget {
        existed,
        status: text("Open"),
        fields: Json::Object(Vec::new()),
        sequence_nr,
        total_event_count: sequence_nr,
        processed: OrdSet::new(),
    }
}

fn batch_write(idx: usize, id: &str, existed: bool) -> BatchWrite {
    BatchWrite {
        prepared: PreparedCompositeSubWrite {
            idx,
            write: sub_write("Doc", id, if existed { "Edit" } else { "Create" }),
            idempotency_key: format!("key-{idx}"),
            uses_parent_gate: false,
        },
        persistence_id: composite_persistence_id("t", "Doc", id),
        target: target(existed, if existed { 4 } else { 0 }),
    }
}

fn event(action: &str) -> EntityEvent {
    EntityEvent {
        action: text(action),
        from_status: text("Open"),
        to_status: text("Open"),
        timestamp: now(),
        params: Json::Null,
        idempotency_key: None,
    }
}

fn result() -> SubWriteResult {
    SubWriteResult {
        success: true,
        error: None,
        has_effects: false,
        overflow: Overflow::Stored,
        event: event("Edit"),
        status: text("Edited"),
        fields: Json::Object(Vec::new()),
    }
}

#[test]
fn a_batch_stages_every_sub_write() {
    let writes = vec![
        batch_write(0, "a", false),
        batch_write(1, "b", true),
        batch_write(2, "b", true),
    ];
    let mut run = BatchRun::begin(parent(), false, writes);
    run.record_parent(&text("t:Push:p-1"), &target(true, 9), event("Composite"), now());
    for idx in 0..3 {
        assert_eq!(run.next_write(now()), Ok(BatchStep::Process(idx)));
        assert_eq!(run.stage(result()), Ok(StageVerdict::Staged));
    }
    assert_eq!(run.next_write(now()), Ok(BatchStep::Append));
    let a = run.streams.get(&text("t:Doc:a")).unwrap();
    assert_eq!((a.expected_sequence, a.sequence_nr, a.events.len()), (0, 2, 2));
    assert_eq!(a.events[0].action, "Created");
    let b = run.streams.get(&text("t:Doc:b")).unwrap();
    assert_eq!((b.expected_sequence, b.sequence_nr, b.events.len()), (4, 6, 2));
    assert_eq!(b.events[1].idempotency_key, Some(text("key-2")));
    let p = run.streams.get(&text("t:Push:p-1")).unwrap();
    assert_eq!((p.expected_sequence, p.sequence_nr), (9, 10));
    assert_eq!(streams_to_append(&run.streams), vec![0, 1, 2]);
    assert_eq!(reload_after_batch(a), Reload::Keep);
    assert_eq!(reload_after_batch(b), Reload::StopAndLoad);
}

#[test]
fn a_target_is_loaded_or_begun() {
    let begun = composite_target(None, false, "a", "Draft");
    assert!(!begun.existed);
    assert_eq!(begun.status, "Draft");
    assert_eq!(begun.fields.get_text("Id"), Some("a"));
    assert!(composite_target(Some(target(false, 0)), false, "a", "Draft").existed);
    assert!(!composite_target(Some(target(true, 0)), true, "a", "Draft").existed);
    assert!(composite_target(Some(target(false, 3)), true, "a", "Draft").existed);
}

#[test]
fn a_repeated_batch_stages_nothing() {
    let mut write = batch_write(0, "a", true);
    write.target.processed.insert(text("key-0"));
    let mut run = BatchRun::begin(parent(), false, vec![write]);
    assert_eq!(run.next_write(now()), Ok(BatchStep::Append));
    assert!(streams_to_append(&run.streams).is_empty());
}

#[test]
fn a_failed_sub_write_stages_nothing() {
    let mut run = BatchRun::begin(parent(), true, vec![batch_write(0, "a", true)]);
    run.next_write(now()).unwrap();
    let mut failed = result();
    failed.success = false;
    assert_eq!(
        run.stage(failed),
        Err(DispatchError::Internal(text(
            "composite Push.Receive sub-write 0 failed during atomic staging"
        )))
    );
    let mut effects = result();
    effects.has_effects = true;
    assert_eq!(
        run.stage(effects),
        Err(DispatchError::Internal(text(
            "scoped composite Push.Receive requires effects unsupported by atomic staging"
        )))
    );
    let mut no_store = result();
    no_store.overflow = Overflow::NoStore;
    assert!(run.stage(no_store).is_err());
    let mut store_failed = result();
    store_failed.overflow = Overflow::Failed(text("full"));
    assert_eq!(
        run.stage(store_failed),
        Err(DispatchError::Internal(text(
            "field-overflow blob persistence failed during composite batch: full"
        )))
    );
    assert!(streams_to_append(&run.streams).is_empty());
    let mut unscoped = BatchRun::begin(parent(), false, vec![batch_write(0, "a", true)]);
    unscoped.next_write(now()).unwrap();
    let mut effects = result();
    effects.has_effects = true;
    assert_eq!(unscoped.stage(effects), Ok(StageVerdict::OneByOne));
}

#[test]
fn a_preflight_finds_the_first_failure() {
    let writes = vec![batch_write(0, "a", false), batch_write(1, "b", true)];
    let fine = Outlook { can_accept_event: true, evaluation: Evaluation::Allowed };
    let full = Outlook { can_accept_event: false, evaluation: Evaluation::Allowed };
    let unknown = Outlook { can_accept_event: true, evaluation: Evaluation::UnknownAction };
    let invalid = Outlook { can_accept_event: true, evaluation: Evaluation::NotAllowed };
    assert_eq!(preflight_composite_sub_writes(&parent(), &writes, &vec![fine, fine]), Ok(()));
    assert_eq!(
        preflight_composite_sub_writes(&parent(), &writes, &vec![fine, full]),
        Err(DispatchError::Internal(text(
            "composite Push.Receive sub-write 1 would exceed the event budget for Doc:b"
        )))
    );
    assert_eq!(
        preflight_composite_sub_writes(&parent(), &writes, &vec![unknown, full]),
        Err(DispatchError::Internal(text(
            "composite Push.Receive sub-write 0 would fail: unknown action 'Create'"
        )))
    );
    assert_eq!(
        preflight_composite_sub_writes(&parent(), &writes, &vec![invalid, full]),
        Err(DispatchError::Conflict(text(
            "composite Push.Receive sub-write 0 would fail: action 'Create' is not valid from state 'Open'"
        )))
    );
    assert_eq!(
        atomic_targets(&writes).items,
        vec![Pair { first: text("Doc"), second: text("a") }]
    );
}

fn text_member(name: &str, value: &str) -> (String, Json) {
    (text(name), Json::Text(text(value)))
}

#[test]
fn a_moved_ref_refuses_a_second_write() {
    let mut write = batch_write(0, "main", true);
    write.prepared.write = CompositeSubWrite {
        entity_type: text("Ref"),
        entity_id: text("main"),
        action: text("Update"),
        params: Json::Object(vec![
            text_member("PreviousCommitSha", "old"),
            text_member("TargetCommitSha", "new"),
        ]),
    };
    write.target.fields = Json::Object(vec![text_member("TargetCommitSha", "elsewhere")]);
    let mut run = BatchRun::begin(parent(), false, vec![write]);
    assert_eq!(
        run.next_write(now()),
        Err(DispatchError::Conflict(text(
            "composite Push.Receive sub-write 0 stale ref main: expected old, found elsewhere"
        )))
    );
    run.writes[0].prepared.write.params =
        Json::Object(vec![text_member("PreviousCommitSha", "elsewhere")]);
    assert_eq!(run.next_write(now()), Ok(BatchStep::Process(0)));
}

#[test]
fn composites_start_and_end() {
    assert_eq!(batch_start(false, 3), BatchStart::OneByOne);
    assert_eq!(batch_start(true, 0), BatchStart::Nothing);
    assert_eq!(batch_start(true, 3), BatchStart::Batch);
    assert_eq!(composite_entry(Evaluation::Allowed, "Go", "Open"), Ok(()));
    assert_eq!(
        composite_entry(Evaluation::NotAllowed, "Go", "Open"),
        Err(DispatchError::Internal(text("Composite action 'Go' not valid from state 'Open'")))
    );
    assert_eq!(
        composite_entry(Evaluation::UnknownAction, "Go", "Open"),
        Err(DispatchError::Internal(text("Unknown composite action: Go")))
    );
    assert_eq!(
        sub_write_failure(&parent(), 2, None),
        "composite Push.Receive sub-write 2 failed"
    );
    let events = vec![ParentEvent {
        is_composite_event: true,
        composite_idempotency_key: Some(text("idem")),
    }];
    assert!(composite_event_already_persisted(&events, "idem"));
    assert!(!composite_event_already_persisted(&events, "other"));
}

#[test]
fn sub_writes_must_be_declared() {
    assert_eq!(
        validate_sub_writes(&metadata(), &vec![sub_write("Doc", "a", "Create")]),
        Ok(())
    );
    assert!(validate_sub_writes(&metadata(), &vec![sub_write("Other", "a", "Create")]).is_err());
    let with = Json::Object(vec![(text("SubWrites"), Json::Array(Vec::new()))]);
    assert!(has_sub_writes(&with));
    assert!(!has_sub_writes(&Json::Object(Vec::new())));
    let normal = normalize_sub_write_params(&Json::Null, "a");
    assert!(normal.is_object() || normal == Json::Null);
    assert!(is_zero_git_sha(&"0".repeat(40)));
    assert!(!is_zero_git_sha("0a"));
    assert_eq!(composite_parent_idempotency(Some("k"), "{}"), "k");
}

#[test]
fn failures_of_a_batch_are_told_apart() {
    assert!(matches!(
        composite_batch_persistence_error(&BatchFailure::Concurrency(text("x"))),
        DispatchError::Conflict(_)
    ));
    assert!(matches!(
        composite_batch_persistence_error(&BatchFailure::Other(text("x"))),
        DispatchError::Internal(_)
    ));
    assert_eq!(
        composite_storage_cap_error(StorageCapFailure::Exceeded(text("x"))),
        DispatchError::QuotaExceeded(text("x"))
    );
    assert_eq!(
        composite_storage_cap_error(StorageCapFailure::OwnerSuspended(text("x"))),
        DispatchError::AuthzDenied(text("x"))
    );
}
