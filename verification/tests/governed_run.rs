use temper_server::digest::content_digest_of;
use temper_server::governed::{
    global_generation, record_advance, start_evidence, StartStreamDescriptorMigrationRequestV1,
};
use temper_server::governed_gate::{
    admit_stage, fenced_types, installed_application_stream_contract_activated_v1,
    refresh_bindings, StreamPublicationFence, UnscopedStreamPublicationBinding,
};
use temper_server::governed_job::{unresolved_subject_key, DurableJobV1};
use temper_server::governed_run::{
    activation_gate, advance_digest_of, get_governed_stream_descriptor_migration_v1,
    open_advance, start_governed_stream_descriptor_migration_v1, AdvanceFacts, AdvanceStep,
    GateFacts, RetryRun, ScanRun, ScanStep, StartAnswer, StartFacts,
};
use temper_server::governed_types::{
    target_kind, StreamDescriptorMigrationBudgetsV1, StreamDescriptorMigrationTargetV1,
};
use temper_server::ordered::{OrdMap, Pair};
use temper_server::stream::{MigrationProvenance, StreamCapability, StreamMutability};
use temper_server::stream_migration::StreamDescriptorBackfillOutcomeV1;

fn text(s: &str) -> String {
    s.to_string()
}

fn capability(subject: &str) -> StreamCapability {
    StreamCapability {
        subject_type: text(subject),
        mutability: StreamMutability::Mutable,
        authorization_parent_type: None,
        descriptor_contract_v1_active: true,
        migration_provenance: Some(MigrationProvenance {
            publication_action: text("StreamUpdated"),
            content_hash_parameter: text("content_hash"),
            byte_length_parameter: text("size_bytes"),
            content_type_parameter: None,
            authorization_parent_parameter: None,
            storage_contract_version: 1,
            storage_key_prefix: text("streams/"),
        }),
    }
}

fn request() -> StartStreamDescriptorMigrationRequestV1 {
    StartStreamDescriptorMigrationRequestV1 {
        request_id: text("r-1"),
        idempotency_key: text("k-1"),
        target: StreamDescriptorMigrationTargetV1::InstalledApplication {
            application_id: text("app"),
            semantic_digest: text("d"),
        },
        expected_capability_digest: text("caps"),
        descriptor_contract_version: 1,
        budgets: StreamDescriptorMigrationBudgetsV1 {
            max_subjects: 3,
            max_events_per_subject: 8,
            max_blob_bytes: 64,
        },
    }
}

fn facts(existing: Option<DurableJobV1>) -> StartFacts {
    StartFacts {
        declared: Ok((vec![capability("NS.File"), capability("NS.Note")], None)),
        capability_digest: Ok(text("caps")),
        request_encoding: Ok(b"request".to_vec()),
        target_encoding: Ok(b"target".to_vec()),
        existing: Ok(existing),
        generation: Ok(global_generation(&vec![])),
        evidence: Ok(b"evidence".to_vec()),
    }
}

fn started() -> DurableJobV1 {
    match start_governed_stream_descriptor_migration_v1("t", request(), facts(None)) {
        Ok(StartAnswer::Started(s)) => s.job,
        other => panic!("{other:?}"),
    }
}

#[test]
fn a_start_is_replayed_from_the_stored_job() {
    let job = started();
    assert_eq!(job.request_digest, content_digest_of(b"request"));
    match start_governed_stream_descriptor_migration_v1("t", request(), facts(Some(job.clone()))) {
        Ok(StartAnswer::Replayed(receipt)) => assert_eq!(receipt.job_id, job.job_id),
        other => panic!("{other:?}"),
    }
    let mut changed = facts(Some(job));
    changed.request_encoding = Ok(b"another".to_vec());
    assert_eq!(
        start_governed_stream_descriptor_migration_v1("t", request(), changed),
        Err(text("stream descriptor migration idempotency conflict"))
    );
    let mut bad = facts(None);
    bad.declared = Err(text("target schema bundle was not found"));
    assert_eq!(
        start_governed_stream_descriptor_migration_v1("t", request(), bad),
        Err(text("target schema bundle was not found"))
    );
    assert_eq!(target_kind(&request().target), target_kind(&started().target));
}

#[test]
fn a_target_without_streams_is_complete_at_once() {
    let mut bare = facts(None);
    bare.declared = Ok((vec![], None));
    match start_governed_stream_descriptor_migration_v1("t", request(), bare) {
        Ok(StartAnswer::Started(s)) => assert!(s.receipt.completion_receipt_id.is_some()),
        other => panic!("{other:?}"),
    }
    let mut bare = facts(None);
    bare.declared = Ok((vec![], None));
    bare.evidence = Err(text("broken"));
    assert_eq!(
        start_governed_stream_descriptor_migration_v1("t", request(), bare),
        Err(text("broken"))
    );
}

#[test]
fn a_start_without_streams_has_evidence() {
    let evidence =
        start_evidence("t", &request(), "caps", Some("bundle"), &global_generation(&vec![]));
    assert_eq!(evidence.tenant, "t");
    assert_eq!(evidence.target, request().target);
    assert_eq!(evidence.source_bundle_digest, Some(text("bundle")));
    assert_eq!((evidence.scanned_subjects, evidence.migrated_subjects), (0, 0));
    assert_eq!(evidence.completion_generation, Some(global_generation(&vec![])));
}

#[test]
fn an_advance_is_known_by_its_job() {
    let mut job = started();
    let id = job.job_id.clone();
    let digest = advance_digest_of(&id);
    assert_eq!(digest, content_digest_of(id.as_bytes()));
    record_advance(&mut job, text("r"), text("k"), digest).unwrap();
    match open_advance("r", "k", &id, advance_facts(job.clone())) {
        Ok(AdvanceStep::Replayed(receipt)) => assert_eq!(receipt.request_id, "r"),
        other => panic!("{other:?}"),
    }
    assert!(matches!(
        open_advance("r", "k-2", &id, advance_facts(job)),
        Ok(AdvanceStep::Page(_))
    ));
}

fn advance_facts(job: DurableJobV1) -> AdvanceFacts {
    AdvanceFacts {
        job: Ok(Some(job)),
        target: Ok((Ok(text("caps")), None)),
        generation: Ok(global_generation(&vec![])),
    }
}

#[test]
fn an_advance_needs_its_job_and_target() {
    let job = started();
    let id = job.job_id.clone();
    match open_advance("r", "k", &id, advance_facts(job.clone())) {
        Ok(AdvanceStep::Page(page)) => assert!(page.latest_page_outcomes.is_empty()),
        other => panic!("{other:?}"),
    }
    let mut moved = advance_facts(job.clone());
    moved.target = Ok((Ok(text("other")), None));
    assert_eq!(
        open_advance("r", "k", &id, moved),
        Err(text("stream descriptor migration target changed after job creation"))
    );
    let mut gone = advance_facts(job.clone());
    gone.job = Ok(None);
    assert_eq!(
        open_advance("r", "k", &id, gone),
        Err(text("stream descriptor migration job was not found"))
    );
    assert_eq!(
        open_advance("r", "k", "job", advance_facts(job.clone())),
        Err(text("stream descriptor migration job id is invalid"))
    );
    assert!(open_advance("", "k", &id, advance_facts(job.clone())).is_err());
    let receipt =
        get_governed_stream_descriptor_migration_v1(text("r-9"), &id, &Ok(Some(job))).unwrap();
    assert_eq!(receipt.request_id, "r-9");
    assert!(get_governed_stream_descriptor_migration_v1(text("r-9"), &id, &Ok(None)).is_err());
}

fn done() -> Result<StreamDescriptorBackfillOutcomeV1, String> {
    Ok(StreamDescriptorBackfillOutcomeV1::Appended {
        descriptor_event_sequence: 2,
    })
}

#[test]
fn a_page_is_bounded_and_goes_on_with_the_next_type() {
    let mut run = ScanRun::begin(started(), 3);
    match run.step() {
        ScanStep::List(q) => assert_eq!((q.entity_type.as_str(), q.limit), ("File", 4)),
        other => panic!("{other:?}"),
    }
    run.rows_listed(vec![text("a"), text("b")]);
    assert_eq!(run.step(), ScanStep::Migrate(text("a")));
    run.migrated(&done()).unwrap();
    assert_eq!(run.step(), ScanStep::Migrate(text("b")));
    run.migrated(&Err(text("missing_blob"))).unwrap();
    match run.step() {
        ScanStep::List(q) => assert_eq!((q.entity_type.as_str(), q.limit), ("Note", 2)),
        other => panic!("{other:?}"),
    }
    run.rows_listed(vec![text("n"), text("o")]);
    run.migrated(&done()).unwrap();
    assert_eq!(run.step(), ScanStep::End);
    assert_eq!(run.job.scanned_subjects, 3);
    assert_eq!(run.job.migrated_subjects, 2);
    assert_eq!(run.job.after_entity_id, Some(text("n")));
    assert_eq!(run.job.capability_index, 1);
}

#[test]
fn an_empty_inventory_ends_its_page() {
    let mut run = ScanRun::begin(started(), 3);
    run.rows_listed(vec![]);
    run.rows_listed(vec![]);
    assert_eq!(run.step(), ScanStep::End);
    assert_eq!(run.job.capability_index, 2);
}

#[test]
fn a_retry_passes_over_types_that_are_gone() {
    let mut job = started();
    job.unresolved
        .insert(unresolved_subject_key("Note", "n").unwrap(), text("missing_blob"));
    let mut run = RetryRun {
        job,
        subjects: vec![
            Pair { first: text("Gone"), second: text("g") },
            Pair { first: text("Note"), second: text("n") },
        ],
        at: 0,
    };
    assert_eq!(run.next_subject(), Some(1));
    assert_eq!(run.at, 1);
    run.migrated(&done()).unwrap();
    assert_eq!(run.next_subject(), None);
    assert_eq!(run.job.unresolved.len(), 0);
    assert_eq!(
        run.job.retry_after,
        Some(Pair { first: text("Note"), second: text("n") })
    );
}

fn fence() -> OrdMap<String, UnscopedStreamPublicationBinding> {
    let mut bindings = OrdMap::new();
    bindings.insert(
        text("File"),
        UnscopedStreamPublicationBinding {
            publication_action: text("StreamUpdated"),
            capability_digest: text("file-digest"),
            expected_write_version: 1,
        },
    );
    bindings
}

#[test]
fn a_fence_is_held_against_the_contract() {
    let application = StreamPublicationFence::InstalledApplication {
        application_id: text("app"),
        semantic_digest: text("d"),
        bindings: fence(),
    };
    assert_eq!(fenced_types(&application), Ok(vec![text("File")]));
    let refreshed = refresh_bindings(&fence(), &vec![9]);
    assert_eq!(refreshed.get(&text("File")).unwrap().expected_write_version, 9);
    assert_eq!(refreshed.get(&text("File")).unwrap().capability_digest, "file-digest");
    let active = Ok(vec![capability("NS.File")]);
    let digests = vec![Ok(text("file-digest"))];
    let holds = |f: &Result<Option<StreamPublicationFence>, String>,
                 app: &str,
                 digests: &Vec<Result<String, String>>| {
        installed_application_stream_contract_activated_v1(f, app, "d", &active, digests)
    };
    let some = Ok(Some(application));
    assert_eq!(holds(&some, "app", &digests), Ok(true));
    assert_eq!(holds(&some, "other", &digests), Ok(false));
    assert_eq!(holds(&some, "app", &vec![Ok(text("changed"))]), Ok(false));
    assert_eq!(holds(&some, "app", &vec![Err(text("no digest"))]), Err(text("no digest")));
    assert_eq!(holds(&Ok(None), "app", &digests), Ok(false));
    assert_eq!(holds(&Err(text("down")), "app", &digests), Err(text("down")));
    assert_eq!(
        installed_application_stream_contract_activated_v1(
            &some,
            "app",
            "d",
            &Err(text("bad schema")),
            &vec![]
        ),
        Err(text("bad schema"))
    );
    assert_eq!(
        installed_application_stream_contract_activated_v1(
            &some,
            "app",
            "d",
            &Ok(vec![]),
            &vec![]
        ),
        Ok(false)
    );
    let task = StreamPublicationFence::TaskScoped {
        source_bundle_digest: text("s"),
        expected_write_version: 1,
        bindings: OrdMap::new(),
    };
    assert_eq!(
        fenced_types(&task),
        Err(text("installed application publication fence is invalid"))
    );
    assert_eq!(admit_stage("app", "d", 0), Ok(false));
    assert_eq!(admit_stage("app", "d", 1), Ok(true));
    assert_eq!(
        admit_stage("", "d", 1),
        Err(text("installed application migration target is invalid"))
    );
}

fn gate_facts(job: Option<DurableJobV1>) -> GateFacts {
    GateFacts {
        declared: Ok(vec![capability("NS.File")]),
        digests: vec![Ok(text("file-digest"))],
        capability_digest: Ok(text("caps")),
        target_encoding: Ok(b"target".to_vec()),
        job: Ok(job),
        generation: Ok(global_generation(&vec![])),
    }
}

#[test]
fn a_target_is_activated_on_evidence() {
    let target = request().target;
    assert_eq!(
        activation_gate(&target, gate_facts(None), None),
        Err(text("stream descriptor migration completion evidence is absent"))
    );
    assert_eq!(
        activation_gate(&target, gate_facts(Some(started())), None),
        Err(text(
            "matching zero-unresolved stream descriptor migration evidence is required"
        ))
    );
    let mut bare = gate_facts(None);
    bare.declared = Ok(vec![]);
    bare.digests = vec![];
    assert_eq!(activation_gate(&target, bare, None), Ok(None));
    let mut broken = gate_facts(Some(started()));
    broken.capability_digest = Err(text("no digest"));
    assert_eq!(activation_gate(&target, broken, None), Err(text("no digest")));
    let mut broken = gate_facts(Some(started()));
    broken.generation = Err(text("no versions"));
    broken.capability_digest = Err(text("no digest"));
    assert_eq!(activation_gate(&target, broken, None), Err(text("no versions")));
    let mut broken = gate_facts(Some(started()));
    broken.target_encoding = Err(text("no encoding"));
    assert_eq!(activation_gate(&target, broken, None), Err(text("no encoding")));
    let mut broken = gate_facts(None);
    broken.job = Err(text("down"));
    assert_eq!(activation_gate(&target, broken, None), Err(text("down")));
    let mut broken = gate_facts(None);
    broken.declared = Err(text("no target"));
    broken.digests = vec![];
    assert_eq!(activation_gate(&target, broken, None), Err(text("no target")));
}
