use temper_server::digest::{content_digest_of, sha256_hex};
use temper_server::governed::{
    active_capabilities, admit_advance, admit_capabilities, admit_start, begin_page,
    completion_evidence, end_page, global_generation, job_id_of, job_persistence_id, prepare_commit, record_advance,
    replay_advance, replay_start, scoped_generation, settle_commit,
    staged_application_persistence_id, start_job, StartStreamDescriptorMigrationRequestV1,
};
use temper_server::governed_gate::{
    list_governed_unresolved_stream_descriptors_v1, list_unresolved, load_governed_job,
    parse_unresolved_cursor,
    require_stream_descriptor_completion_v1, stage_target, staged_capabilities,
    validate_task_scope, JobEvent, StagedInstalledApplicationV1,
};
use temper_server::governed_inventory::{
    ordered_unresolved_subjects, retry_page, retry_subject, scan_end, scan_listed, scan_request,
    scan_subject,
};
use temper_server::governed_job::{
    bounded_classification, parse_unresolved_subject_key, unresolved_subject_key, DurableJobV1,
};
use temper_server::governed_types::{
    validate_budgets, validate_job_id, validate_operation_id, PublicationGenerationV1,
    StreamDescriptorMigrationBudgetsV1, StreamDescriptorMigrationTargetV1,
};
use temper_server::ordered::{OrdMap, Pair};
use temper_server::stream::{MigrationProvenance, StreamCapability, StreamMutability};
use temper_server::stream_migration::{StoreFailure, StreamDescriptorBackfillOutcomeV1};

fn pair(first: &str, second: &str) -> Pair {
    Pair {
        first: first.to_string(),
        second: second.to_string(),
    }
}

#[test]
fn unresolved_retry_order_uses_decoded_subjects() {
    let mut unresolved = OrdMap::new();
    for entity_id in ["A", "\"quoted"] {
        unresolved.insert(
            unresolved_subject_key("File", entity_id).unwrap(),
            "missing_blob".to_string(),
        );
    }
    assert_eq!(
        ordered_unresolved_subjects(&unresolved).unwrap(),
        vec![pair("File", "\"quoted"), pair("File", "A")]
    );
}

#[test]
fn a_subject_key_is_a_pair_of_texts() {
    let key = unresolved_subject_key("File", "a\"b\n\u{e9}").unwrap();
    assert_eq!(key, "[\"File\",\"a\\\"b\\n\u{e9}\"]");
    assert_eq!(
        parse_unresolved_subject_key(&key),
        Ok(pair("File", "a\"b\n\u{e9}"))
    );
    assert_eq!(key, "[\"File\",\"a\\\"b\\n\u{e9}\"]");
    assert_eq!(
        unresolved_subject_key("\\\u{8}\t\u{c}\r", "\u{1}\u{1f}/\u{7f}").unwrap(),
        "[\"\\\\\\b\\t\\f\\r\",\"\\u0001\\u001f/\u{7f}\"]"
    );
    assert!(parse_unresolved_subject_key("[\"File\"]").is_err());
    assert!(parse_unresolved_subject_key("nonsense").is_err());
}

#[test]
fn a_retry_page_starts_behind_the_last_subject() {
    let all = vec![pair("File", "a"), pair("File", "b"), pair("File", "c")];
    assert_eq!(
        retry_page(&all, &Some(pair("File", "a")), 1),
        vec![pair("File", "b")]
    );
    assert_eq!(retry_page(&all, &None, 9), all);
    assert_eq!(
        retry_page(&all, &Some(pair("File", "c")), 2),
        vec![pair("File", "a"), pair("File", "b")]
    );
}

fn capability() -> StreamCapability {
    StreamCapability {
        subject_type: "File".to_string(),
        mutability: StreamMutability::Mutable,
        authorization_parent_type: None,
        descriptor_contract_v1_active: true,
        migration_provenance: Some(MigrationProvenance {
            publication_action: "StreamUpdated".to_string(),
            content_hash_parameter: "content_hash".to_string(),
            byte_length_parameter: "size_bytes".to_string(),
            content_type_parameter: None,
            authorization_parent_parameter: None,
            storage_contract_version: 1,
            storage_key_prefix: "streams/".to_string(),
        }),
    }
}

fn target() -> StreamDescriptorMigrationTargetV1 {
    StreamDescriptorMigrationTargetV1::InstalledApplication {
        application_id: "app".to_string(),
        semantic_digest: sha256_hex(b"app"),
    }
}

fn budgets() -> StreamDescriptorMigrationBudgetsV1 {
    StreamDescriptorMigrationBudgetsV1 {
        max_subjects: 3,
        max_events_per_subject: 16,
        max_blob_bytes: 1_024,
    }
}

fn request() -> StartStreamDescriptorMigrationRequestV1 {
    StartStreamDescriptorMigrationRequestV1 {
        request_id: "r-1".to_string(),
        idempotency_key: "k-1".to_string(),
        target: target(),
        expected_capability_digest: content_digest_of(b"caps"),
        descriptor_contract_version: 1,
        budgets: budgets(),
    }
}

fn generation(n: u64) -> PublicationGenerationV1 {
    global_generation(&vec![("File".to_string(), n)])
}

fn started(active: Vec<StreamCapability>) -> DurableJobV1 {
    start_job(
        request(),
        "digest-1".to_string(),
        job_id_of("t", &b"target".to_vec()),
        content_digest_of(b"caps"),
        active,
        None,
        generation(1),
        &Ok(b"evidence".to_vec()),
    )
    .unwrap()
    .job
}

#[test]
fn a_start_is_held_against_its_bounds() {
    assert_eq!(admit_start(&request()), Ok(()));
    let mut bad = request();
    bad.descriptor_contract_version = 2;
    assert!(admit_start(&bad).is_err());
    let mut bad = request();
    bad.request_id = String::new();
    assert!(admit_start(&bad).is_err());
    let mut bad = budgets();
    bad.max_subjects = 0;
    assert!(validate_budgets(&bad).is_err());
    bad.max_subjects = 257;
    assert!(validate_budgets(&bad).is_err());
    assert_eq!(validate_budgets(&budgets()), Ok(()));
    assert!(validate_operation_id("x", &"a".repeat(257)).is_err());
    assert!(validate_operation_id("x", "a\nb").is_err());
    assert_eq!(validate_operation_id("x", "ok"), Ok(()));
    assert!(validate_job_id("job").is_err());
}

#[test]
fn capabilities_are_bound_by_their_digest() {
    let mut off = capability();
    off.descriptor_contract_v1_active = false;
    let active = active_capabilities(&vec![off, capability()]);
    assert_eq!(active, vec![capability()]);
    let digest = Ok(content_digest_of(b"caps"));
    assert_eq!(admit_capabilities(&active, &digest, &content_digest_of(b"caps")), Ok(()));
    assert!(admit_capabilities(&active, &digest, "other").is_err());
    let mut bare = capability();
    bare.migration_provenance = None;
    assert_eq!(
        admit_capabilities(&vec![bare], &digest, &content_digest_of(b"caps")),
        Err("target stream capability has no verified migration provenance".to_string())
    );
    assert_eq!(
        admit_capabilities(&active, &Err("broken".to_string()), "other"),
        Err("broken".to_string())
    );
}

#[test]
fn a_start_is_answered_once() {
    let job = started(vec![capability()]);
    let first = replay_start(&job, "digest-1", "k-1").unwrap();
    assert_eq!(first.job_id, job.job_id);
    assert!(replay_start(&job, "digest-2", "k-1").is_err());
}

#[test]
fn a_job_goes_from_start_to_completion() {
    let mut job = started(vec![capability()]);
    assert!(validate_job_id(&job.job_id).is_ok());
    assert_eq!(admit_advance(&job, &Ok(content_digest_of(b"caps")), None), Ok(()));
    assert!(admit_advance(&job, &Ok("other".to_string()), None).is_err());

    begin_page(&mut job, &generation(1));
    let page = scan_request(&job, 3).unwrap();
    assert_eq!(page.entity_type, "File");
    assert_eq!(page.after_entity_id, None);
    assert_eq!(
        scan_subject(
            &mut job,
            "File",
            "a",
            &Ok(StreamDescriptorBackfillOutcomeV1::Appended {
                descriptor_event_sequence: 2
            })
        ),
        Ok(())
    );
    assert_eq!(
        scan_subject(
            &mut job,
            "File",
            "b",
            &Ok(StreamDescriptorBackfillOutcomeV1::Unresolved {
                reason: "missing_blob: gone".to_string()
            })
        ),
        Ok(())
    );
    assert!(scan_listed(&mut job, false, 1));
    scan_end(&mut job);
    end_page(&mut job, &generation(1), &Ok(b"evidence".to_vec())).unwrap();
    let receipt = record_advance(
        &mut job,
        "r-2".to_string(),
        "k-2".to_string(),
        "digest-a".to_string(),
    )
    .unwrap();
    assert_eq!(receipt.scanned_subjects, 2);
    assert_eq!(receipt.migrated_subjects, 1);
    assert_eq!(receipt.unresolved_subjects, 1);
    assert!(receipt.completion_receipt_id.is_none());

    assert_eq!(
        replay_advance(&job, "k-2", "digest-a").unwrap().map(|r| r.scanned_subjects),
        Some(2)
    );
    assert!(replay_advance(&job, "k-2", "digest-b").is_err());
    assert_eq!(replay_advance(&job, "k-3", "digest-a"), Ok(None));

    let page = list_unresolved(&job, None, 10).unwrap();
    assert_eq!(page.entries.len(), 1);
    assert_eq!(page.entries[0].classification, "missing_blob");
    assert_eq!(page.next, None);
    let id = format!("sdm:{}", "0".repeat(64));
    let stored = Ok(Some(job.clone()));
    let answer = |request: &str, id: &str, limit: u32, job| {
        list_governed_unresolved_stream_descriptors_v1(
            request.to_string(),
            id.to_string(),
            None,
            limit,
            job,
        )
    };
    let listed = answer("r", &id, 10, &stored).unwrap();
    assert_eq!((listed.request_id.as_str(), listed.job_id.as_str()), ("r", id.as_str()));
    assert_eq!(listed.entries, page.entries);
    assert!(answer("", &id, 10, &stored).is_err());
    assert_eq!(
        answer("r", "job", 0, &stored),
        Err("stream descriptor migration job id is invalid".to_string())
    );
    assert_eq!(
        answer("r", &id, 0, &Ok(None)),
        Err("unresolved page limit is outside the supported budget".to_string())
    );
    assert_eq!(
        answer("r", &id, 10, &Ok(None)),
        Err("stream descriptor migration job was not found".to_string())
    );
    let evidence = completion_evidence("t", &job, &generation(5));
    assert_eq!(evidence.completion_generation, Some(generation(5)));
    assert_eq!((evidence.scanned_subjects, evidence.migrated_subjects), (2, 1));
    assert_eq!(evidence.target, job.target);
    assert_eq!(evidence.capability_digest, job.capability_digest);
    assert_eq!(evidence.descriptor_contract_version, 1);

    let gate = require_stream_descriptor_completion_v1(
        &target(),
        &vec![capability()],
        &vec![Ok("d".to_string())],
        &content_digest_of(b"caps"),
        &Some(job.clone()),
        None,
        &generation(1),
    );
    assert!(gate.is_err());

    begin_page(&mut job, &generation(1));
    retry_subject(
        &mut job,
        pair("File", "b"),
        &Ok(StreamDescriptorBackfillOutcomeV1::AlreadyPresent {
            descriptor_event_sequence: 5,
        }),
    )
    .unwrap();
    end_page(&mut job, &generation(1), &Ok(b"evidence".to_vec())).unwrap();
    let receipt = record_advance(
        &mut job,
        "r-3".to_string(),
        "k-3".to_string(),
        "digest-b".to_string(),
    )
    .unwrap();
    assert_eq!(receipt.unresolved_subjects, 0);
    let completion = receipt.completion_receipt_id.unwrap();

    let gate = require_stream_descriptor_completion_v1(
        &target(),
        &vec![capability()],
        &vec![Ok("d".to_string())],
        &content_digest_of(b"caps"),
        &Some(job.clone()),
        Some(&completion),
        &generation(1),
    );
    assert!(gate.unwrap().is_some());
    let stale = require_stream_descriptor_completion_v1(
        &target(),
        &vec![capability()],
        &vec![Ok("d".to_string())],
        &content_digest_of(b"caps"),
        &Some(job.clone()),
        Some(&completion),
        &generation(2),
    );
    assert!(stale.is_err());
}

#[test]
fn a_commit_moves_the_stored_sequence() {
    let mut job = started(vec![capability()]);
    let expected = prepare_commit(&mut job).unwrap();
    assert_eq!(settle_commit(&mut job, expected, 10, &Ok(())), Ok(()));
    let next = prepare_commit(&mut job).unwrap();
    assert_eq!(next, expected + 1);
    assert!(settle_commit(
        &mut job,
        next,
        10,
        &Err(StoreFailure {
            concurrency: true,
            text: "taken".to_string()
        })
    )
    .is_err());
}

#[test]
fn a_stored_job_is_read_from_its_last_event() {
    assert_eq!(load_governed_job(0, None), Ok(None));
    let job = started(vec![capability()]);
    let event = JobEvent {
        event_type: "nonsense".to_string(),
        job: Err("bad".to_string()),
    };
    assert!(load_governed_job(1, Some(event)).is_err());
    assert!(load_governed_job(
        2_000,
        Some(JobEvent {
            event_type: "x".to_string(),
            job: Ok(job)
        })
    )
    .is_err());
}

#[test]
fn cursors_and_names() {
    assert!(parse_unresolved_cursor("x").is_err());
    assert_eq!(bounded_classification("missing_blob: gone"), "missing_blob");
    assert_eq!(bounded_classification(&"a".repeat(200)), "a".repeat(96));
    assert_ne!(job_persistence_id("t", "a"), job_persistence_id("t", "b"));
    assert_ne!(
        staged_application_persistence_id("t", "a"),
        staged_application_persistence_id("t", "b")
    );
    assert_eq!(scoped_generation(Some(4)).scoped_write_version, Some(4));
    assert_ne!(generation(1), generation(2));
    assert!(validate_task_scope("Task", "x").is_ok() || validate_task_scope("task", "x").is_ok());
    assert!(validate_task_scope("Other", "x").is_err());
}

#[test]
fn a_target_is_staged_once() {
    let staged = StagedInstalledApplicationV1 {
        application_id: "app".to_string(),
        semantic_digest: "d".to_string(),
        capabilities: vec![capability()],
    };
    let first = stage_target(&None, &staged).unwrap();
    assert!(first.is_some());
    assert_eq!(stage_target(&Some((1, Ok(staged.clone()))), &staged), Ok(None));
    assert_eq!(
        staged_capabilities(Some(Ok(staged.clone())), "app", "d"),
        Ok(vec![capability()])
    );
    assert!(staged_capabilities(Some(Ok(staged.clone())), "app", "e").is_err());
    assert!(staged_capabilities(None, "app", "d").is_err());
}
