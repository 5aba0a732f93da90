use temper_server::adapter::credential_issue_params;
use temper_server::composite::{
    build_composite_event, composite_event_already_persisted, keeps_blob_refs,
    needs_first_event_metadata, open_stream, CompositeParent, CompositeTarget, ParentEvent,
    PreparedCompositeSubWrite,
};
use temper_server::composite_helpers::{
    composite_account_verification_error, composite_app_uniqueness_error,
    composite_create_resource_attrs_from_defaults, scoped_resource_attrs, sub_writes_payload,
    table_has_cross_entity_guards_for_action, AccountVerificationFailure, AppUniquenessFailure,
    CompositeSubWrite, GuardedRule,
};
use temper_server::composite_run::{parent_journal_failure, reload_failure, unexpected_sub_writes};
use temper_server::creation::{manifest_source, ManifestSource};
use temper_server::dispatch_actions::DispatchError;
use temper_server::json::Json;
use temper_server::observe::{
    design_time_event_failure, progress_observe_event, AgentProgressEvent, DesignTimeEvent,
};
use temper_server::ordered::OrdSet;
use temper_server::provenance::{
    legacy_temper_fs_parent_type, replay_provenance_gap, validate_replay_gap,
    BackfillProvenanceEvidence,
};
use temper_server::rate_limit::{bucket_cache_key, commons_write_action_class};
use temper_server::reference_contract::{
    audit_reference_entity, is_contracted, prepare_reference_contract_create, prospective_fields,
    reference_targets, HistoryRead, ReferenceEvent, StateVariable,
};
use temper_server::reference_evidence::{action_evidence, needs_current_state};
use temper_server::stream::{
    EntityEvent, Envelope, MigrationProvenance, StreamCapability, StreamDescriptor,
    StreamEntityRef, StreamMutability,
};
use temper_server::stream_descriptors::active_stream_publication_binding;
use temper_server::stream_migration::batch_cursor_of;
use temper_server::time::Timestamp;

fn text(s: &str) -> String {
    s.to_string()
}

fn member(name: &str, value: Json) -> (String, Json) {
    (text(name), value)
}

#[test]
fn credentials_are_issued_by_the_platform() {
    let params = credential_issue_params("type", "inst", "hash", "tmpr_abcd", "2024");
    assert_eq!(params.get_text("created_by"), Some("platform"));
    assert_eq!(params.get_text("key_prefix"), Some("tmpr_abcd"));
    assert_eq!(params.get_text("agent_type_id"), Some("type"));
}

fn target(existed: bool) -> CompositeTarget {
    CompositeTarget {
        existed,
        status: text("Open"),
        fields: Json::Object(Vec::new()),
        sequence_nr: 0,
        total_event_count: 0,
        processed: OrdSet::new(),
    }
}

#[test]
fn a_new_stream_begins_with_its_creation() {
    let now = Timestamp { secs: 0, nanos: 0 };
    let stream = open_stream("Doc", "d", &target(false), false, now);
    assert!(stream.bootstrapped);
    assert_eq!(stream.events.len(), 1);
    assert!(!needs_first_event_metadata(&stream));
    let mut stream = open_stream("Doc", "d", &target(false), true, now);
    assert!(!stream.bootstrapped && stream.events.is_empty());
    stream.events.push(EntityEvent {
        action: text("Create"),
        from_status: String::new(),
        to_status: text("Open"),
        timestamp: now,
        params: Json::Null,
        idempotency_key: None,
    });
    assert!(needs_first_event_metadata(&stream));
    assert_eq!(
        reload_failure(&stream),
        "composite batch committed Doc:d but failed to reload it"
    );
    assert!(keeps_blob_refs(true, false) && keeps_blob_refs(false, true));
    assert!(!keeps_blob_refs(false, false));
}

#[test]
fn a_composite_records_its_sub_writes() {
    let prepared = vec![PreparedCompositeSubWrite {
        idx: 3,
        write: CompositeSubWrite {
            entity_type: text("Doc"),
            entity_id: text("d"),
            action: text("Create"),
            params: Json::Null,
        },
        idempotency_key: text("k"),
        uses_parent_gate: true,
    }];
    let parent = CompositeParent {
        tenant: text("t"),
        entity_type: text("Push"),
        entity_id: text("p"),
        action: text("Go"),
        idempotency: text("once"),
    };
    let event = build_composite_event(&parent, &prepared);
    assert_eq!(
        (event.tenant.as_str(), event.parent_entity_type.as_str()),
        ("t", "Push")
    );
    assert_eq!(
        (event.parent_entity_id.as_str(), event.parent_action.as_str()),
        ("p", "Go")
    );
    assert_eq!(event.composite_idempotency_key, "once");
    let stored = vec![ParentEvent {
        is_composite_event: true,
        composite_idempotency_key: Some(event.composite_idempotency_key.clone()),
    }];
    assert!(composite_event_already_persisted(&stored, &parent.idempotency));
    let recorded = event.sub_writes;
    assert_eq!(recorded.len(), 1);
    assert_eq!((recorded[0].index, recorded[0].idempotency_key.as_str()), (3, "k"));
    assert!(sub_writes_payload(&Json::Null).is_err());
    let params = Json::Object(vec![
        member("SubWrites", Json::Bool(false)),
        member("sub_writes", Json::Bool(true)),
    ]);
    assert_eq!(sub_writes_payload(&params).unwrap(), &Json::Bool(true));
    assert_eq!(
        unexpected_sub_writes("Push", "Go"),
        DispatchError::Internal(text(
            "Integration result for non-Composite action Push.Go included sub_writes"
        ))
    );
    assert!(parent_journal_failure("x").ends_with(": x"));
}

#[test]
fn guards_and_attributes() {
    let rules = vec![
        GuardedRule { name: text("Go"), has_cross_guard: false },
        GuardedRule { name: text("Stop"), has_cross_guard: true },
    ];
    assert!(!table_has_cross_entity_guards_for_action(&rules, "Go"));
    assert!(table_has_cross_entity_guards_for_action(&rules, "Stop"));
    let attrs = scoped_resource_attrs(&Json::Null, "d", "Open");
    assert_eq!(attrs.get_text("status"), Some("Open"));
    assert_eq!(attrs.get_bool("has_spec"), Some(true));
    let params = Json::Object(vec![member("status", Json::Text(text("Mine")))]);
    let attrs = composite_create_resource_attrs_from_defaults("d", &params, "Open", false);
    assert_eq!(attrs.get_text("id"), Some("d"));
    assert_eq!(attrs.get_text("status"), Some("Mine"));
    assert_eq!(attrs.get_bool("has_spec"), Some(false));
    assert_eq!(
        composite_account_verification_error(AccountVerificationFailure::Required(text("x"))),
        DispatchError::AuthzDenied(text("x"))
    );
    assert_eq!(
        composite_app_uniqueness_error(AppUniquenessFailure::Conflict(text("x"))),
        DispatchError::Conflict(text("x"))
    );
    assert_eq!(manifest_source(true, true), Ok(ManifestSource::Configured));
    assert_eq!(manifest_source(false, false), Ok(ManifestSource::Legacy));
    assert_eq!(
        manifest_source(true, false),
        Err(text("scoped schema configuration is unavailable"))
    );
}

#[test]
fn events_for_observers() {
    let event = AgentProgressEvent {
        tenant: text("t"),
        entity_type: text("E"),
        entity_id: text("e"),
        seq: 4,
        kind: text("tool"),
        agent_id: text("a"),
        tool_call_id: None,
        tool_name: None,
        task_id: None,
        message: None,
        timestamp: text("now"),
        data: None,
    };
    let seen = progress_observe_event(&event, Json::Bool(true));
    assert_eq!((seen.seq, seen.event_name.as_str()), (4, "tool"));
    assert_eq!(seen.data, Json::Bool(true));
    let event = DesignTimeEvent {
        kind: text("verify"),
        entity_type: text("E"),
        tenant: text("t"),
        summary: text("s"),
        level: None,
        passed: Some(true),
        timestamp: text("now"),
        step_number: None,
        total_steps: None,
    };
    assert_eq!(
        design_time_event_failure(&event, "turso", "down"),
        "failed to persist design-time event verify for t/E in turso: down"
    );
    assert_eq!(bucket_cache_key("t", "o", "write"), "t:o:write");
    assert!(!commons_write_action_class().is_empty());
    assert!(batch_cursor_of(&vec![1]) != batch_cursor_of(&vec![2]));
}

fn publication(params: Vec<(String, Json)>) -> Envelope {
    Envelope {
        sequence_nr: 1,
        event_type: text("StreamUpdated"),
        event: Ok(EntityEvent {
            action: text("StreamUpdated"),
            from_status: String::new(),
            to_status: text("Ready"),
            timestamp: Timestamp { secs: 0, nanos: 0 },
            params: Json::Object(params),
            idempotency_key: None,
        }),
        descriptor: None,
    }
}

fn provenance() -> MigrationProvenance {
    MigrationProvenance {
        publication_action: text("StreamUpdated"),
        content_hash_parameter: text("content_hash"),
        byte_length_parameter: text("size_bytes"),
        content_type_parameter: None,
        authorization_parent_parameter: None,
        storage_contract_version: 1,
        storage_key_prefix: text("temper-fs/"),
    }
}

#[test]
fn a_repaired_descriptor_is_held_against_its_history() {
    let descriptor = StreamDescriptor {
        subject: StreamEntityRef { entity_type: text("File"), entity_id: text("f") },
        authorization_parent: None,
        content_hash: text("h"),
        storage_object_id: text("temper-fs/h"),
        byte_length: 3,
        content_type: None,
        content_event_sequence: 1,
        descriptor_event_sequence: 3,
        mutability: StreamMutability::Mutable,
    };
    let content = publication(vec![
        member("content_hash", Json::Text(text("h"))),
        member("size_bytes", Json::Number(temper_server::json::JsonNumber::Unsigned(3))),
    ]);
    let repair = publication(vec![member("migration_provenance", Json::Null)]);
    let evidence = Ok(BackfillProvenanceEvidence {
        provenance: provenance(),
        authorization_parent_type: None,
    });
    assert_eq!(
        replay_provenance_gap(&vec![content], &vec![repair], &evidence, &descriptor, &Ok(())),
        Ok(1)
    );
    assert_eq!(
        replay_provenance_gap(&vec![], &vec![], &evidence, &descriptor, &Ok(())),
        Err(text("backfill content provenance event is unavailable"))
    );
    let mut between = publication(vec![]);
    between.sequence_nr = 2;
    between.event_type = text("Renamed");
    assert_eq!(validate_replay_gap(&vec![between], 1, 1, "StreamUpdated"), Ok(()));
    let mut newer = publication(vec![]);
    newer.sequence_nr = 2;
    assert_eq!(
        validate_replay_gap(&vec![newer], 1, 1, "StreamUpdated"),
        Err(text("backfill provenance does not cover the latest content publication"))
    );
    assert_eq!(legacy_temper_fs_parent_type("Order"), None);
    let capability = StreamCapability {
        subject_type: text("NS.File"),
        mutability: StreamMutability::Mutable,
        authorization_parent_type: None,
        descriptor_contract_v1_active: true,
        migration_provenance: Some(provenance()),
    };
    assert_eq!(active_stream_publication_binding(&vec![capability.clone()], "File"), Some(0));
    assert_eq!(active_stream_publication_binding(&vec![capability], "Note"), None);
}

fn variable(kind: &str, target: Option<&str>) -> StateVariable {
    StateVariable {
        name: text("Owner"),
        canonical: text("owner"),
        var_type: Some(text(kind)),
        entity_type: target.map(text),
    }
}

#[test]
fn reference_contracts_are_audited() {
    assert!(is_contracted(&vec![variable("ref", Some("User"))], &vec![]));
    assert!(is_contracted(&vec![], &vec![false, true]));
    assert!(!is_contracted(&vec![variable("string", None)], &vec![false]));
    assert_eq!(
        reference_targets(
            "Doc",
            "d",
            &vec![variable("ref", Some("User"))],
            &vec![member("owner", Json::Text(text("u")))]
        )
        .unwrap()
        .len(),
        1
    );
    let assign = |v: &str| ReferenceEvent {
        field_update: true,
        replace: false,
        fields: vec![member("owner", Json::Text(text(v)))],
    };
    let refs = vec![variable("ref", Some("User"))];
    let audit = |history: HistoryRead, validation: Result<(), String>| {
        let fields = vec![member("owner", Json::Text(text("u")))];
        audit_reference_entity("Doc", "d", &refs, &fields, &history, &validation)
    };
    let read = |values: &[&str]| HistoryRead::Read(values.iter().map(|v| assign(v)).collect());
    assert_eq!(audit(read(&["u", "u"]), Ok(())), Ok(()));
    assert_eq!(
        audit(read(&["u", "v"]), Ok(())),
        Err(text(
            "ReferenceContractActivationAuditFailed:entity=Doc:id=d:field=Owner:historical_rebind"
        ))
    );
    assert_eq!(audit(read(&["u"]), Err(text("dangling"))), Err(text("dangling")));
    assert_eq!(
        audit(HistoryRead::Unreadable(text("down")), Ok(())),
        Err(text("ReferenceContractActivationAuditIncomplete:entity=Doc:id=d:journal=down"))
    );
    assert_eq!(
        audit(HistoryRead::Undecodable(text("bad")), Ok(())),
        Err(text("ReferenceContractActivationAuditIncomplete:entity=Doc:id=d:event_decode=bad"))
    );
    let create = |has_table: bool, body: &Json, derived: Result<Option<String>, String>| {
        prepare_reference_contract_create(has_table, Some("s"), body, &derived, &Ok(()))
    };
    let body = Json::Object(Vec::new());
    assert_eq!(create(false, &Json::Null, Ok(None)), Ok(Some(text("s"))));
    assert_eq!(create(true, &body, Ok(None)), Ok(None));
    assert_eq!(create(true, &body, Ok(Some(text("id")))), Ok(Some(text("id"))));
    assert_eq!(create(true, &body, Err(text("bad id"))), Err(text("bad id")));
    assert_eq!(
        create(true, &Json::Null, Ok(None)),
        Err(text("InvalidReferenceValue:create body must be an object"))
    );
    let fields = prospective_fields(&Json::Object(Vec::new()), "d", "Open").unwrap();
    assert_eq!(fields.get_text("Id"), Some("d"));
    assert_eq!(fields.get_text("Status"), Some("Open"));
    assert_eq!(
        prospective_fields(&Json::Null, "d", "Open"),
        Err(text("InvalidReferenceValue:create body must be an object"))
    );
    assert!(!needs_current_state(&vec![], &vec![]));
}

#[test]
fn evidence_on_references_stands_over_guards() {
    let facts = action_evidence(
        &vec![(text("g"), true), (text("r"), false)],
        &vec![(text("r"), true)],
    );
    assert_eq!(facts.get(&text("g")), Some(&true));
    assert_eq!(facts.get(&text("r")), Some(&true));
    assert_eq!(facts.len(), 2);
}
