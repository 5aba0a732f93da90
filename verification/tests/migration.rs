use temper_server::digest::content_digest_of;
use temper_server::governed_inventory::{inventoried_publication, inventory_candidate};
use temper_server::governed_types::StreamDescriptorMigrationBudgetsV1;
use temper_server::json::{Json, JsonNumber};
use temper_server::ordered::{OrdSet, Pair};
use temper_server::provenance::{
    historical_stream_facts, legacy_temper_fs_provenance, local_type, validate_verified_capability,
};
use temper_server::reference_contract::{
    audit_reference_history, carried_names, is_configured, is_pg_actor_backed,
    reference_assignment, reference_event, AuditBudget, HistoricalAssignment, ReferenceEvent,
};
use temper_server::reference_evidence::{
    declared_references, reference_evidence, resolve_reference_targets, DeclaredReference,
    DeclaredVariable,
};
use temper_server::stream::{
    EntityEvent, Envelope, MigrationProvenance, StreamCapability, StreamDescriptor,
    StreamEntityRef, StreamMutability,
};
use temper_server::stream_migration::{
    admit_inventory_page, backfill_outcome, backfill_stream_descriptor_v1_inner,
    events_to_append, migration_complete, recorded_outcome, BackfillStep, DescriptorAuthority, StoreFailure, StoredStream,
    StreamDescriptorBackfillCandidateV1, StreamDescriptorBackfillOutcomeV1,
};
use temper_server::time::Timestamp;

fn text(s: &str) -> String {
    s.to_string()
}

fn provenance() -> MigrationProvenance {
    MigrationProvenance {
        publication_action: text("StreamUpdated"),
        content_hash_parameter: text("content_hash"),
        byte_length_parameter: text("size_bytes"),
        content_type_parameter: Some(text("mime_type")),
        authorization_parent_parameter: None,
        storage_contract_version: 1,
        storage_key_prefix: text("temper-fs/"),
    }
}

fn capability() -> StreamCapability {
    StreamCapability {
        subject_type: text("NS.File"),
        mutability: StreamMutability::Mutable,
        authorization_parent_type: None,
        descriptor_contract_v1_active: true,
        migration_provenance: Some(provenance()),
    }
}

fn published(sequence_nr: u64) -> Envelope {
    Envelope {
        sequence_nr,
        event_type: text("StreamUpdated"),
        event: Ok(EntityEvent {
            action: text("StreamUpdated"),
            from_status: text("Created"),
            to_status: text("Ready"),
            timestamp: Timestamp { secs: 0, nanos: 0 },
            params: Json::Object(vec![
                (text("content_hash"), Json::Text(content_digest_of(b"abc"))),
                (text("mime_type"), Json::Text(text("text/plain"))),
                (text("size_bytes"), Json::Number(JsonNumber::Unsigned(3))),
            ]),
            idempotency_key: None,
        }),
        descriptor: None,
    }
}

fn budgets() -> StreamDescriptorMigrationBudgetsV1 {
    StreamDescriptorMigrationBudgetsV1 {
        max_subjects: 4,
        max_events_per_subject: 8,
        max_blob_bytes: 5,
    }
}

#[test]
fn a_candidate_is_found_in_a_journal() {
    let mut consumed = 0;
    let candidate =
        inventory_candidate(&vec![published(1)], &capability(), "f", &budgets(), &mut consumed, &Ok(()))
            .unwrap();
    assert_eq!(candidate.entity_type, "File");
    assert_eq!(candidate.content_event_sequence, 1);
    assert_eq!(candidate.byte_length, 3);
    assert_eq!(
        candidate.storage_object_id,
        format!("temper-fs/{}", content_digest_of(b"abc"))
    );
    assert_eq!(consumed, 3);
    assert_eq!(
        inventory_candidate(&vec![published(1)], &capability(), "f", &budgets(), &mut consumed, &Ok(())),
        Err(text("blob_budget_exceeded"))
    );
    assert_eq!(consumed, 3);
    assert_eq!(
        inventory_candidate(&vec![], &capability(), "f", &budgets(), &mut consumed, &Ok(())),
        Err(text("missing_journal"))
    );
}

fn candidate() -> StreamDescriptorBackfillCandidateV1 {
    let mut consumed = 0;
    inventory_candidate(&vec![published(1)], &capability(), "f", &budgets(), &mut consumed, &Ok(()))
        .unwrap()
}

fn found(bytes: &[u8]) -> Result<StoredStream, String> {
    Ok(StoredStream::Found {
        content_length: bytes.len() as u64,
        chunks: vec![bytes[..1].to_vec(), bytes[1..].to_vec()],
    })
}

#[test]
fn an_appended_descriptor_is_backed() {
    let step = backfill_stream_descriptor_v1_inner(
        &vec![published(1)],
        &candidate(),
        &provenance(),
        None,
        &Ok(()),
        &found(b"abc"),
        &Ok(()),
        &DescriptorAuthority::Verified(capability()),
    )
    .unwrap();
    match &step {
        BackfillStep::Append { descriptor, .. } => {
            assert_eq!(descriptor.content_hash, content_digest_of(b"abc"));
            assert_eq!(descriptor.descriptor_event_sequence, 2);
            assert_eq!(descriptor.content_event_sequence, 1);
        }
        other => panic!("{other:?}"),
    }
    assert_eq!(
        backfill_outcome(&step, &Ok(())),
        Ok(StreamDescriptorBackfillOutcomeV1::Appended { descriptor_event_sequence: 2 })
    );
    assert!(backfill_outcome(
        &step,
        &Err(StoreFailure { concurrency: true, text: text("taken") })
    )
    .is_err());
    assert!(backfill_stream_descriptor_v1_inner(
        &vec![published(1)],
        &candidate(),
        &provenance(),
        None,
        &Ok(()),
        &found(b"abd"),
        &Ok(()),
        &DescriptorAuthority::Verified(capability()),
    )
    .is_err());
    assert!(backfill_stream_descriptor_v1_inner(
        &vec![published(1)],
        &candidate(),
        &provenance(),
        None,
        &Ok(()),
        &Ok(StoredStream::Missing),
        &Ok(()),
        &DescriptorAuthority::Verified(capability()),
    )
    .is_err());
}

#[test]
fn a_malformed_name_is_not_appended() {
    assert_eq!(
        backfill_stream_descriptor_v1_inner(
            &vec![published(1)],
            &candidate(),
            &provenance(),
            None,
            &Ok(()),
            &found(b"abc"),
            &Err(text("empty entity id")),
            &DescriptorAuthority::Verified(capability()),
        ),
        Err(text("empty entity id"))
    );
    assert_eq!(
        recorded_outcome(Err(text("gone"))),
        StreamDescriptorBackfillOutcomeV1::Unresolved { reason: text("gone") }
    );
}

#[test]
fn a_repair_runs_once() {
    let repair = |events: &Vec<Envelope>, candidate: &StreamDescriptorBackfillCandidateV1| {
        backfill_stream_descriptor_v1_inner(
            events,
            candidate,
            &provenance(),
            None,
            &Ok(()),
            &found(b"abc"),
            &Ok(()),
            &DescriptorAuthority::Verified(capability()),
        )
    };
    let mut events = vec![published(1)];
    let step = repair(&events, &candidate()).unwrap();
    let evidence = Json::Text(text("by these"));
    let made = events_to_append(&step, &evidence, Timestamp { secs: 9, nanos: 0 });
    assert_eq!(made.len(), 1);
    assert_eq!(made[0].sequence_nr, 2);
    assert_eq!(made[0].event_type, "_TemperStreamDescriptorBackfilledV1");
    let event = made[0].event.as_ref().unwrap();
    assert_eq!(event.action, "_TemperStreamDescriptorBackfilledV1");
    assert_eq!(event.from_status, event.to_status);
    assert_eq!(event.params.get("migration_provenance"), Some(&evidence));
    events.extend(made);
    let mut again = candidate();
    again.expected_current_sequence = 2;
    let step = repair(&events, &again).unwrap();
    assert_eq!(step, BackfillStep::AlreadyPresent { descriptor_event_sequence: 2 });
    assert!(events_to_append(&step, &evidence, Timestamp { secs: 9, nanos: 0 }).is_empty());
}

#[test]
fn a_malformed_parent_is_refused_before_any_byte_is_read() {
    let mut answers = provenance();
    answers.authorization_parent_parameter = Some(text("mime_type"));
    let bad = Err(text("empty entity type"));
    assert_eq!(
        historical_stream_facts(&published(1), &answers, "File", Some("NS.Folder"), &bad),
        Err(text("empty entity type"))
    );
    let facts = historical_stream_facts(
        &published(1),
        &answers,
        "File",
        Some("NS.Folder"),
        &Ok(()),
    )
    .unwrap();
    assert_eq!(
        facts.authorization_parent,
        Some(StreamEntityRef { entity_type: text("Folder"), entity_id: text("text/plain") })
    );
    let facts = historical_stream_facts(&published(1), &provenance(), "File", None, &bad).unwrap();
    assert_eq!(facts.authorization_parent, None);
    let mut parented = capability();
    parented.authorization_parent_type = Some(text("NS.Folder"));
    parented.migration_provenance = Some(answers);
    assert_eq!(
        inventoried_publication(&vec![published(1)], &parented, 4, &bad),
        Err(text("invalid_publication"))
    );
    let (at, facts) = inventoried_publication(&vec![published(1)], &parented, 4, &Ok(())).unwrap();
    assert_eq!(at, 0);
    assert!(facts.authorization_parent.is_some());
}

#[test]
fn pages_are_bounded_and_complete_only_when_resolved() {
    assert!(admit_inventory_page("c", 16, 1, &Ok(vec![0; 10])).is_ok());
    assert!(admit_inventory_page("c", 16, 257, &Ok(vec![0; 10])).is_err());
    assert!(admit_inventory_page("c", 16, 1, &Ok(vec![0; 1_048_577])).is_err());
    let done = StreamDescriptorBackfillOutcomeV1::AlreadyPresent { descriptor_event_sequence: 1 };
    let open = StreamDescriptorBackfillOutcomeV1::Unresolved { reason: text("x") };
    assert!(migration_complete(true, &vec![done.clone()]));
    assert!(!migration_complete(false, &vec![done.clone()]));
    assert!(!migration_complete(true, &vec![done, open]));
}

#[test]
fn facts_are_read_from_history() {
    let facts = historical_stream_facts(&published(1), &provenance(), "File", None, &Ok(())).unwrap();
    assert_eq!(facts.byte_length, 3);
    assert_eq!(facts.content_type, Some(text("text/plain")));
    let mut other = published(1);
    other.event_type = text("Else");
    assert_eq!(
        historical_stream_facts(&other, &provenance(), "File", None, &Ok(())),
        Err(text("historical stream event action differs from its envelope"))
    );
    assert_eq!(local_type("A.B.File"), "File");
    assert!(legacy_temper_fs_provenance("File").is_ok());
    assert!(legacy_temper_fs_provenance("Order").is_err());
    let mut descriptor = StreamDescriptor {
        subject: StreamEntityRef { entity_type: text("File"), entity_id: text("f") },
        authorization_parent: None,
        content_hash: text("h"),
        storage_object_id: text("o"),
        byte_length: 1,
        content_type: None,
        content_event_sequence: 1,
        descriptor_event_sequence: 1,
        mutability: StreamMutability::Mutable,
    };
    assert_eq!(validate_verified_capability(&descriptor, &capability()), Ok(()));
    descriptor.mutability = StreamMutability::Immutable;
    assert!(validate_verified_capability(&descriptor, &capability()).is_err());
}

fn reference() -> DeclaredReference {
    DeclaredReference {
        name: text("Owner"),
        snake_name: text("owner"),
        pascal_name: text("Owner"),
        target_type: text("User"),
    }
}

fn one(name: &str, value: &str) -> Json {
    Json::Object(vec![(text(name), Json::Text(text(value)))])
}

#[test]
fn references_are_resolved_from_the_write_before_the_state() {
    let targets = resolve_reference_targets(
        &one("owner", "u2"),
        &one("Owner", "u1"),
        &vec![reference()],
        &vec![reference()],
    );
    let expected = Pair { first: text("User"), second: text("u2") };
    assert_eq!(targets.items, vec![expected.clone()]);
    let targets = resolve_reference_targets(
        &Json::Object(Vec::new()),
        &one("Owner", "u1"),
        &vec![reference()],
        &vec![reference()],
    );
    assert_eq!(targets.items, vec![Pair { first: text("User"), second: text("u1") }]);
    let cleared =
        resolve_reference_targets(&one("Owner", ""), &one("Owner", "u1"), &vec![reference()], &vec![]);
    assert_eq!(cleared.len(), 0);
    let evidence = reference_evidence(&targets, &vec![true]);
    assert_eq!(
        evidence.get(&Pair { first: text("User"), second: text("u1") }),
        Some(&true)
    );
    let none: OrdSet<Pair> = OrdSet::new();
    assert_eq!(reference_evidence(&none, &vec![]).len(), 0);
}

#[test]
fn only_references_with_a_target_are_declared() {
    let variable = |kind: Option<&str>, target: Option<&str>| DeclaredVariable {
        name: text("Owner"),
        snake_name: text("owner"),
        pascal_name: text("Owner"),
        kind: kind.map(text),
        target_type: target.map(text),
    };
    let found = declared_references(&vec![
        variable(Some("string"), Some("User")),
        variable(Some("ref"), None),
        variable(None, Some("User")),
        variable(Some("ref"), Some("User")),
    ]);
    assert_eq!(found, vec![reference()]);
}

fn assigned(value: Json) -> ReferenceEvent {
    ReferenceEvent { field_update: true, replace: false, fields: vec![(text("owner"), value)] }
}

#[test]
fn an_audited_reference_never_changes() {
    let first = assigned(Json::Text(text("u1")));
    let same = assigned(Json::Text(text("u1")));
    let other = assigned(Json::Text(text("u2")));
    assert_eq!(
        audit_reference_history(&vec![first.clone_event(), same], "owner"),
        Ok(Some(text("u1")))
    );
    assert!(audit_reference_history(&vec![first, other], "owner").is_err());
    assert!(audit_reference_history(&vec![assigned(Json::Bool(true))], "owner").is_err());
    let mut budget = AuditBudget { audited: 0, entity_budget: 1 };
    assert_eq!(budget.take("E"), Ok(()));
    assert!(budget.take("E").is_err());
}

#[test]
fn actor_backed_types_are_configured_by_name_or_by_tenant() {
    let mut types: OrdSet<String> = OrdSet::new();
    types.insert(text("Order"));
    types.insert(text("acme:Task"));
    assert!(is_configured(&types, "acme", "Order"));
    assert!(is_configured(&types, "acme", "Task"));
    assert!(!is_configured(&types, "other", "Task"));
    assert!(is_pg_actor_backed(&types, "acme", "Task", false));
    assert!(!is_pg_actor_backed(&types, "acme", "Task", true));
    assert!(!is_pg_actor_backed(&types, "other", "Task", false));
}

#[test]
fn a_field_update_carries_its_fields() {
    let fields = Json::Object(vec![(text("Owner"), Json::Text(text("u1")))]);
    let update = Json::Object(vec![
        (text("fields"), fields),
        (text("replace"), Json::Bool(true)),
    ]);
    assert_eq!(carried_names(true, &update), vec![text("Owner")]);
    assert_eq!(
        reference_event(true, &update, &vec![text("owner")]),
        ReferenceEvent {
            field_update: true,
            replace: true,
            fields: vec![(text("owner"), Json::Text(text("u1")))],
        }
    );
    assert_eq!(carried_names(false, &update), vec![text("fields"), text("replace")]);
    let plain = Json::Object(vec![(text("OwnerId"), Json::Null)]);
    let event = reference_event(false, &plain, &vec![text("owner_id")]);
    assert!(!event.replace);
    assert_eq!(event.fields, vec![(text("owner_id"), Json::Null)]);
    let replaced = Json::Object(vec![(text("replace"), Json::Bool(true))]);
    let event = reference_event(true, &replaced, &vec![]);
    assert_eq!(reference_assignment(&event, "owner"), HistoricalAssignment::Clear);
    assert!(carried_names(false, &Json::Null).is_empty());
}

trait CloneEvent {
    fn clone_event(&self) -> ReferenceEvent;
}

impl CloneEvent for ReferenceEvent {
    fn clone_event(&self) -> ReferenceEvent {
        ReferenceEvent {
            field_update: self.field_update,
            replace: self.replace,
            fields: self.fields.iter().map(|(n, v)| (n.clone(), v.copy())).collect(),
        }
    }
}
