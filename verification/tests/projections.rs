use temper_server::bootstrap::{
    bootstrap_creation, bootstrap_creation_in_memory, bootstrap_creation_is_owned_by, bootstrap_creation_sequence,
    scan_bootstrap_page, PayloadEnvelope, ReplayCursor, ReplayStep, MAX_REPLAY_BUDGET,
};
use temper_server::creation::{
    creation_fields, creation_manifest, key_rows, schema_identity, spawn_contract, CoverageKey,
    CoveragePass, CoverageStep, ManifestEntity, ManifestProperty, RepairedEntity,
};
use temper_server::digest::sha256_hex;
use temper_server::json::{Json, JsonNumber};
use temper_server::ordered::{OrdMap, Pair};
use temper_server::projection_backfill::{
    considered_by_type, enumerate_entities, index_is_covered, load_entity_current_fields,
    replay_plan, snapshot_plan, EntityLoadOutcome, FieldIndexRun, FieldIndexStep, ReplayOutcome,
    ReplayPlan, SnapshotOutcome, SnapshotPlan, SnapshotRead,
};
use temper_server::query_projection::{
    projection_row, query_projection_fields, query_projection_state, unindexed_variables,
    ProjectionRow, ReplayedEntity,
};
use temper_server::stream::EntityEvent;
use temper_server::time::Timestamp;

fn text(s: &str) -> String {
    s.to_string()
}

fn pair(a: &str, b: &str) -> Pair {
    Pair { first: text(a), second: text(b) }
}

fn replayed(status: &str, events: u64) -> ReplayedEntity {
    ReplayedEntity {
        status: text(status),
        total_event_count: events,
        sequence_nr: events,
        fields: Json::Object(vec![(text("a"), Json::Null)]),
        encoded: Ok(Json::Object(vec![
            (text("events"), Json::Array(vec![Json::Null])),
            (text("status"), Json::Text(text(status))),
        ])),
    }
}

fn row(status: &str, events: u64) -> ProjectionRow {
    ProjectionRow {
        status: text(status),
        fields: Json::Object(vec![(text("a"), Json::Null)]),
        state: Json::Object(vec![
            (text("events"), Json::Array(Vec::new())),
            (text("status"), Json::Text(text(status))),
        ]),
        sequence_nr: events,
    }
}

#[test]
fn a_failed_load_blocks_the_watermark() {
    assert_eq!(
        load_entity_current_fields(false, Ok(replayed("Open", 1))),
        EntityLoadOutcome::LoadFailed
    );
    assert_eq!(
        load_entity_current_fields(true, Err(text("e"))),
        EntityLoadOutcome::LoadFailed
    );
    assert_eq!(
        load_entity_current_fields(true, Ok(replayed("Deleted", 3))),
        EntityLoadOutcome::Skip
    );
    assert_eq!(
        load_entity_current_fields(true, Ok(replayed("Open", 0))),
        EntityLoadOutcome::Skip
    );
    assert!(matches!(
        load_entity_current_fields(true, Ok(replayed("Open", 1))),
        EntityLoadOutcome::Fields(_)
    ));
    assert!(index_is_covered(&vec![EntityLoadOutcome::Skip]));
    assert!(!index_is_covered(&vec![EntityLoadOutcome::Skip, EntityLoadOutcome::LoadFailed]));
}

#[test]
fn a_replayed_entity_is_indexed_or_removed() {
    assert_eq!(
        replay_plan(false, &Ok(replayed("Open", 1)), &None),
        ReplayPlan::Settled(ReplayOutcome::MissingTable)
    );
    assert_eq!(
        replay_plan(true, &Ok(replayed("Deleted", 0)), &None),
        ReplayPlan::Settled(ReplayOutcome::Empty)
    );
    assert_eq!(replay_plan(true, &Ok(replayed("Deleted", 2)), &None), ReplayPlan::Remove);
    assert_eq!(
        replay_plan(true, &Ok(replayed("Open", 2)), &None),
        ReplayPlan::Upsert(row("Open", 2))
    );
}

#[test]
fn a_finished_backfill_leaves_nothing() {
    let entities = enumerate_entities(
        &vec![text("A"), text("B"), text("C")],
        &vec![Ok(vec![text("1"), text("2")]), Err(text("down")), Ok(vec![text("3")])],
    );
    assert_eq!(entities, vec![pair("A", "1"), pair("A", "2"), pair("C", "3")]);
    let mut run = FieldIndexRun::begin(entities);
    assert_eq!(run.step(), FieldIndexStep::Snapshot(0));
    assert_eq!(run.enter_snapshot(SnapshotOutcome::Indexed), Some("ok"));
    assert_eq!(run.enter_snapshot(SnapshotOutcome::Missing), Some("missing_snapshot"));
    assert_eq!(run.enter_snapshot(SnapshotOutcome::Unreadable), None);
    assert_eq!(run.step(), FieldIndexStep::Replay(1));
    assert_eq!(run.enter_replay(ReplayOutcome::Removed), Some("deleted_removed"));
    assert_eq!(run.step(), FieldIndexStep::Replay(2));
    assert_eq!(run.enter_replay(ReplayOutcome::Indexed), Some("ok"));
    assert_eq!(run.step(), FieldIndexStep::Finished);
    assert_eq!(run.tally.indexed, 2);
    assert_eq!(run.tally.indexed + run.tally.errors + run.tally.removed, 3);
    assert_eq!(run.tally.needs_replay, 0);
}

#[test]
fn a_snapshot_that_does_not_decode_is_replayed() {
    assert_eq!(
        snapshot_plan(&SnapshotRead::Undecodable, &None),
        SnapshotPlan::Settled(SnapshotOutcome::Unreadable)
    );
    assert_eq!(
        snapshot_plan(&SnapshotRead::Absent, &None),
        SnapshotPlan::Settled(SnapshotOutcome::Missing)
    );
    assert_eq!(
        snapshot_plan(&SnapshotRead::Failed, &None),
        SnapshotPlan::Settled(SnapshotOutcome::LoadFailed)
    );
    assert_eq!(
        snapshot_plan(&SnapshotRead::Read(replayed("Open", 2)), &None),
        SnapshotPlan::Upsert(row("Open", 2))
    );
    let mut run = FieldIndexRun::begin(vec![pair("A", "1")]);
    run.enter_snapshot(SnapshotOutcome::Unreadable);
    assert_eq!(run.tally.needs_replay, 1);
    assert_eq!(run.step(), FieldIndexStep::Replay(0));
}

#[test]
fn entities_are_counted_by_type() {
    let counts = considered_by_type(&vec![text("A"), text("B"), text("A")]);
    assert_eq!(counts.get(&text("A")), Some(&2));
    assert_eq!(counts.get(&text("B")), Some(&1));
    assert_eq!(counts.len(), 2);
}

#[test]
fn projections_hide_what_is_not_queried() {
    let fields = Json::Object(vec![(text("a"), Json::Null), (text("b"), Json::Bool(true))]);
    assert_eq!(
        query_projection_fields(&fields, &Some(vec![text("a")])),
        Json::Object(vec![(text("b"), Json::Bool(true))])
    );
    assert_eq!(query_projection_fields(&fields, &None), fields);
    let state = Json::Object(vec![(text("events"), Json::Array(vec![Json::Null]))]);
    assert_eq!(
        query_projection_state(&Ok(state)),
        Json::Object(vec![(text("events"), Json::Array(Vec::new()))])
    );
}

#[test]
fn hidden_variables_are_not_projected() {
    let declared = vec![
        (text("b"), Some(false)),
        (text("a"), Some(true)),
        (text("c"), None),
        (text("d"), Some(false)),
    ];
    let hidden = unindexed_variables(&declared);
    assert_eq!(hidden, vec![text("b"), text("d")]);
    let mut entity = replayed("Open", 3);
    let names = ["a", "b", "c", "d"];
    entity.fields =
        Json::Object(names.iter().map(|name| (text(name), Json::Bool(true))).collect());
    let shown = Json::Object(vec![
        (text("a"), Json::Bool(true)),
        (text("c"), Json::Bool(true)),
    ]);
    let projected = projection_row(&entity, &Some(hidden));
    assert_eq!(projected.fields, shown);
    assert_eq!(projected.state, row("Open", 3).state);
    assert_eq!((projected.status.as_str(), projected.sequence_nr), ("Open", 3));
    let hidden = Some(vec![text("b"), text("d")]);
    match snapshot_plan(&SnapshotRead::Undecodable, &hidden) {
        SnapshotPlan::Settled(outcome) => assert_eq!(outcome, SnapshotOutcome::Unreadable),
        other => panic!("{other:?}"),
    }
    match replay_plan(true, &Ok(entity), &hidden) {
        ReplayPlan::Upsert(written) => assert_eq!(written.fields, shown),
        other => panic!("{other:?}"),
    }
    assert_eq!(
        query_projection_state(&Err(text("no encoding"))),
        Json::Object(Vec::new())
    );
}

fn covered(schema: &str, id: &str) -> Option<RepairedEntity> {
    Some(RepairedEntity {
        key: CoverageKey {
            schema_identity: text(schema),
            contract_revision: 1,
            declared_key_signature: text("k"),
        },
        entity_id: text(id),
    })
}

#[test]
fn coverage_is_published_only_after_a_stable_pass() {
    let listed = vec![text("b"), text("a"), text("c")];
    let mut pass = CoveragePass::begin(&listed, 7);
    assert_eq!(pass.ids, vec![text("a"), text("b"), text("c")]);
    assert_eq!(pass.step(), CoverageStep::Repair(0));
    pass.enter(covered("s", "a"));
    pass.enter(covered("t", "b"));
    pass.enter(covered("s", "c"));
    assert_eq!(pass.step(), CoverageStep::Recheck);
    assert!(pass.settle(&Some(vec![text("c"), text("b"), text("a")]), Some(7)));
    assert!(!pass.settle(&Some(vec![text("c"), text("b")]), Some(7)));
    assert!(!pass.settle(&Some(listed.clone()), Some(8)));
    assert!(!pass.settle(&None, Some(7)));
    assert!(!pass.settle(&Some(listed.clone()), None));
    let key = covered("s", "x").unwrap().key;
    let group = pass.groups.get(&key).unwrap();
    assert_eq!((group.first, group.cursor.as_str()), (0, "c"));
    assert_eq!(pass.groups.len(), 2);

    let mut pass = CoveragePass::begin(&listed, 7);
    pass.enter(covered("s", "a"));
    pass.enter(None);
    assert_eq!(pass.step(), CoverageStep::Recheck);
    assert!(!pass.settle(&Some(listed), Some(7)));
}

#[test]
fn key_rows_are_in_order() {
    let keys = vec![
        (text("z"), Some(text("1"))),
        (text("a"), None),
        (text("a"), Some(text("2"))),
    ];
    assert_eq!(key_rows(&keys, false), vec![pair("a", "2"), pair("z", "1")]);
    assert!(key_rows(&keys, true).is_empty());
}

#[test]
fn creation_follows_the_manifest() {
    let manifest = ManifestEntity {
        entity_type: text("Doc"),
        properties: vec![ManifestProperty { canonical_name: text("Id"), is_entity_id: true }],
    };
    let mut manifests = OrdMap::new();
    manifests.insert(text("Doc"), manifest.clone());
    assert_eq!(creation_manifest(&manifests, "Doc"), Ok(&manifest));
    assert!(creation_manifest(&manifests, "Other").is_err());
    let fields = creation_fields(&Json::Object(Vec::new()), &manifest, "d-1").unwrap();
    assert_eq!(fields.get_text("Id"), Some("d-1"));
    assert!(creation_fields(&Json::Null, &manifest, "d-1").is_err());
    assert_eq!(schema_identity(Some("pin"), "csdl"), "pin");
    assert!(schema_identity(None, "csdl").ends_with(&sha256_hex(b"csdl")));
    assert_eq!(spawn_contract(true, true, true, false).is_some(), true);
}

fn envelope(sequence_nr: u64, key: &str) -> PayloadEnvelope {
    PayloadEnvelope {
        sequence_nr,
        payload: Json::Object(vec![
            (text("action"), Json::Text(text("Go"))),
            (text("idempotency_key"), Json::Text(text(key))),
            (text("params"), Json::Object(Vec::new())),
        ]),
    }
}

#[test]
fn a_bootstrap_replay_is_bounded() {
    assert!(ReplayCursor::start(0).is_err());
    assert!(ReplayCursor::start(MAX_REPLAY_BUDGET + 1).is_err());
    let cursor = ReplayCursor::start(2).unwrap();
    let limit = cursor.page_limit().unwrap();
    assert!(limit >= 1);
    let step = scan_bootstrap_page(
        cursor,
        &vec![],
        limit,
        "k",
        "Go",
        &Ok(Json::Object(Vec::new())),
        "outcome",
    )
    .unwrap();
    assert_eq!(step, ReplayStep::Absent);
    let cursor = ReplayCursor::start(2).unwrap();
    let found = scan_bootstrap_page(
        cursor,
        &vec![envelope(1, "k")],
        limit,
        "k",
        "Other",
        &Ok(Json::Object(Vec::new())),
        "outcome",
    );
    assert!(found.is_err());
}

fn created(key: Option<&str>) -> EntityEvent {
    EntityEvent {
        action: text("Created"),
        from_status: String::new(),
        to_status: text("Open"),
        timestamp: Timestamp { secs: 0, nanos: 0 },
        params: Json::Number(JsonNumber::Unsigned(0)),
        idempotency_key: key.map(text),
    }
}

#[test]
fn a_bootstrap_creation_is_owned_by_its_key() {
    let none: OrdMap<String, u64> = OrdMap::new();
    let owned = |first: Option<(u64, Result<EntityEvent, String>)>| {
        bootstrap_creation_is_owned_by(&Some(Ok(first)), &none, "k")
    };
    assert_eq!(owned(Some((1, Ok(created(Some("k")))))), Ok(true));
    assert_eq!(owned(Some((1, Ok(created(Some("j")))))), Ok(false));
    assert_eq!(owned(Some((1, Ok(created(None))))), Ok(false));
    assert_eq!(owned(None), Ok(false));
    assert_eq!(
        bootstrap_creation_is_owned_by(&Some(Err(text("down"))), &none, "k"),
        Err(text("bootstrap creation journal read failed: down"))
    );
    assert_eq!(bootstrap_creation_is_owned_by(&None, &none, "k"), Ok(false));
    assert_eq!(
        bootstrap_creation(&Some(Ok(Some((1, Ok(created(Some("k"))))))), &none, "k"),
        Ok(1)
    );
    assert!(bootstrap_creation(&Some(Ok(None)), &none, "k").is_err());
    assert!(bootstrap_creation(&None, &none, "k").is_err());
    assert_eq!(bootstrap_creation_sequence(&Some((1, Ok(created(Some("k"))))), "k"), Ok(1));
    assert!(bootstrap_creation_sequence(&None, "k").is_err());
    let mut processed = OrdMap::new();
    processed.insert(text("k"), 1u64);
    assert_eq!(bootstrap_creation_in_memory(&processed, "k"), Ok(1));
    assert!(bootstrap_creation_in_memory(&processed, "j").is_err());
}

fn backfill(rows: &mut Vec<(Pair, ProjectionRow)>, store: &[(Pair, &str, u64)]) {
    for (entity, status, events) in store {
        let snapshot = match *status {
            "Snapshot" => SnapshotRead::Read(replayed("Open", *events)),
            "Broken" => SnapshotRead::Failed,
            _ => SnapshotRead::Undecodable,
        };
        let loaded = match snapshot_plan(&snapshot, &None) {
            SnapshotPlan::Upsert(state) => Some(state),
            SnapshotPlan::Settled(SnapshotOutcome::LoadFailed) => continue,
            SnapshotPlan::Settled(_) => match replay_plan(true, &Ok(replayed(status, *events)), &None) {
                ReplayPlan::Settled(_) => continue,
                ReplayPlan::Remove => None,
                ReplayPlan::Upsert(state) => Some(state),
            },
        };
        rows.retain(|(e, _)| e != entity);
        rows.extend(loaded.map(|state| (entity.clone(), state)));
    }
}

#[test]
fn a_backfill_converges() {
    let store = [
        (pair("A", "1"), "Snapshot", 2),
        (pair("A", "2"), "Open", 3),
        (pair("A", "3"), "Deleted", 4),
        (pair("A", "4"), "Open", 0),
        (pair("A", "5"), "Broken", 1),
    ];
    let mut rows = vec![
        (pair("A", "3"), row("Open", 1)),
        (pair("A", "5"), row("Open", 9)),
    ];
    backfill(&mut rows, &store);
    let mut once: Vec<(String, u64)> =
        rows.iter().map(|(e, r)| (e.second.clone(), r.sequence_nr)).collect();
    backfill(&mut rows, &store);
    let mut twice: Vec<(String, u64)> =
        rows.iter().map(|(e, r)| (e.second.clone(), r.sequence_nr)).collect();
    once.sort();
    twice.sort();
    assert_eq!(once, twice);
    assert_eq!(once, vec![(text("1"), 2), (text("2"), 3), (text("5"), 9)]);
}
