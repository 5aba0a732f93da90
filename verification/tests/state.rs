use temper_server::catalog::{
    add_trajectory_counts, entity_set_map, find_entity_ioa_source, newest_first, trajectory_source,
    EntityMutationError, TrajectorySource,
};
use temper_server::json::{Json, JsonNumber};
use temper_server::observe::{
    design_time_refresh_hints, entity_key_of, EntityObserveEvent, ObserveLog, ObserveRefreshHint,
    OBSERVE_LOG_BUDGET,
};
use temper_server::ordered::OrdMap;
use temper_server::parity::QueryProjectionReplayParityReport;
use temper_server::rate_limit::{
    commons_rate_limit_entity_id, consume_key_of, consume_params, is_rate_limited,
    load_runtime_rate_limit_bucket, rate_limit_id_slug, read_i64, settle_token, take_token,
    CommonsRateLimitError, ConsumeReply, RuntimeRateLimitBucket, StoredBucket,
};
use temper_server::sessions::{
    change_secret, decision_status_word, load_tenant_secrets, persist_pending_decision,
    session_grant_verified, ApprovedScope, DecisionStatus, DecryptedSecret, DurationScope,
    MetadataBackend, PendingDecision, SecretChange, SecretRow,
};
use temper_server::status_cache::EntityStatusCache;
use temper_server::supervisor::{
    drivable_migrations, handoff_failure_text, lease_clock, migration_is_drivable, worker_is_retired, HandoffFailure,
    MigrationLease, RecoveryCycle, RecoverySchedule, RECOVERY_RETRY_NANOS,
};
use temper_server::time::Timestamp;

fn text(s: &str) -> String {
    s.to_string()
}

fn at(secs: i64) -> Timestamp {
    Timestamp { secs, nanos: 0 }
}

#[test]
fn sequences_only_grow() {
    let mut log = ObserveLog::new();
    assert_eq!(log.next_entity_event_sequence("t", "E", "e"), 1);
    assert_eq!(log.next_entity_event_sequence("t", "E", "e"), 2);
    assert_eq!(log.next_entity_event_sequence("t", "E", "f"), 1);
    assert!(log.record_entity_observe_event_with_seq("t", "E", "e", 9, "x", Json::Null));
    assert_eq!(log.next_entity_event_sequence("t", "E", "e"), 10);
    assert_eq!(entity_key_of("t", "E", "e"), "t:E:e");
}

#[test]
fn an_event_is_logged_once_and_replayed_in_order() {
    let mut log = ObserveLog::new();
    for seq in [1, 2, 3] {
        assert!(log.record_entity_observe_event_with_seq("t", "E", "e", seq, "x", Json::Null));
    }
    let again = EntityObserveEvent {
        tenant: text("t"),
        entity_type: text("E"),
        entity_id: text("e"),
        seq: 2,
        event_name: text("x"),
        data: Json::Null,
    };
    let before = log.replay_entity_observe_events("t", "E", "e", 0);
    log.push_entity_observe_event(again);
    let after = log.replay_entity_observe_events("t", "E", "e", 0);
    assert_eq!(before, after);
    let seqs: Vec<u64> = log
        .replay_entity_observe_events("t", "E", "e", 1)
        .iter()
        .map(|e| e.seq)
        .collect();
    assert_eq!(seqs, vec![2, 3]);
    assert!(log.replay_entity_observe_events("t", "E", "none", 0).is_empty());
}

#[test]
fn the_log_of_an_entity_is_bounded() {
    let mut log = ObserveLog::new();
    for seq in 1..=(OBSERVE_LOG_BUDGET as u64 + 5) {
        log.record_entity_observe_event_with_seq("t", "E", "e", seq, "x", Json::Null);
    }
    let all = log.replay_entity_observe_events("t", "E", "e", 0);
    assert_eq!(all.len(), OBSERVE_LOG_BUDGET);
    assert_eq!(all[0].seq, 6);
    assert!(design_time_refresh_hints().contains(&ObserveRefreshHint::Specs));
}

#[test]
fn a_clean_report_has_no_drift() {
    let mut report = QueryProjectionReplayParityReport::default();
    assert!(report.is_clean());
    report.matched = 3;
    report.deleted_absent = 1;
    assert!(report.is_clean());
    report.missing = 1;
    assert!(!report.is_clean());
}

fn bucket_fields(tokens: u64) -> Json {
    Json::Object(vec![
        (text("OwnerId"), Json::Text(text("o"))),
        (text("ActionClass"), Json::Text(text("write"))),
        (text("Capacity"), Json::Number(JsonNumber::Unsigned(10))),
        (text("RefillPerSecond"), Json::Number(JsonNumber::Unsigned(2))),
        (text("Tokens"), Json::Number(JsonNumber::Unsigned(tokens))),
    ])
}

fn buckets(tokens: u64) -> (OrdMap<String, RuntimeRateLimitBucket>, String) {
    let bucket = RuntimeRateLimitBucket {
        owner_id: text("o"),
        action_class: text("write"),
        tokens: tokens as i64,
        capacity: 10,
        refill_per_second: 2,
        last_refill_at: at(100),
    };
    let mut map = OrdMap::new();
    map.insert(text("k"), bucket);
    (map, text("k"))
}

#[test]
fn a_token_is_taken_and_given_back() {
    let (mut map, key) = buckets(3);
    let taken = take_token(&mut map, &key, "o", "write", at(100)).unwrap();
    assert_eq!(taken.tokens_after_consume, 2);
    assert_eq!(map.get(&key).unwrap().tokens, 2);
    assert!(settle_token(
        &mut map,
        &key,
        "b",
        taken,
        &ConsumeReply::Failed(text("down"))
    )
    .is_err());
    assert_eq!(map.get(&key).unwrap().tokens, 3);

    let taken = take_token(&mut map, &key, "o", "write", at(100)).unwrap();
    assert_eq!(settle_token(&mut map, &key, "b", taken, &ConsumeReply::Applied), Ok(()));
    assert_eq!(map.get(&key).unwrap().tokens, 2);
}

#[test]
fn an_empty_bucket_refills_with_time() {
    let (mut map, key) = buckets(0);
    match take_token(&mut map, &key, "o", "write", at(100)) {
        Err(CommonsRateLimitError::Exceeded(e)) => {
            assert_eq!(e.owner_id, "o");
            assert_eq!(e.retry_after_secs, Some(1));
        }
        other => panic!("{other:?}"),
    }
    let taken = take_token(&mut map, &key, "o", "write", at(103)).unwrap();
    assert_eq!(taken.tokens_after_consume, 5);
    let taken = take_token(&mut map, &key, "o", "write", at(1_000)).unwrap();
    assert_eq!(taken.tokens_after_consume, 9);
}

#[test]
fn buckets_are_read_from_fields() {
    let bucket = RuntimeRateLimitBucket::from_fields(&bucket_fields(4), at(50)).unwrap();
    assert_eq!((bucket.tokens, bucket.capacity, bucket.refill_per_second), (4, 10, 2));
    assert_eq!(bucket.last_refill_at, at(50));
    let full = RuntimeRateLimitBucket::from_fields(&bucket_fields(40), at(50)).unwrap();
    assert_eq!(full.tokens, 10);
    let mut dated = bucket_fields(4);
    dated.put("LastRefillAt", Json::Text(text("1970-01-01T00:00:07Z")));
    let bucket = RuntimeRateLimitBucket::from_fields(&dated, at(50)).unwrap();
    assert_eq!(bucket.last_refill_at, at(7));
    assert_eq!(
        RuntimeRateLimitBucket::from_fields(&Json::Object(Vec::new()), at(50)),
        Err(CommonsRateLimitError::Internal(text("RateLimit.OwnerId missing")))
    );
    assert_eq!(read_i64(&bucket_fields(4), "Tokens"), Some(4));
    assert_eq!(read_i64(&bucket_fields(4), "OwnerId"), None);
}

#[test]
fn only_active_buckets_limit_writes() {
    let stored = |status: &str| {
        Some(Ok(StoredBucket {
            status: text(status),
            fields: bucket_fields(4),
        }))
    };
    assert_eq!(load_runtime_rate_limit_bucket("b", &None, at(5)), Ok(None));
    assert_eq!(load_runtime_rate_limit_bucket("b", &stored("Paused"), at(5)), Ok(None));
    let bucket = load_runtime_rate_limit_bucket("b", &stored("Active"), at(5)).unwrap();
    assert_eq!(bucket.unwrap().tokens, 4);
    assert_eq!(
        load_runtime_rate_limit_bucket("b", &Some(Err(text("gone"))), at(5)),
        Err(CommonsRateLimitError::Internal(text(
            "failed to load rate-limit bucket b: gone"
        )))
    );
    let (mut map, key) = buckets(3);
    let taken = take_token(&mut map, &key, "o", "write", at(100)).unwrap();
    let params = consume_params(&taken).unwrap();
    assert_eq!(params.get_unsigned("Tokens"), Some(2));
    assert_eq!(params.get_text("LastRefillAt"), Some("1970-01-01T00:01:40+00:00"));
}

#[test]
fn rate_limits_are_named_by_owner_and_class() {
    assert_eq!(
        commons_rate_limit_entity_id("a b", "write"),
        commons_rate_limit_entity_id("a b", "write")
    );
    assert_ne!(
        commons_rate_limit_entity_id("a", "write"),
        commons_rate_limit_entity_id("b", "write")
    );
    assert!(rate_limit_id_slug("A b/c").chars().all(|c| c.is_ascii_alphanumeric() || c == '-' || c == '_'));
    assert!(!is_rate_limited("", "write"));
    assert!(is_rate_limited("o", "write"));
    assert_ne!(consume_key_of("t", "b", at(1), 2), consume_key_of("t", "b", at(1), 3));
}

fn decision(status: DecisionStatus, session: &str) -> PendingDecision {
    PendingDecision {
        agent_id: text("a"),
        status,
        approved_scope: Some(ApprovedScope {
            duration: DurationScope::Session,
            session_id: Some(text(session)),
        }),
    }
}

#[test]
fn a_grant_binds_one_agent_and_session() {
    let granted = Some(Ok(vec![Ok(decision(DecisionStatus::Approved, "s"))]));
    assert!(session_grant_verified(&granted, "a", "s"));
    assert!(!session_grant_verified(&granted, "b", "s"));
    assert!(!session_grant_verified(&granted, "a", "other"));
    let denied = Some(Ok(vec![Ok(decision(DecisionStatus::Denied, "s"))]));
    assert!(!session_grant_verified(&denied, "a", "s"));
    assert!(!session_grant_verified(&None, "a", "s"));
    assert!(!session_grant_verified(&Some(Err(text("down"))), "a", "s"));
    assert_eq!(decision_status_word(DecisionStatus::Approved), "approved");
}

#[test]
fn secrets_are_loaded_up_to_the_first_that_is_not_text() {
    let rows = vec![
        SecretRow { key_name: text("a"), secret: DecryptedSecret::Plain(text("x")) },
        SecretRow { key_name: text("b"), secret: DecryptedSecret::Failed },
        SecretRow { key_name: text("c"), secret: DecryptedSecret::Plain(text("y")) },
    ];
    let loaded = load_tenant_secrets(&rows);
    assert_eq!(loaded.values, vec![(text("a"), text("x")), (text("c"), text("y"))]);
    assert_eq!(loaded.failure, None);
    let rows = vec![
        SecretRow { key_name: text("a"), secret: DecryptedSecret::NotText(text("bad utf8")) },
        SecretRow { key_name: text("c"), secret: DecryptedSecret::Plain(text("y")) },
    ];
    let loaded = load_tenant_secrets(&rows);
    assert!(loaded.values.is_empty());
    assert!(loaded.failure.is_some());
}

#[test]
fn stores_say_why_they_did_not_keep() {
    let ephemeral = MetadataBackend::Ephemeral(text("not kept"));
    let fine: Result<(), String> = Ok(());
    let down: Result<(), String> = Err(text("down"));
    assert_eq!(persist_pending_decision("d", &MetadataBackend::Nothing, &down, &down), Ok(()));
    assert_eq!(
        persist_pending_decision("d", &MetadataBackend::Turso, &down, &fine),
        Err(text("failed to serialize decision d: down"))
    );
    assert_eq!(
        persist_pending_decision("d", &MetadataBackend::Turso, &fine, &down),
        Err(text("failed to persist pending decision d in turso: down"))
    );
    assert_eq!(
        persist_pending_decision("d", &MetadataBackend::Postgres, &fine, &down),
        Err(text("failed to persist pending decision d in postgres: down"))
    );
    assert_eq!(persist_pending_decision("d", &ephemeral, &fine, &fine), Err(text("not kept")));
    let failed: Result<bool, String> = Err(text("down"));
    let change = |b: &MetadataBackend| change_secret(SecretChange::Delete, "t", "k", b, &failed);
    assert_eq!(change(&MetadataBackend::Nothing), Ok(false));
    assert_eq!(
        change(&MetadataBackend::Postgres),
        Err(text("failed to delete secret t/k: down"))
    );
    assert_eq!(
        change(&MetadataBackend::Turso),
        Err(text("failed to delete secret t/k in turso: down"))
    );
    assert_eq!(
        change_secret(SecretChange::Upsert, "t", "k", &MetadataBackend::Turso, &Ok(true)),
        Ok(true)
    );
}

#[test]
fn the_last_status_is_remembered() {
    let mut cache = EntityStatusCache::new(2);
    cache.cache_entity_status(text("a"), text("Open"), at(1));
    cache.cache_entity_status(text("b"), text("Open"), at(2));
    cache.cache_entity_status(text("a"), text("Closed"), at(3));
    cache.cache_entity_status(text("c"), text("Open"), at(4));
    assert_eq!(
        cache.recent(),
        vec![
            (text("c"), (text("Open"), 4, 0)),
            (text("a"), (text("Closed"), 3, 0)),
        ]
    );
}

#[test]
fn due_tenants_are_handed_out_and_rescheduled() {
    let mut schedule = RecoverySchedule::start(&vec![text("a"), text("b")], 100);
    assert_eq!(schedule.due_tenants(100), vec![text("a"), text("b")]);
    schedule.finish("a", 100, RecoveryCycle::Failed);
    schedule.finish("b", 100, RecoveryCycle::Ran(500));
    assert!(schedule.due_tenants(100).is_empty());
    assert_eq!(schedule.next_due(100), 600);
    assert_eq!(schedule.due_tenants(100 + RECOVERY_RETRY_NANOS), vec![text("a"), text("b")]);
    schedule.wake(&vec![text("c")], 200);
    assert_eq!(schedule.due_tenants(200), vec![text("c")]);
    assert!(worker_is_retired(false, 1, 1));
    assert!(worker_is_retired(true, 2, 1));
    assert!(!worker_is_retired(true, 1, 1));
}

#[test]
fn a_lease_keeps_others_away_until_it_expires() {
    let waiting = MigrationLease { migrating: false, lease_expires_at: None };
    assert!(migration_is_drivable(&waiting, 10));
    let held = MigrationLease { migrating: true, lease_expires_at: Some(20) };
    assert!(!migration_is_drivable(&held, 10));
    assert!(migration_is_drivable(&held, 20));
    let unleased = MigrationLease { migrating: true, lease_expires_at: None };
    assert!(!migration_is_drivable(&unleased, 10));
    assert_eq!(drivable_migrations(&vec![waiting, held.clone(), unleased], 10), vec![0]);
    assert_eq!(drivable_migrations(&vec![held], 20), vec![0]);
    assert_eq!(lease_clock(-5), 0);
    assert_eq!(lease_clock(5), 5);
    assert_ne!(
        handoff_failure_text(HandoffFailure::Full),
        handoff_failure_text(HandoffFailure::Closed)
    );
}

#[test]
fn catalogs_are_read() {
    let map = entity_set_map(&vec![(text("Orders"), text("NS.Order"))]);
    assert_eq!(map.get(&text("Orders")), Some(&text("Order")));
    assert_eq!(
        find_entity_ioa_source(&vec![(text("a"), None), (text("b"), Some(text("src")))]),
        Some((text("b"), text("src")))
    );
    assert_eq!(trajectory_source(&Some(text("Platform"))), Some(TrajectorySource::Platform));
    assert_eq!(trajectory_source(&Some(text("other"))), None);
    assert_eq!(
        newest_first(&vec![text("2"), text("3"), text("1")], 2),
        vec![1, 0]
    );
    let mut counts = OrdMap::new();
    add_trajectory_counts(&mut counts, &vec![(text("t"), 2), (text("t"), 3)]);
    assert_eq!(counts.get(&text("t")), Some(&5));
    add_trajectory_counts(&mut counts, &vec![(text("u"), 0)]);
    assert_eq!(counts.get(&text("u")), Some(&0));
    assert_eq!(counts.len(), 2);
    assert_eq!(EntityMutationError::Applied(text("x")).diagnostic(), "x");
}
