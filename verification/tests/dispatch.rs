use temper_server::dispatch_actions::{
    committed_event_place, dispatch_attempts, dispatch_error_kind,
    dispatch_idempotency_key, dispatch_outcome, expected_sequence, follow_up, guard_fields,
    plan_commit, require_journal, require_terminal_reaction_roots, truncate_request_body_for_log,
    AdmissionOutcome, DeliveryRecord, DispatchError, DispatchOutcome, ReactionDeliveryStatus,
    ReactionFollowUp, ReactionIntent, LOG_REQUEST_BODY_MAX_BYTES,
};
use temper_server::dispatch_run::{
    dispatch_failure_text, DispatchPhase, DispatchRequest, DispatchRun,
};
use temper_server::json::{Json, JsonNumber};
use temper_server::ordered::OrdSet;
use temper_server::retry::ActorError;

#[test]
fn short_body_is_logged_verbatim() {
    let body = r#"{"ProductId":"p-1"}"#;
    assert_eq!(truncate_request_body_for_log(body), body);
}

#[test]
fn oversized_ascii_body_is_marked_truncated() {
    let body = "a".repeat(LOG_REQUEST_BODY_MAX_BYTES + 100);
    let truncated = truncate_request_body_for_log(&body);
    assert!(truncated.ends_with("[truncated]"));
    assert_eq!(
        truncated.len(),
        LOG_REQUEST_BODY_MAX_BYTES + "[truncated]".len()
    );
}

#[test]
fn oversized_multibyte_body_does_not_panic_at_the_cap() {
    let body = "\u{4e16}".repeat(LOG_REQUEST_BODY_MAX_BYTES);
    let truncated = truncate_request_body_for_log(&body);
    assert!(truncated.ends_with("[truncated]"));
    assert!(truncated.len() <= LOG_REQUEST_BODY_MAX_BYTES + "[truncated]".len());
}

#[test]
fn a_body_at_the_cap_is_not_cut() {
    let body = "a".repeat(LOG_REQUEST_BODY_MAX_BYTES);
    assert_eq!(truncate_request_body_for_log(&body), body);
    let body = format!("{}\u{4e16}", "a".repeat(LOG_REQUEST_BODY_MAX_BYTES - 1));
    assert_eq!(
        truncate_request_body_for_log(&body),
        format!("{}[truncated]", "a".repeat(LOG_REQUEST_BODY_MAX_BYTES - 1))
    );
}

fn number(n: u64) -> Json {
    Json::Number(JsonNumber::Unsigned(n))
}

#[test]
fn parameters_lie_over_the_fields() {
    let fields = Json::Object(vec![
        ("a".to_string(), number(1)),
        ("b".to_string(), number(2)),
    ]);
    let params = Json::Object(vec![
        ("b".to_string(), number(3)),
        ("c".to_string(), number(4)),
    ]);
    assert_eq!(
        guard_fields(fields, &params),
        Json::Object(vec![
            ("a".to_string(), number(1)),
            ("b".to_string(), number(3)),
            ("c".to_string(), number(4)),
        ])
    );
    assert_eq!(guard_fields(Json::Null, &params), Json::Null);
}

#[test]
fn reactions_need_a_journal() {
    let plan = plan_commit(true, true, true, false);
    assert!(plan.reads_source() && plan.expects_intents());
    let plan = plan_commit(true, false, true, true);
    assert!(plan.reads_source() && plan.expects_intents());
    let plan = plan_commit(true, false, false, true);
    assert!(!plan.reads_source() && !plan.expects_intents());
    assert_eq!(require_journal(&plan), Ok(()));
    assert_eq!(
        require_journal(&plan_commit(true, true, false, false)),
        Err(DispatchError::Internal(
            "durable reactions require a configured event journal".to_string()
        ))
    );
}

fn intent(is_reaction: bool, root: &str) -> ReactionIntent {
    ReactionIntent {
        is_reaction,
        root_delivery_id: root.to_string(),
    }
}

#[test]
fn reactions_are_awaited_or_left_to_the_background() {
    let mixed = vec![intent(true, "r1"), intent(false, "t"), intent(true, "r1")];
    let follow = follow_up(&mixed, true);
    assert!(follow.notify_recovery);
    match follow.reactions {
        ReactionFollowUp::Await(roots) => assert_eq!(roots.items, vec!["r1".to_string()]),
        other => panic!("{other:?}"),
    }
    let follow = follow_up(&vec![intent(true, "r1")], false);
    assert!(follow.notify_recovery);
    assert_eq!(follow.reactions, ReactionFollowUp::Background);
    let follow = follow_up(&vec![intent(false, "t")], true);
    assert!(follow.notify_recovery);
    assert_eq!(follow.reactions, ReactionFollowUp::Nothing);
    let follow = follow_up(&Vec::new(), true);
    assert!(!follow.notify_recovery);
    assert_eq!(follow.reactions, ReactionFollowUp::Immediate);
}

fn delivery(id: &str, root: &str, status: ReactionDeliveryStatus) -> DeliveryRecord {
    DeliveryRecord {
        delivery_id: id.to_string(),
        root_delivery_id: root.to_string(),
        status,
    }
}

#[test]
fn an_awaited_tree_must_have_ended_well() {
    let mut roots = OrdSet::new();
    roots.insert("r".to_string());
    let done = vec![
        delivery("d1", "r", ReactionDeliveryStatus::Completed),
        delivery("d2", "other", ReactionDeliveryStatus::Rejected),
    ];
    assert_eq!(require_terminal_reaction_roots(&done, &roots), Ok(()));
    let failed = vec![
        delivery("d1", "r", ReactionDeliveryStatus::Pending),
        delivery("d2", "r", ReactionDeliveryStatus::DeadLettered),
    ];
    assert_eq!(
        require_terminal_reaction_roots(&failed, &roots),
        Err(DispatchError::Internal(
            "reaction delivery d2 reached terminal status DeadLettered".to_string()
        ))
    );
    let open = vec![delivery("d1", "r", ReactionDeliveryStatus::Claimed)];
    assert_eq!(
        require_terminal_reaction_roots(&open, &roots),
        Err(DispatchError::Internal(
            "reaction delivery d1 is incomplete in status Claimed".to_string()
        ))
    );
    assert_eq!(
        require_terminal_reaction_roots(&Vec::new(), &roots),
        Err(DispatchError::Internal(
            "awaited reaction tree r was not readable".to_string()
        ))
    );
}

#[test]
fn the_committed_event_is_found_by_its_sequence() {
    assert_eq!(committed_event_place(true, "t:E:e", 4, &vec![3, 4]), Ok(1));
    assert_eq!(
        committed_event_place(true, "t:E:e", 4, &vec![]),
        Err(DispatchError::Internal(
            "committed source event t:E:e@4 was not readable".to_string()
        ))
    );
    assert!(committed_event_place(true, "t:E:e", 0, &vec![0]).is_err());
    assert!(committed_event_place(false, "t:E:e", 4, &vec![4]).is_err());
}

fn request() -> DispatchRequest {
    DispatchRequest {
        tenant: "t".to_string(),
        entity_type: "Order".to_string(),
        entity_id: "o-1".to_string(),
        action: "Go".to_string(),
        params: Json::Object(Vec::new()),
        idempotency_key: None,
        expected_sequence: None,
        has_precondition: false,
        await_reactions: true,
    }
}

#[test]
fn a_dispatch_runs_from_the_survey_to_its_reactions() {
    let mut run = DispatchRun::begin(request());
    assert_eq!(run.surveyed(false, true, true, true, false), Ok(()));
    assert_eq!(run.phase, DispatchPhase::ReadSource);
    assert_eq!(run.source_read(Ok(7)), Ok(()));
    assert_eq!(run.pin_checked(Ok(())), Ok(()));
    assert_eq!(run.governed_checked(Ok(true)), Ok(()));
    assert_eq!(run.actor_found(true), Ok(()));
    let ask = run.admission(AdmissionOutcome::Granted, 4, "u").unwrap();
    assert_eq!(ask.max_attempts, 4);
    assert_eq!(ask.expected_sequence, Some(7));
    assert_eq!(ask.idempotency_key, "dispatch:t:Order:o-1:Go:u");
    assert_eq!(run.answered(Ok(()), 1), Ok(()));
    assert_eq!(run.effects_run(true), None);
    assert_eq!(run.phase, DispatchPhase::ReadIntents);
    let follow = run.intents_read(Ok(vec![intent(true, "r")])).unwrap();
    assert!(matches!(follow.reactions, ReactionFollowUp::Await(_)));
    assert_eq!(run.delivered(Ok(())), Ok(()));
    assert_eq!(
        run.inspected(Ok(vec![delivery("d", "r", ReactionDeliveryStatus::Completed)])),
        Ok(())
    );
    assert_eq!(run.phase, DispatchPhase::Return);
}

#[test]
fn a_dispatch_without_reactions_skips_their_phases() {
    let mut run = DispatchRun::begin(request());
    assert_eq!(run.surveyed(false, true, false, true, false), Ok(()));
    assert_eq!(run.phase, DispatchPhase::CheckPin);
    run.pin_checked(Ok(())).unwrap();
    run.governed_checked(Ok(true)).unwrap();
    run.actor_found(true).unwrap();
    let ask = run.admission(AdmissionOutcome::Passthrough, 4, "u").unwrap();
    assert_eq!(ask.expected_sequence, None);
    run.answered(Ok(()), 1).unwrap();
    let follow = run.effects_run(true).unwrap();
    assert_eq!(follow.reactions, ReactionFollowUp::Immediate);
    assert_eq!(run.phase, DispatchPhase::Return);
}

fn run_to_governed() -> DispatchRun {
    let mut run = DispatchRun::begin(request());
    run.surveyed(false, false, false, false, false).unwrap();
    run.pin_checked(Ok(())).unwrap();
    run
}

#[test]
fn a_dispatch_is_refused_for_the_first_reason() {
    let mut run = DispatchRun::begin(request());
    run.surveyed(false, false, false, false, false).unwrap();
    assert_eq!(
        run.pin_checked(Err("moved".to_string())),
        Err(DispatchError::Internal("moved".to_string()))
    );
    let mut run = run_to_governed();
    assert_eq!(
        run.governed_checked(Ok(false)),
        Err(DispatchError::Ungoverned("Order".to_string()))
    );
    let mut run = run_to_governed();
    assert_eq!(
        run.governed_checked(Err("down".to_string())),
        Err(DispatchError::Internal("down".to_string()))
    );
    let mut run = run_to_governed();
    run.governed_checked(Ok(true)).unwrap();
    assert_eq!(
        run.actor_found(false),
        Err(DispatchError::Internal(
            "failed to resolve actor for governed entity type 'Order'".to_string()
        ))
    );
    let mut run = run_to_governed();
    run.governed_checked(Ok(true)).unwrap();
    run.actor_found(true).unwrap();
    assert_eq!(
        run.admission(AdmissionOutcome::Deferred { retry_after_ms: 40 }, 1, "u"),
        Err(DispatchError::Deferred { retry_after_ms: 40 })
    );
    run.admission(AdmissionOutcome::Granted, 1, "u").unwrap();
    assert_eq!(
        run.answered(Err(ActorError::Stopped), 2),
        Err(DispatchError::Actor(ActorError::Stopped, 2))
    );
}

#[test]
fn a_composite_takes_no_sub_writes_from_its_caller() {
    let mut q = request();
    q.params = Json::Object(vec![("sub_writes".to_string(), Json::Array(Vec::new()))]);
    let mut run = DispatchRun::begin(q);
    assert!(run.surveyed(true, false, false, false, false).is_err());
    assert!(run.surveyed(false, false, false, false, false).is_ok());
}

#[test]
fn a_precondition_is_tried_once() {
    let mut q = request();
    q.has_precondition = true;
    q.expected_sequence = Some(3);
    q.idempotency_key = Some("k".to_string());
    let mut run = DispatchRun::begin(q);
    run.surveyed(false, true, true, true, false).unwrap();
    run.source_read(Ok(9)).unwrap();
    run.pin_checked(Ok(())).unwrap();
    run.governed_checked(Ok(true)).unwrap();
    run.actor_found(true).unwrap();
    let ask = run.admission(AdmissionOutcome::Granted, 4, "u").unwrap();
    assert_eq!(
        (ask.max_attempts, ask.expected_sequence, ask.idempotency_key),
        (1, Some(3), "k".to_string())
    );
}

#[test]
fn reactions_without_a_journal_are_refused_after_the_read() {
    let mut run = DispatchRun::begin(request());
    run.surveyed(false, true, true, false, false).unwrap();
    assert_eq!(
        run.source_read(Err("gone".to_string())),
        Err(DispatchError::Internal("gone".to_string()))
    );
    assert_eq!(
        run.source_read(Ok(1)),
        Err(DispatchError::Internal(
            "durable reactions require a configured event journal".to_string()
        ))
    );
    assert_eq!(dispatch_failure_text("x"), "Actor dispatch failed: x");
}

#[test]
fn how_an_actor_is_asked() {
    assert_eq!(dispatch_attempts(4, false), 4);
    assert_eq!(dispatch_attempts(4, true), 1);
    assert_eq!(expected_sequence(Some(1), Some(2)), Some(1));
    assert_eq!(expected_sequence(None, Some(2)), Some(2));
    assert_eq!(
        dispatch_idempotency_key(None, "t", "E", "e", "Go", "u"),
        "dispatch:t:E:e:Go:u"
    );
    assert_eq!(dispatch_idempotency_key(Some("k"), "t", "E", "e", "Go", "u"), "k");
}

#[test]
fn only_transient_failures_count_as_exhausted() {
    assert_eq!(dispatch_outcome(&None, false), DispatchOutcome::Answered);
    assert_eq!(dispatch_outcome(&None, true), DispatchOutcome::TransientRetriedOk);
    assert_eq!(
        dispatch_outcome(&Some(ActorError::MailboxFull), true),
        DispatchOutcome::TransientExhausted
    );
    assert_eq!(
        dispatch_outcome(&Some(ActorError::Stopped), false),
        DispatchOutcome::Permanent
    );
    assert_eq!(dispatch_error_kind(&ActorError::AskTimeout), "ask_timeout");
    assert_eq!(dispatch_error_kind(&ActorError::Custom("x".to_string())), "custom");
}
