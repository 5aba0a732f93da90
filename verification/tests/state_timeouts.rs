use temper_server::json::Json;
use temper_server::state_timeouts::{
    arm_state_timeouts_if_needed, compute_state_clock_reset_ts, timer_fires, ArmReason, EntityKey,
    StateTimeout, StateTimeoutTracker,
};
use temper_server::stream::EntityEvent;
use temper_server::time::{Duration, Timestamp};

fn key() -> EntityKey {
    EntityKey::new("t", "E", "e-1")
}

#[test]
fn bump_returns_monotonically_increasing_seq() {
    let mut t = StateTimeoutTracker::new();
    let k = key();
    assert_eq!(t.current(&k), 0, "initial seq is 0");
    assert_eq!(t.bump(&k), 1);
    assert_eq!(t.bump(&k), 2);
    assert_eq!(t.bump(&k), 3);
    assert_eq!(t.current(&k), 3);
}

#[test]
fn per_entity_seqs_are_independent() {
    let mut t = StateTimeoutTracker::new();
    let a = EntityKey::new("t", "E", "a");
    let b = EntityKey::new("t", "E", "b");
    assert_eq!(t.bump(&a), 1);
    assert_eq!(t.bump(&a), 2);
    assert_eq!(t.bump(&b), 1, "b's seq is independent of a's");
    assert_eq!(t.current(&a), 2);
    assert_eq!(t.current(&b), 1);
}

#[test]
fn forget_releases_entity() {
    let mut t = StateTimeoutTracker::new();
    t.bump(&EntityKey::new("t", "E", "x"));
    assert_eq!(t.size(), 1);
    t.forget("t", "E", "x");
    assert_eq!(t.size(), 0);
}

fn at_millis(millis: i64) -> Timestamp {
    Timestamp {
        secs: millis.div_euclid(1_000),
        nanos: (millis.rem_euclid(1_000) * 1_000_000) as u32,
    }
}

fn test_event(action: &str, from: &str, to: &str, ts_ms_after_epoch: i64) -> EntityEvent {
    EntityEvent {
        action: action.to_string(),
        from_status: from.to_string(),
        to_status: to.to_string(),
        timestamp: at_millis(ts_ms_after_epoch),
        params: Json::Object(Vec::new()),
        idempotency_key: None,
    }
}

#[test]
fn clock_reset_finds_most_recent_entry_event() {
    let mut events = Vec::new();
    events.push(test_event("Create", "", "Open", 1_000));
    events.push(test_event("Assign", "Open", "InProgress", 2_000));
    events.push(test_event("Close", "InProgress", "Closed", 3_000));

    let reset = compute_state_clock_reset_ts(&events, "Closed", &Vec::new()).unwrap();
    assert_eq!(reset, at_millis(3_000));
}

#[test]
fn clock_reset_prefers_reset_on_event_after_entry() {
    let mut events = Vec::new();
    events.push(test_event("Enter", "", "Executing", 100));
    events.push(test_event("DoWork", "Executing", "Executing", 500));
    events.push(test_event("ProgressMade", "Executing", "Executing", 900));
    events.push(test_event("OtherAction", "Executing", "Executing", 1_200));

    let reset_on = vec!["ProgressMade".to_string()];
    let reset = compute_state_clock_reset_ts(&events, "Executing", &reset_on).unwrap();
    assert_eq!(
        reset,
        at_millis(900),
        "latest reset_on event wins over later non-reset events"
    );
}

#[test]
fn clock_reset_falls_back_to_entry_when_no_reset_events() {
    let mut events = Vec::new();
    events.push(test_event("Configure", "Queued", "Ready", 500));
    events.push(test_event("Start", "Ready", "Executing", 1_000));
    events.push(test_event("Steer", "Executing", "Executing", 1_500));

    let reset_on = vec!["ProgressMade".to_string()];
    let reset = compute_state_clock_reset_ts(&events, "Executing", &reset_on).unwrap();
    assert_eq!(
        reset,
        at_millis(1_000),
        "Steer is not a reset_on; entry timestamp wins"
    );
}

#[test]
fn clock_reset_returns_none_when_no_entry_event_retained() {
    let mut events = Vec::new();
    events.push(test_event("Steer", "Executing", "Executing", 100));
    events.push(test_event("Steer", "Executing", "Executing", 200));

    let reset = compute_state_clock_reset_ts(&events, "Executing", &Vec::new());
    assert!(reset.is_none(), "no entry event in window");
}

#[test]
fn clock_reset_ignores_entry_events_for_other_states() {
    let mut events = Vec::new();
    events.push(test_event("Create", "", "Open", 1_000));
    events.push(test_event("Assign", "Open", "InProgress", 2_000));
    let reset = compute_state_clock_reset_ts(&events, "Open", &Vec::new());
    assert_eq!(reset.unwrap(), at_millis(1_000));
}

#[test]
fn clock_reset_ignores_self_loop_events_as_entry() {
    let mut events = Vec::new();
    events.push(test_event("Create", "", "Executing", 100));
    events.push(test_event("Steer", "Executing", "Executing", 500));
    events.push(test_event("Steer", "Executing", "Executing", 800));

    let reset = compute_state_clock_reset_ts(&events, "Executing", &Vec::new()).unwrap();
    assert_eq!(
        reset,
        at_millis(100),
        "first real entry wins; subsequent self-loops don't re-enter"
    );
}

fn open_timeout() -> StateTimeout {
    StateTimeout {
        state: "Open".to_string(),
        after_seconds: 10,
        reset_on: vec!["Touch".to_string()],
        on_timeout: "Escalate".to_string(),
    }
}

#[test]
fn entering_a_timed_state_arms_its_timer() {
    let mut t = StateTimeoutTracker::new();
    let events = vec![test_event("Create", "", "Open", 1_000)];
    let armed = arm_state_timeouts_if_needed(
        &mut t,
        false,
        &vec![open_timeout()],
        &key(),
        &events,
        "Open",
        "Create",
        at_millis(1_000),
    );
    assert_eq!(armed.len(), 1);
    assert_eq!(armed[0].delay, Duration::from_secs(10));
    assert_eq!(armed[0].reason, ArmReason::Entry);
    assert_eq!(armed[0].on_timeout, "Escalate");
    assert_eq!(armed[0].seq, t.current(&key()));
    assert!(t.is_live(&key(), armed[0].seq));
}

#[test]
fn arming_again_makes_the_earlier_timer_stale() {
    let mut t = StateTimeoutTracker::new();
    let mut events = vec![test_event("Create", "", "Open", 1_000)];
    let first = arm_state_timeouts_if_needed(
        &mut t,
        false,
        &vec![open_timeout()],
        &key(),
        &events,
        "Open",
        "Create",
        at_millis(1_000),
    );
    events.push(test_event("Touch", "Open", "Open", 2_000));
    let second = arm_state_timeouts_if_needed(
        &mut t,
        false,
        &vec![open_timeout()],
        &key(),
        &events,
        "Open",
        "Touch",
        at_millis(2_000),
    );
    assert_eq!(second.len(), 1);
    assert!(!t.is_live(&key(), first[0].seq));
    assert!(t.is_live(&key(), second[0].seq));
}

#[test]
fn leaving_a_timed_state_cancels_its_timer() {
    let mut t = StateTimeoutTracker::new();
    let mut events = vec![test_event("Create", "", "Open", 1_000)];
    let first = arm_state_timeouts_if_needed(
        &mut t,
        false,
        &vec![open_timeout()],
        &key(),
        &events,
        "Open",
        "Create",
        at_millis(1_000),
    );
    events.push(test_event("Close", "Open", "Closed", 2_000));
    let second = arm_state_timeouts_if_needed(
        &mut t,
        false,
        &vec![open_timeout()],
        &key(),
        &events,
        "Closed",
        "Close",
        at_millis(2_000),
    );
    assert_eq!(second.len(), 0);
    assert!(!t.is_live(&key(), first[0].seq));
}

#[test]
fn counting_off_undoes_counting() {
    let mut t = StateTimeoutTracker::new();
    t.inc_pending("Ticket");
    t.inc_pending("Ticket");
    t.inc_pending("Doc");
    t.dec_pending("Ticket");
    assert_eq!(
        t.pending_snapshot(),
        vec![("Doc".to_string(), 1), ("Ticket".to_string(), 1)]
    );
    t.dec_pending("Ticket");
    t.dec_pending("Ticket");
    assert_eq!(
        t.pending_snapshot(),
        vec![("Doc".to_string(), 1), ("Ticket".to_string(), 0)]
    );
}

#[test]
fn a_timer_fires_only_while_live_and_in_its_state() {
    assert!(timer_fires(true, Some("Open"), "Open"));
    assert!(!timer_fires(false, Some("Open"), "Open"));
    assert!(!timer_fires(true, Some("Closed"), "Open"));
    assert!(!timer_fires(true, None, "Open"));
}

#[test]
fn a_journal_owns_the_timeouts() {
    let mut t = StateTimeoutTracker::new();
    let events = vec![test_event("Create", "", "Open", 1_000)];
    let armed = arm_state_timeouts_if_needed(
        &mut t,
        true,
        &vec![open_timeout()],
        &key(),
        &events,
        "Open",
        "Create",
        at_millis(1_000),
    );
    assert!(armed.is_empty());
    assert_eq!(t.size(), 0);
}

#[test]
fn an_entity_that_is_found_waits_for_what_is_left() {
    let mut t = StateTimeoutTracker::new();
    let events = vec![
        test_event("Create", "", "Open", 1_000),
        test_event("Look", "Open", "Open", 2_000),
    ];
    let armed = arm_state_timeouts_if_needed(
        &mut t,
        false,
        &vec![open_timeout()],
        &key(),
        &events,
        "Open",
        "Look",
        at_millis(5_000),
    );
    assert_eq!(armed[0].reason, ArmReason::Found);
    assert_eq!(armed[0].delay, Duration::from_secs(6));
    let mut t = StateTimeoutTracker::new();
    let armed = arm_state_timeouts_if_needed(
        &mut t,
        false,
        &vec![open_timeout()],
        &key(),
        &events,
        "Open",
        "Look",
        at_millis(11_000),
    );
    assert_eq!(armed[0].reason, ArmReason::Overdue);
    assert_eq!(armed[0].delay, Duration::zero());
}
