use temper_server::retry::{
    duration_secs_env, jittered_delay_ms, u32_env, ActorError, AskRun, AskStep, RetryPolicy,
};
use temper_server::time::Duration;

fn policy_with_attempts(max_attempts: u32, delays: Vec<u64>) -> RetryPolicy {
    RetryPolicy {
        total_deadline: Duration::from_secs(30),
        per_attempt_timeout: Duration::from_secs(5),
        max_attempts,
        base_delays_ms: delays,
    }
}

#[test]
fn base_delay_zero_for_first_attempt() {
    let p = policy_with_attempts(4, vec![0, 50, 200, 800]);
    assert_eq!(p.base_delay_ms_for(0), 0);
}

#[test]
fn base_delay_follows_index() {
    let p = policy_with_attempts(4, vec![0, 50, 200, 800]);
    assert_eq!(p.base_delay_ms_for(1), 50);
    assert_eq!(p.base_delay_ms_for(2), 200);
    assert_eq!(p.base_delay_ms_for(3), 800);
}

#[test]
fn base_delay_clamps_to_last_entry() {
    let p = policy_with_attempts(10, vec![0, 50, 200, 800]);
    assert_eq!(p.base_delay_ms_for(7), 800);
    assert_eq!(p.base_delay_ms_for(100), 800);
}

#[test]
fn base_delay_empty_table_always_zero() {
    let p = policy_with_attempts(3, vec![]);
    assert_eq!(p.base_delay_ms_for(1), 0);
    assert_eq!(p.base_delay_ms_for(10), 0);
}

#[test]
fn remaining_budget_never_goes_negative() {
    let p = policy_with_attempts(3, vec![0, 50]);
    let long = Duration::from_secs(60);
    assert_eq!(p.remaining(long), Duration::zero());
}

#[test]
fn jitter_stays_within_base_bound() {
    for base in [0u64, 1, 10, 50, 200, 800, 5000] {
        for attempt in 0u32..16 {
            for now in [0i64, 1, 1_700_000_000_000_000_000, i64::MAX, -1, i64::MIN] {
                let d = jittered_delay_ms(base, attempt, now);
                assert!(d <= base, "jitter {d} exceeded base {base} at attempt {attempt}");
            }
        }
    }
}

#[test]
fn single_attempt_policy_has_one_attempt_and_zero_delays() {
    let p = RetryPolicy::single_attempt();
    assert_eq!(p.max_attempts, 1);
    assert_eq!(p.base_delay_ms_for(0), 0);
}

#[test]
fn max_attempts_coerced_to_at_least_one() {
    let p = RetryPolicy {
        max_attempts: 0,
        ..RetryPolicy::default()
    };
    let effective = p.max_attempts.max(1);
    assert_eq!(effective, 1);
    assert_eq!(AskRun::start(&p).max_attempts, 1);
}

#[test]
fn attempt_budget_floor_prevents_per_attempt_timeout_from_disabling_retry() {
    let p = RetryPolicy {
        total_deadline: Duration::from_secs(30),
        per_attempt_timeout: Duration::from_secs(30),
        max_attempts: 3,
        base_delays_ms: vec![0, 50, 200],
    }
    .with_attempt_budget_floor();

    assert_eq!(p.total_deadline, Duration::from_millis(90_250));
}

#[test]
fn a_generous_deadline_is_left_alone() {
    let p = policy_with_attempts(2, vec![0, 50]).with_attempt_budget_floor();
    assert_eq!(p.total_deadline, Duration::from_secs(30));
}

#[test]
fn jitter_is_the_mixed_clock_modulo_the_range() {
    let now: u128 = 1_700_000_000_123_456_789;
    let mixed = now
        .wrapping_add(2u128.wrapping_mul(0x9E37_79B9_7F4A_7C15))
        .wrapping_mul(0xBF58_476D_1CE4_E5B9)
        ^ (now >> 27);
    assert_eq!(
        jittered_delay_ms(800, 2, 1_700_000_000_123_456_789) as u128,
        mixed % 801
    );
}

#[test]
fn settings_outside_their_bounds_fall_back() {
    assert_eq!(duration_secs_env(Some(" 12 "), 30), Duration::from_secs(12));
    assert_eq!(duration_secs_env(Some("0"), 30), Duration::from_secs(30));
    assert_eq!(duration_secs_env(Some("3600"), 30), Duration::from_secs(3600));
    assert_eq!(duration_secs_env(Some("3601"), 30), Duration::from_secs(30));
    assert_eq!(duration_secs_env(Some("x"), 30), Duration::from_secs(30));
    assert_eq!(duration_secs_env(None, 30), Duration::from_secs(30));
    assert_eq!(u32_env(Some("32"), 3), 32);
    assert_eq!(u32_env(Some("33"), 3), 3);
    assert_eq!(u32_env(Some("+7"), 3), 7);
}

#[test]
fn a_transient_failure_is_tried_again_and_a_permanent_one_ends() {
    let p = policy_with_attempts(3, vec![0, 50, 200]);
    let run = AskRun::start(&p);
    assert_eq!(run.pause(&p, Duration::zero(), 7), Some(Duration::zero()));
    let step = run.answered::<u8>(Err(ActorError::AskTimeout), Duration::from_millis(5));
    let run = match step {
        AskStep::Again(run) => run,
        AskStep::Done(_) => panic!("a timeout is transient"),
    };
    assert_eq!(run.attempt, 1);
    let done = match run.answered::<u8>(Ok(9), Duration::from_millis(8)) {
        AskStep::Done(done) => done,
        AskStep::Again(_) => panic!("an answer ends the run"),
    };
    assert_eq!(done.result, Ok(9));
    assert_eq!(done.attempts, 2);
    assert!(done.retried_after_transient);

    let run = AskRun::start(&p);
    let done = match run.answered::<u8>(Err(ActorError::Stopped), Duration::zero()) {
        AskStep::Done(done) => done,
        AskStep::Again(_) => panic!("a stopped actor is permanent"),
    };
    assert_eq!(done.result, Err(ActorError::Stopped));
    assert!(!done.retried_after_transient);
}

#[test]
fn a_spent_deadline_leaves_no_attempt() {
    let p = policy_with_attempts(3, vec![0]);
    let run = AskRun::start(&p);
    assert_eq!(run.attempt_timeout(&p, Duration::from_secs(30)), None);
    assert_eq!(
        run.attempt_timeout(&p, Duration::from_secs(28)),
        Some(Duration::from_secs(2))
    );
    assert_eq!(
        run.attempt_timeout(&p, Duration::zero()),
        Some(Duration::from_secs(5))
    );
    let gone = run.give_up::<u8>(Duration::from_secs(30));
    assert_eq!(gone.attempts, 0);
    assert_eq!(
        gone.result,
        Err(ActorError::Custom(
            "retry policy exhausted without making any attempt".to_string()
        ))
    );
}

#[test]
fn a_run_that_stops_early_reports_the_attempts_made() {
    let p = policy_with_attempts(3, vec![0, 50, 200]);
    let run = AskRun::start(&p);
    let run = match run.answered::<u8>(Err(ActorError::MailboxFull), Duration::from_secs(31)) {
        AskStep::Again(run) => run,
        AskStep::Done(_) => panic!("two attempts are left"),
    };
    assert_eq!(run.pause(&p, Duration::from_secs(31), 7), None);
    let gone = run.give_up::<u8>(Duration::from_secs(31));
    assert_eq!(gone.result, Err(ActorError::MailboxFull));
    assert_eq!(gone.attempts, 1);
    assert!(!gone.retried_after_transient);
}

#[test]
fn a_run_that_never_succeeds_is_not_retried_with_success() {
    let p = policy_with_attempts(2, vec![0, 50]);
    let run = AskRun::start(&p);
    let run = match run.answered::<u8>(Err(ActorError::AskTimeout), Duration::zero()) {
        AskStep::Again(run) => run,
        AskStep::Done(_) => panic!("one attempt is left"),
    };
    let done = match run.answered::<u8>(Err(ActorError::MailboxFull), Duration::zero()) {
        AskStep::Done(done) => done,
        AskStep::Again(_) => panic!("no attempt is left"),
    };
    assert_eq!(done.result, Err(ActorError::MailboxFull));
    assert_eq!(done.attempts, 2);
    assert!(!done.retried_after_transient);

    let run = AskRun::start(&p);
    let run = match run.answered::<u8>(Err(ActorError::AskTimeout), Duration::zero()) {
        AskStep::Again(run) => run,
        AskStep::Done(_) => panic!("one attempt is left"),
    };
    let done = match run.answered::<u8>(Err(ActorError::Stopped), Duration::zero()) {
        AskStep::Done(done) => done,
        AskStep::Again(_) => panic!("a stopped actor is permanent"),
    };
    assert!(!done.retried_after_transient);
}

#[test]
fn a_configured_policy_may_do_without_retries() {
    let configured = RetryPolicy::from_settings(Some("12"), Some("7"), Some("9"));
    let single = configured.clone().without_retries();
    assert_eq!(single.max_attempts, 1);
    assert_eq!(single.total_deadline, configured.total_deadline);
    assert_eq!(single.per_attempt_timeout, configured.per_attempt_timeout);
    assert_eq!(single.base_delays_ms, configured.base_delays_ms);
}
