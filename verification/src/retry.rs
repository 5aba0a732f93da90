//! Asking an actor with bounded retry on transient failures.
//!
//! One try has a timeout, all tries together have a deadline, and a transient
//! failure is followed by a pause of random length before the next try. A
//! permanent failure ends the asking at once.

use vstd::prelude::*;
use vstd::string::*;

use crate::text::parse_unsigned;
use crate::text::parse_unsigned_of;
use crate::text::trim;
use crate::text::trimmed;
use crate::time::Duration;
use crate::time::MAX_NANOS;

verus! {

/// How an actor is asked.
#[derive(Clone, Debug)]
pub struct RetryPolicy {
    /// Wall-clock budget across all attempts including backoff sleeps.
    pub total_deadline: Duration,
    /// Timeout of one attempt.
    pub per_attempt_timeout: Duration,
    /// Maximum attempts.
    pub max_attempts: u32,
    /// Base delay per attempt index before jitter (index 0 is always 0).
    /// The last entry is used for all higher attempt indices.
    pub base_delays_ms: Vec<u64>,
}

/// The number that a setting writes, where it is within `1..=max`, else the
/// default.
pub open spec fn bounded_setting(value: Option<Seq<char>>, max: nat, default: nat) -> nat {
    match value {
        Some(v) => match parse_unsigned(trimmed(v), u64::MAX as nat) {
            Some(n) => if 0 < n <= max {
                n
            } else {
                default
            },
            None => default,
        },
        None => default,
    }
}

fn bounded_setting_of(value: Option<&str>, max: u64, default: u64) -> (r: u64)
    ensures
        r == bounded_setting(crate::text::opt_str(value), max as nat, default as nat),
{
    match value {
        None => default,
        Some(v) => match parse_unsigned_of(trim(v).as_str(), u64::MAX) {
            Some(n) => if n > 0 && n <= max {
                n
            } else {
                default
            },
            None => default,
        },
    }
}

/// The pauses before the attempts, in milliseconds, unless set otherwise.
pub open spec fn default_delays() -> Seq<u64> {
    seq![0u64, 50, 200, 800]
}

/// A duration in seconds, 1 to 3600, else the default.
pub fn duration_secs_env(value: Option<&str>, default_secs: u64) -> (r: Duration)
    ensures
        r@ == bounded_setting(crate::text::opt_str(value), 3600, default_secs as nat)
            * 1_000_000_000,
{
    Duration::from_secs(bounded_setting_of(value, 3600, default_secs))
}

/// A number of attempts, 1 to 32, else the default.
pub fn u32_env(value: Option<&str>, default: u32) -> (r: u32)
    ensures
        r == bounded_setting(crate::text::opt_str(value), 32, default as nat),
{
    bounded_setting_of(value, 32, default as u64) as u32
}

/// The larger of a number of attempts and one.
pub open spec fn at_least_one(n: u32) -> u32 {
    if n >= 1 {
        n
    } else {
        1
    }
}

/// The base delay before an attempt, in milliseconds.
pub open spec fn base_delay(delays: Seq<u64>, attempt: u32) -> u64 {
    if attempt == 0 || delays.len() == 0 {
        0
    } else if attempt < delays.len() {
        delays[attempt as int]
    } else {
        delays.last()
    }
}

/// The base delays before the attempts from the second up to `n`, in
/// nanoseconds.
pub open spec fn backoff_nanos(delays: Seq<u64>, n: int) -> nat
    decreases n,
{
    if n <= 1 {
        0
    } else {
        backoff_nanos(delays, n - 1) + base_delay(delays, (n - 1) as u32) as nat * 1_000_000
    }
}

pub open spec fn capped(n: int) -> int {
    if n <= MAX_NANOS {
        n
    } else {
        MAX_NANOS as int
    }
}

impl RetryPolicy {
    /// The policy that the server's settings describe: 30 seconds in all, 5
    /// seconds and 3 attempts unless set otherwise.
    pub fn from_settings(
        total_secs: Option<&str>,
        attempt_secs: Option<&str>,
        attempts: Option<&str>,
    ) -> (r: Self)
        ensures
            r.total_deadline@ == bounded_setting(crate::text::opt_str(total_secs), 3600, 30)
                * 1_000_000_000,
            r.per_attempt_timeout@ == bounded_setting(
                crate::text::opt_str(attempt_secs),
                3600,
                5,
            ) * 1_000_000_000,
            r.max_attempts == bounded_setting(crate::text::opt_str(attempts), 32, 3),
            r.max_attempts >= 1,
            r.base_delays_ms@ == default_delays(),
    {
        let mut base_delays_ms: Vec<u64> = Vec::new();
        base_delays_ms.push(0);
        base_delays_ms.push(50);
        base_delays_ms.push(200);
        base_delays_ms.push(800);
        proof {
            assert(base_delays_ms@ =~= default_delays());
        }
        RetryPolicy {
            total_deadline: duration_secs_env(total_secs, 30),
            per_attempt_timeout: duration_secs_env(attempt_secs, 5),
            max_attempts: u32_env(attempts, 3),
            base_delays_ms,
        }
    }

    /// The policy without retries: one plain ask with the per-attempt timeout that
    /// is configured.
    pub fn without_retries(self) -> (r: Self)
        ensures
            r == (RetryPolicy { max_attempts: 1, ..self }),
    {
        RetryPolicy {
            total_deadline: self.total_deadline,
            per_attempt_timeout: self.per_attempt_timeout,
            max_attempts: 1,
            base_delays_ms: self.base_delays_ms,
        }
    }

    /// Disable retries entirely: one plain ask with the per-attempt timeout, where
    /// nothing is configured.
    pub fn single_attempt() -> (r: Self)
        ensures
            r.max_attempts == 1,
            r.total_deadline@ == 30_000_000_000,
            r.per_attempt_timeout@ == 5_000_000_000,
            r.base_delays_ms@ == default_delays(),
    {
        RetryPolicy::from_settings(None, None, None).without_retries()
    }

    /// Pick the base backoff in ms for a given attempt index. Attempt 0 is
    /// always 0; later attempts use the entry of their index, or the last one.
    pub fn base_delay_ms_for(&self, attempt: u32) -> (r: u64)
        ensures
            r == base_delay(self.base_delays_ms@, attempt),
    {
        if attempt == 0 || self.base_delays_ms.len() == 0 {
            return 0;
        }
        let max_idx: usize = self.base_delays_ms.len() - 1;
        let idx: usize = if (attempt as usize) < max_idx {
            attempt as usize
        } else {
            max_idx
        };
        self.base_delays_ms[idx]
    }

    /// Remaining wall-clock budget before the total deadline expires.
    pub fn remaining(&self, elapsed: Duration) -> (r: Duration)
        ensures
            r@ == if self.total_deadline@ >= elapsed@ {
                (self.total_deadline@ - elapsed@) as nat
            } else {
                0
            },
    {
        self.total_deadline.saturating_sub(elapsed)
    }

    /// Return a copy whose total deadline can accommodate every configured
    /// attempt at `per_attempt_timeout` plus the configured backoff bases.
    pub fn with_attempt_budget_floor(self) -> (r: Self)
        ensures
            r.per_attempt_timeout == self.per_attempt_timeout,
            r.max_attempts == self.max_attempts,
            r.base_delays_ms == self.base_delays_ms,
            ({
                let attempts = at_least_one(self.max_attempts);
                let floor = capped(
                    self.per_attempt_timeout@ * attempts + backoff_nanos(
                        self.base_delays_ms@,
                        attempts as int,
                    ),
                );
                r.total_deadline@ == if self.total_deadline@ < floor {
                    floor
                } else {
                    self.total_deadline@ as int
                }
            }),
    {
        let attempts: u32 = if self.max_attempts >= 1 {
            self.max_attempts
        } else {
            1
        };
        let attempts_budget = self.per_attempt_timeout.saturating_mul(attempts);
        let mut backoff_budget = Duration::zero();
        let mut attempt: u32 = 1;
        while attempt < attempts
            invariant
                1 <= attempt <= attempts,
                backoff_budget@ == capped(
                    backoff_nanos(self.base_delays_ms@, attempt as int) as int,
                ),
            decreases attempts - attempt,
        {
            let pause = Duration::from_millis(self.base_delay_ms_for(attempt));
            backoff_budget = backoff_budget.saturating_add(pause);
            attempt = attempt + 1;
        }
        let minimum_total = attempts_budget.saturating_add(backoff_budget);
        proof {
            assert(self.per_attempt_timeout@ * attempts >= 0) by (nonlinear_arith);
        }
        if self.total_deadline.is_shorter(&minimum_total) {
            RetryPolicy {
                total_deadline: minimum_total,
                per_attempt_timeout: self.per_attempt_timeout,
                max_attempts: self.max_attempts,
                base_delays_ms: self.base_delays_ms,
            }
        } else {
            self
        }
    }
}

impl Default for RetryPolicy {
    fn default() -> (r: Self)
        ensures
            r.total_deadline@ == 30_000_000_000,
            r.per_attempt_timeout@ == 5_000_000_000,
            r.max_attempts == 3,
            r.base_delays_ms@ == default_delays(),
    {
        RetryPolicy::from_settings(None, None, None)
    }
}

/// Nanoseconds since the epoch as an unsigned word, a time before the epoch as
/// its two's complement.
pub open spec fn clock_word(now_nanos: i64) -> u128 {
    if now_nanos >= 0 {
        now_nanos as u128
    } else {
        (u128::MAX - (-(now_nanos + 1))) as u128
    }
}

/// The words that a pause is drawn from.
pub open spec fn mixed(now_nanos: i64, attempt: u32) -> u128 {
    let now = clock_word(now_nanos);
    let spread = vstd::wrapping::u128_specs::wrapping_mul(
        attempt as u128,
        0x9E37_79B9_7F4A_7C15u128,
    );
    vstd::wrapping::u128_specs::wrapping_mul(
        vstd::wrapping::u128_specs::wrapping_add(now, spread),
        0xBF58_476D_1CE4_E5B9u128,
    ) ^ (now >> 27u128)
}

/// The pause that is drawn from the time and the attempt.
pub open spec fn jittered(base_ms: u64, attempt: u32, now_nanos: i64) -> int {
    if base_ms == 0 {
        0
    } else {
        mixed(now_nanos, attempt) as int % (base_ms + 1)
    }
}

/// Deterministic full jitter: a pause from 0 up to `base_ms`, drawn from the
/// time and the attempt.
pub fn jittered_delay_ms(base_ms: u64, attempt: u32, now_nanos: i64) -> (r: u64)
    ensures
        r == jittered(base_ms, attempt, now_nanos),
        r <= base_ms,
{
    if base_ms == 0 {
        return 0;
    }
    let now: u128 = if now_nanos >= 0 {
        now_nanos as u128
    } else {
        u128::MAX - (-(now_nanos + 1)) as u128
    };
    let spread: u128 = (attempt as u128).wrapping_mul(0x9E37_79B9_7F4A_7C15u128);
    let word: u128 = now.wrapping_add(spread).wrapping_mul(0xBF58_476D_1CE4_E5B9u128) ^ (now
        >> 27u128);
    let range: u128 = base_ms as u128 + 1;
    (word % range) as u64
}

/// How an actor fails to answer.
#[derive(Clone, Debug, PartialEq, Eq)]
pub enum ActorError {
    AskTimeout,
    MailboxFull,
    Stopped,
    SendFailed,
    Panicked(String),
    InitFailed(String),
    MaxRestartsExceeded,
    Custom(String),
}

/// Whether asking again may help: the actor was slow or busy.
pub open spec fn transient(e: ActorError) -> bool {
    e is AskTimeout || e is MailboxFull
}

impl ActorError {
    pub fn is_transient(&self) -> (r: bool)
        ensures
            r == transient(*self),
    {
        match self {
            ActorError::AskTimeout => true,
            ActorError::MailboxFull => true,
            _ => false,
        }
    }
}

/// Outcome of asking an actor.
#[derive(Debug, PartialEq, Eq)]
pub struct AskResult<R> {
    /// Final result: `Ok` on any successful attempt, else the last error.
    pub result: Result<R, ActorError>,
    /// Number of attempts made: from one up to the most that the policy allows,
    /// or none where the deadline had passed before the first.
    pub attempts: u32,
    /// Total wall-clock time spent across attempts and sleeps.
    pub elapsed: Duration,
    /// Whether an attempt succeeded after a prior transient failure.
    pub retried_after_transient: bool,
}

/// An asking under way: the next attempt, and the last transient failure.
#[derive(Clone, Debug, PartialEq, Eq)]
pub struct AskRun {
    pub attempt: u32,
    pub max_attempts: u32,
    pub last_error: Option<ActorError>,
}

/// What follows an attempt.
#[derive(Debug, PartialEq, Eq)]
pub enum AskStep<R> {
    /// The asking is over.
    Done(AskResult<R>),
    /// Another attempt is due.
    Again(AskRun),
}

impl AskRun {
    /// The next attempt is within the limit, and a failure is noted once there
    /// was an attempt.
    pub open spec fn wf(&self) -> bool {
        &&& self.attempt < self.max_attempts
        &&& self.last_error is Some == (self.attempt > 0)
        &&& self.last_error is Some ==> transient(self.last_error->0)
    }

    /// Begins to ask. The policy allows one attempt at least.
    pub fn start(policy: &RetryPolicy) -> (r: Self)
        ensures
            r.wf(),
            r.attempt == 0,
            r.max_attempts == at_least_one(policy.max_attempts),
    {
        AskRun {
            attempt: 0,
            max_attempts: if policy.max_attempts >= 1 {
                policy.max_attempts
            } else {
                1
            },
            last_error: None,
        }
    }

    /// How long to pause before the next attempt: not at all before the first,
    /// else a random part of its base delay, never past the deadline. None
    /// where the deadline has passed.
    pub fn pause(&self, policy: &RetryPolicy, elapsed: Duration, now_nanos: i64) -> (r: Option<
        Duration,
    >)
        ensures
            self.attempt == 0 ==> r is Some && r->0@ == 0,
            self.attempt > 0 && elapsed@ >= policy.total_deadline@ ==> r is None,
            self.attempt > 0 && elapsed@ < policy.total_deadline@ ==> {
                let base = base_delay(policy.base_delays_ms@, self.attempt);
                let left = policy.total_deadline@ - elapsed@;
                let drawn = jittered(base, self.attempt, now_nanos) * 1_000_000;
                r is Some && r->0@ == if drawn <= left {
                    drawn
                } else {
                    left
                }
            },
    {
        if self.attempt == 0 {
            return Some(Duration::zero());
        }
        let remaining = policy.remaining(elapsed);
        if remaining.is_zero() {
            return None;
        }
        let base: u64 = policy.base_delay_ms_for(self.attempt);
        let millis: u64 = jittered_delay_ms(base, self.attempt, now_nanos);
        Some(Duration::from_millis(millis).shorter(remaining))
    }

    /// How long the next attempt may take: at most what is left of the
    /// deadline. None where nothing is left.
    pub fn attempt_timeout(&self, policy: &RetryPolicy, elapsed: Duration) -> (r: Option<Duration>)
        ensures
            ({
                let left = if elapsed@ < policy.total_deadline@ {
                    policy.total_deadline@ - elapsed@
                } else {
                    0
                };
                let allowed = if policy.per_attempt_timeout@ <= left {
                    policy.per_attempt_timeout@ as int
                } else {
                    left
                };
                match r {
                    Some(d) => d@ == allowed && allowed > 0,
                    None => allowed == 0,
                }
            }),
    {
        let remaining = policy.remaining(elapsed);
        if remaining.is_zero() {
            return None;
        }
        let timeout = policy.per_attempt_timeout.shorter(remaining);
        if timeout.is_zero() {
            None
        } else {
            Some(timeout)
        }
    }

    /// Enters the answer to an attempt: an answer and a permanent failure end
    /// the asking; a transient failure ends it with the last attempt.
    pub fn answered<R>(self, reply: Result<R, ActorError>, elapsed: Duration) -> (r: AskStep<R>)
        requires
            self.wf(),
        ensures
            match reply {
                Ok(value) => r == AskStep::Done(
                    AskResult {
                        result: Ok(value),
                        attempts: (self.attempt + 1) as u32,
                        elapsed,
                        retried_after_transient: self.last_error is Some,
                    },
                ),
                Err(e) => if !transient(e) || self.attempt + 1 == self.max_attempts {
                    r == AskStep::Done(
                        AskResult {
                            result: Err::<R, ActorError>(e),
                            attempts: (self.attempt + 1) as u32,
                            elapsed,
                            retried_after_transient: false,
                        },
                    )
                } else {
                    r is Again && r->Again_0.wf() && r->Again_0.attempt == self.attempt + 1
                        && r->Again_0.max_attempts == self.max_attempts && r->Again_0.last_error
                        == Some(e)
                },
            },
    {
        let retried = self.last_error.is_some();
        match reply {
            Ok(value) => AskStep::Done(
                AskResult {
                    result: Ok(value),
                    attempts: self.attempt + 1,
                    elapsed,
                    retried_after_transient: retried,
                },
            ),
            Err(e) => {
                if !e.is_transient() || self.attempt + 1 == self.max_attempts {
                    return AskStep::Done(
                        AskResult {
                            result: Err(e),
                            attempts: self.attempt + 1,
                            elapsed,
                            retried_after_transient: false,
                        },
                    );
                }
                AskStep::Again(
                    AskRun {
                        attempt: self.attempt + 1,
                        max_attempts: self.max_attempts,
                        last_error: Some(e),
                    },
                )
            },
        }
    }

    /// Ends the asking because the deadline passed: with the last failure and as
    /// many attempts as were made, or with a word that there was none.
    pub fn give_up<R>(self, elapsed: Duration) -> (r: AskResult<R>)
        ensures
            r.attempts == self.attempt,
            r.elapsed == elapsed,
            !r.retried_after_transient,
            r.result is Err,
            match self.last_error {
                Some(e) => r.result->Err_0 == e,
                None => r.result->Err_0 is Custom && r.result->Err_0->Custom_0@
                    == "retry policy exhausted without making any attempt"@,
            },
    {
        let error = match self.last_error {
            Some(e) => e,
            None => ActorError::Custom(
                "retry policy exhausted without making any attempt".to_owned(),
            ),
        };
        AskResult {
            result: Err(error),
            attempts: self.attempt,
            elapsed,
            retried_after_transient: false,
        }
    }
}

/// No pause is longer than the base delay of its attempt.
pub proof fn a_pause_is_within_its_base(base_ms: u64, attempt: u32, now_nanos: i64)
    ensures
        0 <= jittered(base_ms, attempt, now_nanos) <= base_ms,
{
}

/// A setting counts only if it is a number from one to the most that is allowed;
/// any other, and none at all, leaves the default.
pub proof fn a_setting_out_of_bounds_is_passed_over(
    value: Option<&str>,
    default: u32,
    r: u32,
    default_secs: u64,
    d: Duration,
)
    requires
        call_ensures(u32_env, (value, default), r),
        call_ensures(duration_secs_env, (value, default_secs), d),
    ensures
        value is None ==> r == default && d@ == default_secs * 1_000_000_000,
        value is Some ==> {
            let read = parse_unsigned(trimmed(value->0@), u64::MAX as nat);
            &&& read is None ==> r == default && d@ == default_secs * 1_000_000_000
            &&& read is Some && 1 <= read->0 <= 32 ==> r == read->0
            &&& read is Some && (read->0 == 0 || read->0 > 32) ==> r == default
            &&& read is Some && 1 <= read->0 <= 3600 ==> d@ == read->0 * 1_000_000_000
            &&& read is Some && (read->0 == 0 || read->0 > 3600) ==> d@ == default_secs
                * 1_000_000_000
        },
{
}

/// The first attempt waits for nothing, each further one for the delay at its
/// place, and one beyond the last place for the last delay.
pub proof fn an_attempt_waits_for_the_delay_at_its_place(
    policy: &RetryPolicy,
    attempt: u32,
    r: u64,
)
    requires
        call_ensures(RetryPolicy::base_delay_ms_for, (policy, attempt), r),
    ensures
        attempt == 0 ==> r == 0,
        policy.base_delays_ms@.len() == 0 ==> r == 0,
        0 < attempt < policy.base_delays_ms@.len() ==> r == policy.base_delays_ms@[attempt as int],
        0 < attempt && 0 < policy.base_delays_ms@.len() <= attempt ==> r
            == policy.base_delays_ms@[policy.base_delays_ms@.len() - 1],
{
}

/// One attempt more is one pause more: that before it.
pub proof fn each_further_attempt_adds_its_pause(delays: Seq<u64>, attempts: u32)
    requires
        delays.len() > 0,
        1 <= attempts,
    ensures
        backoff_nanos(delays, 1) == 0,
        backoff_nanos(delays, attempts + 1) - backoff_nanos(delays, attempts as int) == 1_000_000
            * if attempts < delays.len() {
            delays[attempts as int] as int
        } else {
            delays[delays.len() - 1] as int
        },
{
}

/// A deadline with a floor is never earlier than it was, and no later than it
/// was or than every attempt in full with every pause. All that an attempt may
/// take is left to each, as far as a duration can say.
pub proof fn a_floor_leaves_room_for_every_attempt(policy: RetryPolicy, r: RetryPolicy)
    requires
        call_ensures(RetryPolicy::with_attempt_budget_floor, (policy,), r),
    ensures
        r.per_attempt_timeout@ == policy.per_attempt_timeout@,
        r.max_attempts == policy.max_attempts,
        r.base_delays_ms@ == policy.base_delays_ms@,
        r.total_deadline@ >= policy.total_deadline@,
        ({
            let attempts = if policy.max_attempts == 0 {
                1int
            } else {
                policy.max_attempts as int
            };
            let needed = policy.per_attempt_timeout@ * attempts + backoff_nanos(
                policy.base_delays_ms@,
                attempts,
            );
            &&& needed <= MAX_NANOS ==> r.total_deadline@ >= needed
            &&& needed > MAX_NANOS ==> r.total_deadline@ >= MAX_NANOS
            &&& r.total_deadline@ == policy.total_deadline@ || r.total_deadline@ <= needed
        }),
{
}

/// Asking once is asking by the same limits with one attempt.
pub proof fn asking_once_changes_no_limit(policy: RetryPolicy, r: RetryPolicy)
    requires
        call_ensures(RetryPolicy::without_retries, (policy,), r),
    ensures
        r.max_attempts == 1,
        r.total_deadline == policy.total_deadline,
        r.per_attempt_timeout == policy.per_attempt_timeout,
        r.base_delays_ms == policy.base_delays_ms,
{
}

/// What is left of the time and what has passed make up the deadline, until
/// nothing is left.
pub proof fn what_is_left_and_what_has_passed_make_the_deadline(
    policy: &RetryPolicy,
    elapsed: Duration,
    r: Duration,
)
    requires
        call_ensures(RetryPolicy::remaining, (policy, elapsed), r),
    ensures
        elapsed@ <= policy.total_deadline@ ==> r@ + elapsed@ == policy.total_deadline@,
        elapsed@ > policy.total_deadline@ ==> r@ == 0,
{
}

/// Asking begins with no attempt made, and at least one is allowed.
pub proof fn at_least_one_attempt_is_made(policy: &RetryPolicy, r: AskRun)
    requires
        call_ensures(AskRun::start, (policy,), r),
    ensures
        r.attempt == 0,
        r.last_error is None,
        policy.max_attempts > 0 ==> r.max_attempts == policy.max_attempts,
        policy.max_attempts == 0 ==> r.max_attempts == 1,
{
}

/// Neither a pause nor an attempt goes beyond the deadline, nor beyond the delay
/// or the timeout that the policy has for it. The first attempt is not
/// delayed, and no other is made when the time is over.
pub proof fn asking_keeps_to_its_deadline(
    run: &AskRun,
    policy: &RetryPolicy,
    elapsed: Duration,
    now_nanos: i64,
    pause: Option<Duration>,
    timeout: Option<Duration>,
)
    requires
        call_ensures(AskRun::pause, (run, policy, elapsed, now_nanos), pause),
        call_ensures(AskRun::attempt_timeout, (run, policy, elapsed), timeout),
    ensures
        run.attempt == 0 ==> pause is Some && pause->0@ == 0,
        run.attempt > 0 ==> (pause is None <==> policy.total_deadline@ <= elapsed@),
        run.attempt > 0 && pause is Some ==> elapsed@ + pause->0@ <= policy.total_deadline@,
        run.attempt > 0 && pause is Some && run.attempt < policy.base_delays_ms@.len()
            ==> pause->0@ <= policy.base_delays_ms@[run.attempt as int] * 1_000_000,
        timeout is Some <==> elapsed@ < policy.total_deadline@ && policy.per_attempt_timeout@ > 0,
        timeout is Some ==> timeout->0@ <= policy.per_attempt_timeout@ && elapsed@ + timeout->0@
            <= policy.total_deadline@ && (timeout->0@ == policy.per_attempt_timeout@ || elapsed@
            + timeout->0@ == policy.total_deadline@),
{
    if run.attempt > 0 {
        let base = base_delay(policy.base_delays_ms@, run.attempt);
        a_pause_is_within_its_base(base, run.attempt, now_nanos);
    }
}

/// An answer ends the asking, and so does an error that another attempt would
/// not mend, or that of the last attempt. Any other error is followed by
/// another attempt. What comes back is what came.
pub proof fn only_a_passing_error_is_asked_again<R>(
    run: AskRun,
    reply: Result<R, ActorError>,
    elapsed: Duration,
    r: AskStep<R>,
)
    requires
        run.wf(),
        call_ensures(AskRun::answered::<R>, (run, reply, elapsed), r),
    ensures
        r is Again <==> reply is Err && (reply->Err_0 is AskTimeout || reply->Err_0 is MailboxFull)
            && run.attempt + 1 < run.max_attempts,
        r is Again ==> r->Again_0.attempt == run.attempt + 1 && r->Again_0.max_attempts
            == run.max_attempts && r->Again_0.last_error == Some(reply->Err_0),
        r is Done ==> r->Done_0.result == reply && r->Done_0.attempts == run.attempt + 1
            && r->Done_0.elapsed == elapsed,
        r is Done ==> (r->Done_0.retried_after_transient <==> reply is Ok && run.attempt > 0),
{
}

/// Asking that is given up is answered with the last error that came, after as
/// many attempts as were made.
pub proof fn giving_up_tells_the_last_error<R>(run: AskRun, elapsed: Duration, r: AskResult<R>)
    requires
        call_ensures(AskRun::give_up::<R>, (run, elapsed), r),
    ensures
        r.result is Err,
        r.attempts == run.attempt,
        r.elapsed == elapsed,
        !r.retried_after_transient,
        run.last_error is Some ==> r.result->Err_0 == run.last_error->0,
        run.last_error is None ==> r.result->Err_0 is Custom,
{
}

} // verus!
