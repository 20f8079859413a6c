use vstd::prelude::*;
use crate::config::RetryConfig;
use crate::error::{AppError, transient};

verus! {

/// What to do after a failed attempt.
#[derive(Debug, Clone, Copy, PartialEq, Eq)]
pub enum RetryAction {
    /// Sleep this many milliseconds, then make the next attempt.
    RetryAfter(u64),
    /// Stop and return the error of the attempt that just failed.
    GiveUp,
}

/// Delay slept after the `failures`-th failed attempt: `base_delay`, growing
/// by `base_delay` per failure, capped at `max_delay`.
pub open spec fn backoff_delay(policy: RetryConfig, failures: nat) -> int {
    let grown = failures * policy.base_delay_ms;
    if grown < policy.max_delay_ms {
        grown
    } else {
        policy.max_delay_ms as int
    }
}

/// Decision after the `attempts`-th attempt failed with an error that is
/// transient or not.
pub open spec fn decide(policy: RetryConfig, attempts: nat, is_transient: bool) -> RetryAction {
    if !is_transient || attempts >= policy.max_attempts {
        RetryAction::GiveUp
    } else {
        RetryAction::RetryAfter(backoff_delay(policy, attempts) as u64)
    }
}

/// Number of attempts made so far for one logical call.
#[derive(Debug, Clone, Copy, PartialEq, Eq)]
pub struct RetryState {
    pub attempts: u32,
}

impl RetryState {
    pub fn new() -> (r: Self)
        ensures
            r.attempts == 0,
    {
        RetryState { attempts: 0 }
    }

    /// Whether the policy allows another attempt.
    pub fn may_attempt(&self, policy: &RetryConfig) -> (r: bool)
        ensures
            r == (self.attempts < policy.max_attempts),
    {
        self.attempts < policy.max_attempts
    }

    /// Counts the attempt that just failed with `error` and decides whether
    /// to retry: only transient errors are retried, while attempts remain.
    pub fn after_failure(&mut self, policy: &RetryConfig, error: &AppError) -> (r: RetryAction)
        requires
            old(self).attempts < policy.max_attempts,
        ensures
            final(self).attempts == old(self).attempts + 1,
            r == decide(*policy, final(self).attempts as nat, transient(*error)),
    {
        self.attempts = self.attempts + 1;
        if !error.is_transient() || self.attempts >= policy.max_attempts {
            return RetryAction::GiveUp;
        }
        let a = self.attempts as u128;
        let b = policy.base_delay_ms as u128;
        assert(a * b <= 0xffff_ffffu128 * 0xffff_ffff_ffff_ffffu128) by (nonlinear_arith)
            requires
                a <= 0xffff_ffffu128,
                b <= 0xffff_ffff_ffff_ffffu128,
        ;
        let grown = a * b;
        let delay = if grown < policy.max_delay_ms as u128 {
            grown as u64
        } else {
            policy.max_delay_ms
        };
        RetryAction::RetryAfter(delay)
    }
}

/// Outcome of running one logical call under a policy.
pub struct Execution {
    pub attempts: nat,
    pub succeeded: bool,
    pub delays: Seq<int>,
}

/// The execution from attempt number `done` on, when attempt `i` succeeds
/// exactly if `outcomes[i]` and every failure is transient. Each step is the
/// decision that `RetryState::after_failure` makes.
pub open spec fn execute_from(policy: RetryConfig, outcomes: Seq<bool>, done: nat) -> Execution
    decreases outcomes.len() - done,
{
    if done >= policy.max_attempts || done >= outcomes.len() {
        Execution { attempts: done, succeeded: false, delays: Seq::empty() }
    } else if outcomes[done as int] {
        Execution { attempts: done + 1, succeeded: true, delays: Seq::empty() }
    } else {
        match decide(policy, done + 1, true) {
            RetryAction::GiveUp => Execution {
                attempts: done + 1,
                succeeded: false,
                delays: Seq::empty(),
            },
            RetryAction::RetryAfter(d) => {
                let rest = execute_from(policy, outcomes, done + 1);
                Execution { attempts: rest.attempts, succeeded: rest.succeeded, delays: seq![d as int] + rest.delays }
            },
        }
    }
}

/// `k` failures followed by a success.
pub open spec fn fails_then_succeeds(k: nat) -> Seq<bool> {
    Seq::new(k + 1, |i: int| i == k)
}

pub open spec fn always_fails(n: nat) -> Seq<bool> {
    Seq::new(n, |i: int| false)
}

proof fn lemma_backoff_bounds(policy: RetryConfig, a: nat, b: nat)
    requires
        a <= b,
    ensures
        backoff_delay(policy, a) <= backoff_delay(policy, b),
        backoff_delay(policy, b) <= policy.max_delay_ms,
{
    assert(a * policy.base_delay_ms <= b * policy.base_delay_ms) by (nonlinear_arith)
        requires
            a <= b,
    ;
}

proof fn lemma_succeeds_from(policy: RetryConfig, k: nat, done: nat)
    requires
        k < policy.max_attempts,
        done <= k,
    ensures
        execute_from(policy, fails_then_succeeds(k), done).attempts == k + 1,
        execute_from(policy, fails_then_succeeds(k), done).succeeded,
        execute_from(policy, fails_then_succeeds(k), done).delays =~= Seq::new(
            (k - done) as nat,
            |i: int| backoff_delay(policy, (done + 1 + i) as nat),
        ),
    decreases k - done,
{
    let outcomes = fails_then_succeeds(k);
    if done < k {
        lemma_succeeds_from(policy, k, done + 1);
        lemma_backoff_bounds(policy, done + 1, done + 1);
        assert(backoff_delay(policy, done + 1) >= 0) by (nonlinear_arith);
    }
}

proof fn lemma_fails_from(policy: RetryConfig, n: nat, done: nat)
    requires
        n >= policy.max_attempts,
        1 <= policy.max_attempts,
        done < policy.max_attempts,
    ensures
        execute_from(policy, always_fails(n), done).attempts == policy.max_attempts,
        !execute_from(policy, always_fails(n), done).succeeded,
        execute_from(policy, always_fails(n), done).delays =~= Seq::new(
            (policy.max_attempts - 1 - done) as nat,
            |i: int| backoff_delay(policy, (done + 1 + i) as nat),
        ),
    decreases policy.max_attempts - done,
{
    if done + 1 < policy.max_attempts {
        lemma_fails_from(policy, n, done + 1);
        assert(backoff_delay(policy, done + 1) >= 0) by (nonlinear_arith);
        lemma_backoff_bounds(policy, done + 1, done + 1);
    }
}

/// An operation that fails `k < max_attempts` times (transiently) and then
/// succeeds is attempted exactly `k + 1` times and succeeds; one that always
/// fails is attempted exactly `max_attempts` times and fails with its last
/// error. The delays between attempts never decrease and never exceed
/// `max_delay`.
pub proof fn lemma_retry_attempts(policy: RetryConfig, k: nat, n: nat)
    ensures
        k < policy.max_attempts ==> {
            let e = execute_from(policy, fails_then_succeeds(k), 0);
            &&& e.attempts == k + 1
            &&& e.succeeded
            &&& e.delays.len() == k
        },
        n >= policy.max_attempts >= 1 ==> {
            let e = execute_from(policy, always_fails(n), 0);
            &&& e.attempts == policy.max_attempts
            &&& !e.succeeded
            &&& e.delays.len() == policy.max_attempts - 1
            &&& forall|i: int, j: int|
                0 <= i <= j < e.delays.len() ==> #[trigger] e.delays[i] <= #[trigger] e.delays[j]
            &&& forall|i: int| 0 <= i < e.delays.len() ==> #[trigger] e.delays[i] <= policy.max_delay_ms
        },
{
    if k < policy.max_attempts {
        lemma_succeeds_from(policy, k, 0);
    }
    if n >= policy.max_attempts >= 1 {
        lemma_fails_from(policy, n, 0);
        let e = execute_from(policy, always_fails(n), 0);
        assert forall|i: int, j: int| 0 <= i <= j < e.delays.len() implies #[trigger] e.delays[i]
            <= #[trigger] e.delays[j] by {
            lemma_backoff_bounds(policy, (1 + i) as nat, (1 + j) as nat);
        }
        assert forall|i: int| 0 <= i < e.delays.len() implies #[trigger] e.delays[i]
            <= policy.max_delay_ms by {
            lemma_backoff_bounds(policy, (1 + i) as nat, (1 + i) as nat);
        }
    }
}

} // verus!
