//! Deferred cleanup and the driver's recovery policies.
//!
//! A handle's teardown must never block, so it posts a fire-and-forget close
//! request into a single-slot mailbox that the long-running control loop
//! drains. The control loop retries each close a bounded number of times
//! with a short backoff and escalates to a full adapter reset when the
//! retries are exhausted — the sole recovery path for a wedged module. A
//! connect, for its part, is retried with a fixed backoff until its
//! deadline runs out.

use vstd::prelude::*;
use crate::SocketError;

verus! {

/// The single-slot mailbox carrying deferred close requests from a handle's
/// teardown to the control loop. It holds at most one pending request and
/// never blocks the sender.
pub struct ControlChannel {
    /// The handle whose close is pending, if any.
    pub pending: Option<u8>,
}

impl ControlChannel {
    /// An empty mailbox.
    pub fn new() -> (r: Self)
        ensures
            r.pending is None,
    {
        ControlChannel { pending: None }
    }

    /// Best-effort post of a deferred close for a handle. When a request is
    /// already pending the new one is silently dropped — acceptable, since
    /// the pending close will drain the mailbox and the module itself times
    /// out idle connections.
    pub fn try_send_close(&mut self, handle: u8) -> (accepted: bool)
        ensures
            match old(self).pending {
                None => accepted && final(self).pending == Some(handle),
                Some(_) => !accepted && final(self).pending == old(self).pending,
            },
    {
        if self.pending.is_none() {
            self.pending = Some(handle);
            true
        } else {
            false
        }
    }

    /// Takes the pending request out of the mailbox, if any.
    pub fn take_request(&mut self) -> (r: Option<u8>)
        ensures
            r == old(self).pending,
            final(self).pending is None,
    {
        let r = self.pending;
        self.pending = None;
        r
    }
}

/// How often a deferred close is attempted before escalating.
pub const CLOSE_RETRIES: usize = 3;

/// Pause between close attempts, in milliseconds.
pub const CLOSE_BACKOFF_MS: u64 = 50;

/// Bound on one close attempt, in milliseconds.
pub const CLOSE_ATTEMPT_TIMEOUT_MS: u64 = 10000;

/// Outcome of one bounded close attempt.
#[derive(Debug, Clone, Copy, PartialEq, Eq, Structural)]
pub enum CloseAttempt {
    /// The close went through.
    Closed,
    /// The close returned an error.
    Refused,
    /// The close ran into its time bound.
    TimedOut,
}

/// What the control loop does after one close attempt.
#[derive(Debug, Clone, Copy, PartialEq, Eq, Structural)]
pub enum RecoveryAction {
    /// The request is served; wait for the next one.
    Done,
    /// Pause for the close backoff, then attempt again.
    Backoff,
    /// Retries are exhausted: reset the whole adapter, on the assumption
    /// that a socket refusing to close means protocol desync rather than a
    /// transient error.
    Reset,
}

/// Bounded-retry state for one deferred close request.
pub struct CloseRecovery {
    /// Attempts left before escalating to a reset.
    pub retries_left: usize,
}

impl CloseRecovery {
    /// A fresh request, with the full retry budget.
    pub fn begin() -> (r: Self)
        ensures
            r.retries_left == CLOSE_RETRIES,
    {
        CloseRecovery { retries_left: CLOSE_RETRIES }
    }

    /// Decides what follows one close attempt: success serves the request;
    /// a refusal or a timeout spends one retry, and spending the last one
    /// escalates to a reset.
    pub fn apply(&mut self, attempt: CloseAttempt) -> (a: RecoveryAction)
        requires
            old(self).retries_left >= 1,
        ensures
            attempt == CloseAttempt::Closed ==> a == RecoveryAction::Done
                && final(self).retries_left == old(self).retries_left,
            attempt != CloseAttempt::Closed ==> final(self).retries_left
                == old(self).retries_left - 1
                && a == (if final(self).retries_left == 0 {
                    RecoveryAction::Reset
                } else {
                    RecoveryAction::Backoff
                }),
    {
        match attempt {
            CloseAttempt::Closed => RecoveryAction::Done,
            _ => {
                self.retries_left = self.retries_left - 1;
                if self.retries_left == 0 {
                    RecoveryAction::Reset
                } else {
                    RecoveryAction::Backoff
                }
            },
        }
    }
}

/// Serves one deferred close request against the recorded outcomes of its
/// attempts, returning how many attempts were made and whether the adapter
/// was reset. At most the retry budget is spent; the request ends early at
/// the first attempt that closes; exactly when every attempt of the budget
/// fails, one reset follows.
pub fn run_close_recovery(outcomes: &Vec<CloseAttempt>) -> (r: (usize, bool))
    requires
        outcomes@.len() >= CLOSE_RETRIES,
    ensures
        ({
            let (attempts, reset) = r;
            &&& 1 <= attempts <= CLOSE_RETRIES
            &&& reset ==> attempts == CLOSE_RETRIES && forall|i: int|
                0 <= i < CLOSE_RETRIES ==> outcomes@[i] != CloseAttempt::Closed
            &&& !reset ==> outcomes@[attempts - 1] == CloseAttempt::Closed && forall|i: int|
                0 <= i < attempts - 1 ==> outcomes@[i] != CloseAttempt::Closed
        }),
{
    let mut recovery = CloseRecovery::begin();
    let mut i: usize = 0;
    while i < CLOSE_RETRIES
        invariant
            i <= CLOSE_RETRIES,
            recovery.retries_left == CLOSE_RETRIES - i,
            outcomes@.len() >= CLOSE_RETRIES,
            forall|j: int| 0 <= j < i ==> outcomes@[j] != CloseAttempt::Closed,
        decreases CLOSE_RETRIES - i,
    {
        match recovery.apply(outcomes[i]) {
            RecoveryAction::Done => {
                return (i + 1, false);
            },
            RecoveryAction::Reset => {
                return (i + 1, true);
            },
            RecoveryAction::Backoff => {
                i = i + 1;
            },
        }
    }
    // The loop always returns from within: the last retry either closes or
    // escalates. Exhaustion is stated here all the same.
    (CLOSE_RETRIES, true)
}

/// Deadline for a whole connect, in milliseconds.
pub const CONNECT_DEADLINE_MS: u64 = 60000;

/// Pause after a failed connect attempt, in milliseconds.
pub const CONNECT_BACKOFF_MS: u64 = 100;

/// Outcome of one connect attempt.
#[derive(Debug, Clone, Copy, PartialEq, Eq, Structural)]
pub enum ConnectAttempt {
    /// The connect went through.
    Succeeded,
    /// The attempt failed; the retry backs off and tries again.
    Failed,
    /// The attempt ran into its time bound; the retry gives up at once.
    TimedOut,
}

/// Replay of the connect retry against a sequence of attempt outcomes,
/// under a time budget: each failed attempt costs one backoff; a success
/// or a timeout ends the retry at once; an exhausted budget (or running
/// out of outcomes) ends it in failure. Yields how many attempts were made
/// and whether the connect succeeded.
pub open spec fn retry_spec(outcomes: Seq<ConnectAttempt>, budget_ms: int, backoff_ms: int) -> (
    int,
    bool,
)
    decreases outcomes.len(),
{
    if budget_ms <= 0 || outcomes.len() == 0 {
        (0, false)
    } else {
        match outcomes.first() {
            ConnectAttempt::Succeeded => (1, true),
            ConnectAttempt::TimedOut => (1, false),
            ConnectAttempt::Failed => {
                let sub = retry_spec(outcomes.drop_first(), budget_ms - backoff_ms, backoff_ms);
                (1 + sub.0, sub.1)
            },
        }
    }
}

/// The retry never makes more attempts than backoffs fit into the budget,
/// rounded up.
pub proof fn lemma_retry_attempt_bound(
    outcomes: Seq<ConnectAttempt>,
    budget_ms: int,
    backoff_ms: int,
)
    requires
        backoff_ms >= 1,
        budget_ms >= 0,
    ensures
        retry_spec(outcomes, budget_ms, backoff_ms).0 <= (budget_ms + backoff_ms - 1)
            / backoff_ms,
    decreases outcomes.len(),
{
    let ceil = (budget_ms + backoff_ms - 1) / backoff_ms;
    if budget_ms <= 0 || outcomes.len() == 0 {
        assert((budget_ms + backoff_ms - 1) / backoff_ms >= 0) by (nonlinear_arith)
            requires
                backoff_ms >= 1,
                budget_ms >= 0,
        ;
    } else {
        assert((budget_ms + backoff_ms - 1) / backoff_ms >= 1) by (nonlinear_arith)
            requires
                backoff_ms >= 1,
                budget_ms >= 1,
        ;
        match outcomes.first() {
            ConnectAttempt::Succeeded => {},
            ConnectAttempt::TimedOut => {},
            ConnectAttempt::Failed => {
                if budget_ms - backoff_ms <= 0 {
                    assert(retry_spec(outcomes.drop_first(), budget_ms - backoff_ms, backoff_ms).0
                        == 0);
                } else {
                    lemma_retry_attempt_bound(
                        outcomes.drop_first(),
                        budget_ms - backoff_ms,
                        backoff_ms,
                    );
                    assert((budget_ms - backoff_ms + backoff_ms - 1) / backoff_ms + 1 == (
                    budget_ms + backoff_ms - 1) / backoff_ms) by (nonlinear_arith)
                        requires
                            backoff_ms >= 1,
                            budget_ms - backoff_ms >= 1,
                    ;
                }
            },
        }
    }
}

/// Connect retried under a deadline with a fixed backoff: when the connect
/// primitive fails `n` times and then succeeds, the retry succeeds exactly
/// when the successful attempt still falls before the deadline — in which
/// case it made `n + 1` attempts — and reports a connect failure otherwise.
pub proof fn lemma_retry_fail_then_succeed(
    outcomes: Seq<ConnectAttempt>,
    budget_ms: int,
    backoff_ms: int,
    n: int,
)
    requires
        backoff_ms >= 1,
        budget_ms >= 0,
        0 <= n < outcomes.len(),
        forall|i: int| 0 <= i < n ==> outcomes[i] == ConnectAttempt::Failed,
        outcomes[n] == ConnectAttempt::Succeeded,
    ensures
        retry_spec(outcomes, budget_ms, backoff_ms).1 == (n * backoff_ms < budget_ms),
        n * backoff_ms < budget_ms ==> retry_spec(outcomes, budget_ms, backoff_ms).0 == n + 1,
    decreases n,
{
    if budget_ms <= 0 {
        assert(n * backoff_ms >= 0) by (nonlinear_arith)
            requires
                n >= 0,
                backoff_ms >= 1,
        ;
    } else if n == 0 {
        assert(outcomes.first() == ConnectAttempt::Succeeded);
    } else {
        assert(outcomes.first() == ConnectAttempt::Failed);
        let rest = outcomes.drop_first();
        assert(rest[n - 1] == outcomes[n]);
        assert(forall|i: int| 0 <= i < n - 1 ==> rest[i] == outcomes[i + 1]);
        if budget_ms - backoff_ms <= 0 {
            assert(retry_spec(rest, budget_ms - backoff_ms, backoff_ms) == (0int, false));
            assert(n * backoff_ms >= backoff_ms) by (nonlinear_arith)
                requires
                    n >= 1,
                    backoff_ms >= 1,
            ;
        } else {
            lemma_retry_fail_then_succeed(rest, budget_ms - backoff_ms, backoff_ms, n - 1);
            assert((n - 1) * backoff_ms == n * backoff_ms - backoff_ms) by (nonlinear_arith);
        }
    }
}

/// Replays the connect retry against recorded attempt outcomes, under the
/// given deadline and backoff, returning how many attempts were made and
/// the connect's result. The attempt count never exceeds the deadline
/// divided by the backoff, rounded up.
pub fn run_connect_retry(outcomes: &Vec<ConnectAttempt>, deadline_ms: u64, backoff_ms: u64) -> (r:
    (usize, Result<(), SocketError>))
    requires
        backoff_ms >= 1,
    ensures
        ({
            let (attempts, result) = r;
            &&& attempts as int == retry_spec(
                outcomes@,
                deadline_ms as int,
                backoff_ms as int,
            ).0
            &&& (result is Ok) == retry_spec(outcomes@, deadline_ms as int, backoff_ms as int).1
            &&& result is Err ==> result == Err::<(), SocketError>(SocketError::ConnectError)
            &&& attempts as int <= (deadline_ms + backoff_ms - 1) as int / backoff_ms as int
        }),
{
    proof {
        lemma_retry_attempt_bound(outcomes@, deadline_ms as int, backoff_ms as int);
        assert(outcomes@.skip(0) =~= outcomes@);
    }
    let (attempts, ok) = retry_replay(outcomes, 0, deadline_ms, backoff_ms);
    if ok {
        (attempts, Ok(()))
    } else {
        (attempts, Err(SocketError::ConnectError))
    }
}

/// Replays the retry from attempt `idx` on, with `budget_ms` of the
/// deadline left.
fn retry_replay(outcomes: &Vec<ConnectAttempt>, idx: usize, budget_ms: u64, backoff_ms: u64) -> (r:
    (usize, bool))
    requires
        backoff_ms >= 1,
        idx <= outcomes@.len(),
    ensures
        r.0 as int == retry_spec(outcomes@.skip(idx as int), budget_ms as int, backoff_ms as int).0,
        r.1 == retry_spec(outcomes@.skip(idx as int), budget_ms as int, backoff_ms as int).1,
        r.0 <= outcomes@.len() - idx,
    decreases outcomes@.len() - idx,
{
    let ghost tail = outcomes@.skip(idx as int);
    if budget_ms == 0 || idx == outcomes.len() {
        return (0, false);
    }
    proof {
        assert(tail.len() > 0);
        assert(tail.first() == outcomes@[idx as int]);
        assert(tail.drop_first() =~= outcomes@.skip(idx as int + 1));
    }
    match outcomes[idx] {
        ConnectAttempt::Succeeded => (1, true),
        ConnectAttempt::TimedOut => (1, false),
        ConnectAttempt::Failed => {
            let next_budget = if budget_ms >= backoff_ms {
                budget_ms - backoff_ms
            } else {
                0
            };
            proof {
                if budget_ms < backoff_ms {
                    assert(retry_spec(
                        tail.drop_first(),
                        budget_ms as int - backoff_ms as int,
                        backoff_ms as int,
                    ) == (0int, false));
                    assert(retry_spec(tail.drop_first(), 0, backoff_ms as int) == (0int, false));
                }
            }
            let sub = retry_replay(outcomes, idx + 1, next_budget, backoff_ms);
            (1 + sub.0, sub.1)
        },
    }
}

} // verus!
