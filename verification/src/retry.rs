//! The decisions of retrying with backoff: which attempt is running and whether a failed attempt
//! is retried. The caller runs the attempts and waits the backoff between them.

use vstd::prelude::*;

verus! {

/// What to do after a failed attempt.
#[derive(Debug, Clone, Copy, PartialEq, Eq, Structural)]
pub enum RetryDecision {
    /// Attempts are exhausted: hand back the error.
    GiveUp,
    /// Wait the backoff, then make the next attempt.
    RetryAfterBackoff,
}

/// Attempt counter for one operation retried up to `max_attempts` times in total.
#[derive(Debug, Clone, Copy, PartialEq, Eq, Structural)]
pub struct RetryState {
    attempt: u32,
    max_attempts: u32,
}

/// The counter as mathematical values: the running attempt (from 1) and the attempt limit.
pub struct RetryModel {
    pub attempt: int,
    pub max_attempts: int,
}

/// The decision after attempt `m.attempt` fails: give up once the limit is reached.
pub open spec fn decision_after_failure(m: RetryModel) -> RetryDecision {
    if m.attempt >= m.max_attempts {
        RetryDecision::GiveUp
    } else {
        RetryDecision::RetryAfterBackoff
    }
}

/// The counter after a failed attempt: the next attempt when it is retried, unchanged otherwise.
pub open spec fn after_failed_attempt(m: RetryModel) -> RetryModel {
    if m.attempt >= m.max_attempts {
        m
    } else {
        RetryModel { attempt: m.attempt + 1, ..m }
    }
}

/// The counter after `k` failed attempts.
pub open spec fn after_failed_attempts(m: RetryModel, k: nat) -> RetryModel
    decreases k,
{
    if k == 0 {
        m
    } else {
        after_failed_attempt(after_failed_attempts(m, (k - 1) as nat))
    }
}

/// How many attempts an operation that always fails gets: the limit, and at least one.
pub open spec fn attempts_allowed(max_attempts: int) -> int {
    if max_attempts >= 1 {
        max_attempts
    } else {
        1
    }
}

impl View for RetryState {
    type V = RetryModel;

    closed spec fn view(&self) -> RetryModel {
        RetryModel { attempt: self.attempt as int, max_attempts: self.max_attempts as int }
    }
}

impl RetryState {
    /// Before the first attempt.
    pub fn new(max_attempts: u32) -> (s: RetryState)
        ensures
            s@ == (RetryModel { attempt: 1, max_attempts: max_attempts as int }),
    {
        RetryState { attempt: 1, max_attempts }
    }

    /// The number of the running attempt, from 1.
    pub fn attempt(&self) -> (n: u32)
        ensures
            n == self@.attempt,
    {
        self.attempt
    }

    /// Records that the running attempt failed and decides whether to retry.
    pub fn on_failure(&mut self) -> (d: RetryDecision)
        ensures
            d == decision_after_failure(old(self)@),
            final(self)@ == after_failed_attempt(old(self)@),
    {
        if self.attempt >= self.max_attempts {
            RetryDecision::GiveUp
        } else {
            self.attempt = self.attempt + 1;
            RetryDecision::RetryAfterBackoff
        }
    }
}

/// An operation that fails every time is attempted exactly `max(max_attempts, 1)` times: each
/// earlier failure is retried and the failure of the last allowed attempt gives up.
pub proof fn lemma_gives_up_after_max_attempts(max_attempts: int, k: nat)
    requires
        k < attempts_allowed(max_attempts),
    ensures
        after_failed_attempts(RetryModel { attempt: 1, max_attempts }, k).attempt == k + 1,
        after_failed_attempts(RetryModel { attempt: 1, max_attempts }, k).max_attempts
            == max_attempts,
        k + 1 < attempts_allowed(max_attempts) ==> decision_after_failure(
            after_failed_attempts(RetryModel { attempt: 1, max_attempts }, k),
        ) == RetryDecision::RetryAfterBackoff,
        k + 1 == attempts_allowed(max_attempts) ==> decision_after_failure(
            after_failed_attempts(RetryModel { attempt: 1, max_attempts }, k),
        ) == RetryDecision::GiveUp,
    decreases k,
{
    if k > 0 {
        lemma_gives_up_after_max_attempts(max_attempts, (k - 1) as nat);
    }
}

} // verus!
