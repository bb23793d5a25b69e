//! A three-state circuit breaker (Closed → Open → Half-Open) for guarding an I/O boundary.
//!
//! Instants are readings of a monotonic clock in nanoseconds and durations are nanoseconds. The
//! breaker decides; the caller performs the guarded operation between [`CircuitBreaker::allow_request`]
//! and [`CircuitBreaker::record_outcome`].

use vstd::prelude::*;

verus! {

/// Current breaker state.
#[derive(Debug, Clone, Copy, PartialEq, Eq, Structural)]
pub enum State {
    /// Calls flow through; failures are counted.
    Closed,
    /// Calls are rejected fast until the cool-down elapses.
    Open,
    /// One trial call is allowed to probe recovery.
    HalfOpen,
}

/// Error of a guarded call.
#[derive(Debug)]
pub enum CircuitBreakerError<E> {
    /// The breaker is open; the call was not attempted.
    Open,
    /// The guarded operation failed.
    Inner(E),
}

/// The breaker's state as mathematical values.
pub struct BreakerModel {
    pub state: State,
    pub failures: int,
    pub opened_at: Option<int>,
    pub threshold: int,
    pub open_duration: int,
    /// Whether a half-open trial call has been admitted and its outcome not yet recorded.
    pub trial_in_flight: bool,
}

/// Whether the breaker's records agree with its state: closed breakers carry no opening instant
/// and no trial in flight, open and half-open ones carry the instant they opened.
pub open spec fn consistent(m: BreakerModel) -> bool {
    match m.state {
        State::Closed => m.opened_at is None && !m.trial_in_flight,
        _ => m.opened_at is Some,
    }
}

/// Time elapsed from `since` to `now`, zero when `since` is later.
pub open spec fn elapsed(now: int, since: int) -> int {
    if now >= since {
        now - since
    } else {
        0
    }
}

/// Whether a request at `now` may go through: always when closed; when half-open, only as the
/// one trial call, so not while a trial is in flight; when open, once the open duration has
/// elapsed since the breaker opened (that request becomes the trial).
pub open spec fn admits(m: BreakerModel, now: int) -> bool {
    match m.state {
        State::Closed => true,
        State::HalfOpen => !m.trial_in_flight,
        State::Open => match m.opened_at {
            Some(t) => elapsed(now, t) >= m.open_duration,
            None => true,
        },
    }
}

/// The breaker after a request at `now` was considered: a request admitted while open or
/// half-open is the trial call, so the breaker is half-open with that trial in flight; otherwise
/// nothing changes.
pub open spec fn after_request(m: BreakerModel, now: int) -> BreakerModel {
    if m.state != State::Closed && admits(m, now) {
        BreakerModel { state: State::HalfOpen, trial_in_flight: true, ..m }
    } else {
        m
    }
}

/// The breaker after a successful call: closed, with no failures counted and no trial in flight.
pub open spec fn after_success(m: BreakerModel) -> BreakerModel {
    BreakerModel {
        state: State::Closed,
        failures: 0,
        opened_at: None,
        trial_in_flight: false,
        ..m
    }
}

/// The breaker after a failed call at `now`: one more consecutive failure and no trial in
/// flight; it opens (at `now`) when it was half-open or the count reaches the threshold.
pub open spec fn after_failure(m: BreakerModel, now: int) -> BreakerModel {
    if m.state == State::HalfOpen || m.failures + 1 >= m.threshold {
        BreakerModel {
            state: State::Open,
            failures: m.failures + 1,
            opened_at: Some(now),
            trial_in_flight: false,
            ..m
        }
    } else {
        BreakerModel { failures: m.failures + 1, trial_in_flight: false, ..m }
    }
}

/// A guarded call at `now` whose operation fails when it runs: rejected (no change) when the
/// breaker does not admit it, otherwise a failure is recorded.
pub open spec fn after_failed_call(m: BreakerModel, now: int) -> BreakerModel {
    if admits(m, now) {
        after_failure(after_request(m, now), now)
    } else {
        m
    }
}

/// The breaker after `k` failed guarded calls, all at `now`.
pub open spec fn after_failed_calls(m: BreakerModel, k: nat, now: int) -> BreakerModel
    decreases k,
{
    if k == 0 {
        m
    } else {
        after_failed_call(after_failed_calls(m, (k - 1) as nat, now), now)
    }
}

/// A circuit breaker that opens after `failure_threshold` consecutive failures and stays open
/// for `open_duration` before allowing a half-open trial.
pub struct CircuitBreaker {
    state: State,
    consecutive_failures: u32,
    opened_at: Option<u128>,
    failure_threshold: u32,
    open_duration: u128,
    trial_in_flight: bool,
}

impl View for CircuitBreaker {
    type V = BreakerModel;

    closed spec fn view(&self) -> BreakerModel {
        BreakerModel {
            state: self.state,
            failures: self.consecutive_failures as int,
            opened_at: match self.opened_at {
                Some(t) => Some(t as int),
                None => None,
            },
            threshold: self.failure_threshold as int,
            open_duration: self.open_duration as int,
            trial_in_flight: self.trial_in_flight,
        }
    }
}

impl CircuitBreaker {
    #[verifier::type_invariant]
    spec fn inv(&self) -> bool {
        consistent(self@)
    }

    /// A closed breaker with no failures counted.
    pub fn new(failure_threshold: u32, open_duration: u128) -> (b: CircuitBreaker)
        ensures
            b@ == (BreakerModel {
                state: State::Closed,
                failures: 0,
                opened_at: None,
                threshold: failure_threshold as int,
                open_duration: open_duration as int,
                trial_in_flight: false,
            }),
    {
        CircuitBreaker {
            state: State::Closed,
            consecutive_failures: 0,
            opened_at: None,
            failure_threshold,
            open_duration,
            trial_in_flight: false,
        }
    }

    /// The current state.
    pub fn state(&self) -> (s: State)
        ensures
            s == self@.state,
    {
        self.state
    }

    /// Number of consecutive failures counted since the last success.
    pub fn consecutive_failures(&self) -> (n: u32)
        ensures
            n == self@.failures,
    {
        self.consecutive_failures
    }

    /// Whether a request at `now` may run (see [`admits`]); a request admitted while open or
    /// half-open is the single trial call, and the breaker is half-open until its outcome is
    /// recorded.
    pub fn allow_request(&mut self, now: u128) -> (allowed: bool)
        ensures
            allowed == admits(old(self)@, now as int),
            final(self)@ == after_request(old(self)@, now as int),
    {
        proof {
            use_type_invariant(&*self);
        }
        let admitted = match self.state {
            State::Closed => {
                return true;
            },
            State::HalfOpen => !self.trial_in_flight,
            State::Open => match self.opened_at {
                Some(t) => {
                    let waited: u128 = if now >= t {
                        now - t
                    } else {
                        0
                    };
                    waited >= self.open_duration
                },
                None => true,
            },
        };
        if admitted {
            *self = CircuitBreaker {
                state: State::HalfOpen,
                consecutive_failures: self.consecutive_failures,
                opened_at: self.opened_at,
                failure_threshold: self.failure_threshold,
                open_duration: self.open_duration,
                trial_in_flight: true,
            };
        }
        admitted
    }

    /// Records a successful call: closed, failures reset, no trial in flight.
    pub fn on_success(&mut self)
        ensures
            final(self)@ == after_success(old(self)@),
    {
        *self = CircuitBreaker {
            state: State::Closed,
            consecutive_failures: 0,
            opened_at: None,
            failure_threshold: self.failure_threshold,
            open_duration: self.open_duration,
            trial_in_flight: false,
        };
    }

    /// Records a failed call at `now` (see [`after_failure`]). The failure count must not be at
    /// its maximum.
    pub fn on_failure(&mut self, now: u128)
        requires
            old(self)@.failures < u32::MAX,
        ensures
            final(self)@ == after_failure(old(self)@, now as int),
    {
        proof {
            use_type_invariant(&*self);
        }
        let failures = self.consecutive_failures + 1;
        if self.state == State::HalfOpen || failures >= self.failure_threshold {
            *self = CircuitBreaker {
                state: State::Open,
                consecutive_failures: failures,
                opened_at: Some(now),
                failure_threshold: self.failure_threshold,
                open_duration: self.open_duration,
                trial_in_flight: false,
            };
        } else {
            *self = CircuitBreaker {
                state: self.state,
                consecutive_failures: failures,
                opened_at: self.opened_at,
                failure_threshold: self.failure_threshold,
                open_duration: self.open_duration,
                trial_in_flight: false,
            };
        }
    }

    /// Records the outcome of a guarded operation that the breaker admitted, at `now`, and hands
    /// it back: the value on success, the operation's error as [`CircuitBreakerError::Inner`] on
    /// failure.
    pub fn record_outcome<T, E>(&mut self, outcome: Result<T, E>, now: u128) -> (r: Result<
        T,
        CircuitBreakerError<E>,
    >)
        requires
            outcome is Err ==> old(self)@.failures < u32::MAX,
        ensures
            match outcome {
                Ok(v) => r == Ok::<T, CircuitBreakerError<E>>(v) && final(self)@ == after_success(
                    old(self)@,
                ),
                Err(e) => r == Err::<T, CircuitBreakerError<E>>(CircuitBreakerError::Inner(e))
                    && final(self)@ == after_failure(old(self)@, now as int),
            },
    {
        match outcome {
            Ok(value) => {
                self.on_success();
                Ok(value)
            },
            Err(err) => {
                self.on_failure(now);
                Err(CircuitBreakerError::Inner(err))
            },
        }
    }
}

/// Success closes the breaker from any state and forgets past failures.
pub proof fn lemma_success_closes(m: BreakerModel)
    ensures
        after_success(m).state == State::Closed,
        after_success(m).failures == 0,
        consistent(after_success(m)),
{
}

/// Every transition keeps the breaker consistent: open and half-open breakers know when they
/// opened, closed ones neither know an opening instant nor have a trial in flight.
pub proof fn lemma_transitions_consistent(m: BreakerModel, now: int)
    requires
        consistent(m),
    ensures
        consistent(after_request(m, now)),
        consistent(after_success(m)),
        consistent(after_failure(m, now)),
{
}

/// An open breaker rejects every request until `open_duration` has elapsed since it opened, and
/// a rejected request changes nothing.
pub proof fn lemma_open_rejects_until_cooled(m: BreakerModel, now: int)
    requires
        consistent(m),
        m.state == State::Open,
        elapsed(now, m.opened_at->Some_0) < m.open_duration,
    ensures
        !admits(m, now),
        after_request(m, now) == m,
{
}

/// Once the cool-down has elapsed an open breaker admits one trial call and becomes half-open;
/// the trial's success closes it, its failure reopens it at the failure's instant.
pub proof fn lemma_half_open_trial(m: BreakerModel, now: int, later: int)
    requires
        consistent(m),
        m.state == State::Open,
        elapsed(now, m.opened_at->Some_0) >= m.open_duration,
    ensures
        admits(m, now),
        after_request(m, now).state == State::HalfOpen,
        after_success(after_request(m, now)).state == State::Closed,
        after_failure(after_request(m, now), later).state == State::Open,
        after_failure(after_request(m, now), later).opened_at == Some(later),
{
}

/// A half-open breaker admits one trial call at a time: while the trial's outcome is not yet
/// recorded every other request is rejected and changes nothing; recording any outcome ends the
/// trial.
pub proof fn lemma_single_trial(m: BreakerModel, now: int, later: int)
    requires
        consistent(m),
        m.state != State::Closed,
        admits(m, now),
    ensures
        after_request(m, now).state == State::HalfOpen,
        after_request(m, now).trial_in_flight,
        !admits(after_request(m, now), later),
        after_request(after_request(m, now), later) == after_request(m, now),
        !after_success(after_request(m, now)).trial_in_flight,
        !after_failure(after_request(m, now), later).trial_in_flight,
{
}

/// From a closed breaker with no failures and a threshold of `n >= 1`: each of the first `n - 1`
/// failed calls is admitted and leaves it closed, counting one more failure; the `n`-th opens it.
pub proof fn lemma_opens_after_threshold_failures(m: BreakerModel, k: nat, now: int)
    requires
        m.state == State::Closed,
        m.failures == 0,
        m.opened_at is None,
        !m.trial_in_flight,
        m.threshold >= 1,
        k <= m.threshold,
    ensures
        k < m.threshold ==> after_failed_calls(m, k, now).state == State::Closed,
        k == m.threshold ==> after_failed_calls(m, k, now).state == State::Open,
        k == m.threshold ==> after_failed_calls(m, k, now).opened_at == Some(now),
        after_failed_calls(m, k, now).failures == k,
        after_failed_calls(m, k, now).threshold == m.threshold,
        after_failed_calls(m, k, now).open_duration == m.open_duration,
    decreases k,
{
    if k > 0 {
        lemma_opens_after_threshold_failures(m, (k - 1) as nat, now);
    }
}


/// No transition changes the breaker's configuration: the failure threshold and the open
/// duration stay those it was created with.
pub proof fn lemma_transitions_keep_configuration(m: BreakerModel, now: int)
    ensures
        after_request(m, now).threshold == m.threshold,
        after_request(m, now).open_duration == m.open_duration,
        after_success(m).threshold == m.threshold,
        after_success(m).open_duration == m.open_duration,
        after_failure(m, now).threshold == m.threshold,
        after_failure(m, now).open_duration == m.open_duration,
{
}

/// A success restarts the count: after it, from any state, the next `threshold - 1` failed calls
/// leave the breaker closed and the `threshold`-th opens it.
pub proof fn lemma_success_restarts_failure_count(m: BreakerModel, k: nat, now: int)
    requires
        m.threshold >= 1,
        k <= m.threshold,
    ensures
        k < m.threshold ==> after_failed_calls(after_success(m), k, now).state == State::Closed,
        k == m.threshold ==> after_failed_calls(after_success(m), k, now).state == State::Open,
        after_failed_calls(after_success(m), k, now).failures == k,
{
    lemma_transitions_keep_configuration(m, now);
    lemma_opens_after_threshold_failures(after_success(m), k, now);
}

} // verus!
