use paystream::retry::{RetryDecision, RetryState};
use paystream::{CircuitBreaker, CircuitBreakerError, State};

const MS: u128 = 1_000_000;

fn ok() -> Result<u32, &'static str> {
    Ok(1)
}

fn fail() -> Result<u32, &'static str> {
    Err("boom")
}

/// One guarded call at `now`, the operation running only when the breaker admits it.
fn call(
    cb: &mut CircuitBreaker,
    now: u128,
    op: fn() -> Result<u32, &'static str>,
) -> Result<u32, CircuitBreakerError<&'static str>> {
    if !cb.allow_request(now) {
        return Err(CircuitBreakerError::Open);
    }
    cb.record_outcome(op(), now)
}

#[test]
fn opens_after_threshold_failures() {
    let mut cb = CircuitBreaker::new(2, 50 * MS);
    assert!(matches!(call(&mut cb, 0, fail), Err(CircuitBreakerError::Inner("boom"))));
    assert_eq!(cb.state(), State::Closed);
    assert!(matches!(call(&mut cb, MS, fail), Err(CircuitBreakerError::Inner("boom"))));
    assert_eq!(cb.state(), State::Open);
    // Now fast-rejected without invoking the op.
    assert!(matches!(call(&mut cb, 2 * MS, ok), Err(CircuitBreakerError::Open)));
}

#[test]
fn half_opens_then_closes_on_success() {
    let mut cb = CircuitBreaker::new(1, 20 * MS);
    let _ = call(&mut cb, 0, fail);
    assert_eq!(cb.state(), State::Open);
    // Trial call after the cool-down succeeds -> closed.
    assert_eq!(call(&mut cb, 30 * MS, ok).unwrap(), 1);
    assert_eq!(cb.state(), State::Closed);
}

#[test]
fn half_open_failure_reopens() {
    let mut cb = CircuitBreaker::new(1, 20 * MS);
    let _ = call(&mut cb, 0, fail);
    let _ = call(&mut cb, 30 * MS, fail); // half-open trial fails
    assert_eq!(cb.state(), State::Open);
    // The cool-down restarts at the failed trial.
    assert!(matches!(call(&mut cb, 45 * MS, ok), Err(CircuitBreakerError::Open)));
    assert_eq!(call(&mut cb, 50 * MS, ok).unwrap(), 1);
}

#[test]
fn breaker_transitions() {
    let mut cb = CircuitBreaker::new(3, 10);
    assert!(cb.allow_request(0));
    cb.on_failure(0);
    cb.on_failure(0);
    assert_eq!(cb.consecutive_failures(), 2);
    assert_eq!(cb.state(), State::Closed);
    cb.on_success();
    assert_eq!(cb.consecutive_failures(), 0);
    cb.on_failure(5);
    cb.on_failure(5);
    cb.on_failure(5);
    assert_eq!(cb.state(), State::Open);
    assert!(!cb.allow_request(14));
    assert_eq!(cb.state(), State::Open);
    // A clock reading before the opening counts as no time elapsed.
    assert!(!cb.allow_request(1));
    assert!(cb.allow_request(15));
    assert_eq!(cb.state(), State::HalfOpen);
    // Only one trial call at a time: a second request waits for the trial's outcome.
    assert!(!cb.allow_request(16));
    assert_eq!(cb.state(), State::HalfOpen);
    cb.on_failure(20);
    assert_eq!(cb.state(), State::Open);
    assert!(cb.allow_request(30));
    cb.on_success();
    assert_eq!(cb.state(), State::Closed);
    assert!(cb.allow_request(30));
    assert!(cb.allow_request(30));
    let zero = CircuitBreaker::new(0, 0);
    let mut zero = zero;
    zero.on_failure(0);
    assert_eq!(zero.state(), State::Open);
    assert!(zero.allow_request(0));
    assert!(!zero.allow_request(0));
}

/// Runs `op` under a retry counter limited to `max_attempts`, returning the result and the
/// number of attempts made.
fn run_with_retries(max_attempts: u32, mut op: impl FnMut(u32) -> Result<u32, &'static str>) -> (Result<u32, &'static str>, u32) {
    let mut state = RetryState::new(max_attempts);
    let mut calls = 0;
    loop {
        calls += 1;
        match op(calls) {
            Ok(v) => return (Ok(v), calls),
            Err(e) => match state.on_failure() {
                RetryDecision::GiveUp => return (Err(e), calls),
                RetryDecision::RetryAfterBackoff => {}
            },
        }
    }
}

#[test]
fn succeeds_after_transient_failures() {
    let (result, calls) = run_with_retries(5, |n| if n < 3 { Err("transient") } else { Ok(n) });
    assert_eq!(result, Ok(3));
    assert_eq!(calls, 3);
}

#[test]
fn gives_up_after_max_attempts() {
    let (result, calls) = run_with_retries(3, |_| Err("always"));
    assert_eq!(result, Err("always"));
    assert_eq!(calls, 3);
}

#[test]
fn a_zero_limit_still_makes_one_attempt() {
    let (result, calls) = run_with_retries(0, |_| Err("always"));
    assert_eq!(result, Err("always"));
    assert_eq!(calls, 1);
    let mut state = RetryState::new(2);
    assert_eq!(state.attempt(), 1);
    assert_eq!(state.on_failure(), RetryDecision::RetryAfterBackoff);
    assert_eq!(state.attempt(), 2);
    assert_eq!(state.on_failure(), RetryDecision::GiveUp);
    assert_eq!(state.attempt(), 2);
}
