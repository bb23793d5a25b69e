//! The decisions of the streaming pipeline (source → enrich → aggregate → sink). The caller
//! fetches batches, enriches and aggregates each event (see [`crate::enrich`] and
//! [`crate::Aggregator`]), publishes and waits; these functions turn each guarded publish into its
//! result, count a batch's successes and choose the next step.

use vstd::prelude::*;
use crate::circuit_breaker::CircuitBreakerError;
use crate::error::{PayStreamError, Result};
use crate::timeout::TimeoutError;

verus! {

/// Number of `true` entries.
pub open spec fn count_true(s: Seq<bool>) -> nat
    decreases s.len(),
{
    if s.len() == 0 {
        0
    } else {
        count_true(s.drop_last()) + if s.last() {
            1nat
        } else {
            0nat
        }
    }
}

/// What the pipeline does after a batch.
#[derive(Debug, Clone, Copy, PartialEq, Eq, Structural)]
pub enum RunStep {
    /// Wait the idle backoff before fetching again.
    IdleBackoff,
    /// Fetch the next batch at once.
    Continue,
}

/// Number of successful publishes of a batch.
pub fn count_successes(outcomes: &Vec<bool>) -> (n: usize)
    ensures
        n == count_true(outcomes@),
{
    let mut n: usize = 0;
    let mut i: usize = 0;
    while i < outcomes.len()
        invariant
            i <= outcomes.len(),
            n == count_true(outcomes@.take(i as int)),
            n <= i,
        decreases outcomes.len() - i,
    {
        assert(outcomes@.take(i + 1).drop_last() =~= outcomes@.take(i as int));
        if outcomes[i] {
            n = n + 1;
        }
        i = i + 1;
    }
    assert(outcomes@.take(outcomes.len() as int) =~= outcomes@);
    n
}

/// The result of one publish run under a time budget: the sink's own result when it finished,
/// otherwise a pipeline error saying that it timed out.
pub fn timed_publish_result(outcome: core::result::Result<Result<()>, TimeoutError>) -> (r: Result<()>)
    ensures
        match outcome {
            Ok(res) => r == res,
            Err(_) => r matches Err(PayStreamError::Pipeline(msg)) && msg@ == "publish timed out"@,
        },
{
    match outcome {
        Ok(publish_result) => publish_result,
        Err(_timed_out) => Err(PayStreamError::Pipeline(String::from_str("publish timed out"))),
    }
}

/// The result of one publish guarded by the circuit breaker: success, a pipeline error saying
/// that the breaker is open when it refused the call, or the publish's own error.
pub fn guarded_publish_result(outcome: core::result::Result<(), CircuitBreakerError<PayStreamError>>) -> (r: Result<()>)
    ensures
        match outcome {
            Ok(()) => r is Ok,
            Err(CircuitBreakerError::Open) => r matches Err(PayStreamError::Pipeline(msg)) && msg@
                == "circuit breaker open"@,
            Err(CircuitBreakerError::Inner(e)) => r == Err::<(), PayStreamError>(e),
        },
{
    match outcome {
        Ok(()) => Ok(()),
        Err(CircuitBreakerError::Open) => Err(
            PayStreamError::Pipeline(String::from_str("circuit breaker open")),
        ),
        Err(CircuitBreakerError::Inner(err)) => Err(err),
    }
}

/// What to do after a batch: back off when the source was empty or the batch failed, otherwise
/// continue at once.
pub fn step_after_batch(result: &Result<usize>) -> (step: RunStep)
    ensures
        step == (match result {
            Ok(n) => if *n == 0 {
                RunStep::IdleBackoff
            } else {
                RunStep::Continue
            },
            Err(_) => RunStep::IdleBackoff,
        }),
{
    match result {
        Ok(0) => RunStep::IdleBackoff,
        Ok(_) => RunStep::Continue,
        Err(_) => RunStep::IdleBackoff,
    }
}

} // verus!
