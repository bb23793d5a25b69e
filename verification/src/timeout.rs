//! The error of an operation that did not finish within its time budget.

use vstd::prelude::*;
use std::time::Duration;

verus! {

/// Returned when a guarded operation does not complete within the budget it names.
#[derive(Debug)]
pub struct TimeoutError(pub Duration);

} // verus!
