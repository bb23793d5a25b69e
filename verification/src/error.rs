//! Crate-wide error type.

use vstd::prelude::*;

verus! {

/// The JSON (de)serialisation error of `serde_json`, carried as the cause of an error.
#[verifier::external_type_specification]
#[verifier::external_body]
pub struct ExJsonError(serde_json::Error);

/// Errors surfaced across the PayStream pipeline.
#[derive(Debug)]
pub enum PayStreamError {
    /// A payment event could not be deserialised.
    Deserialize(serde_json::Error),
    /// An enriched event could not be serialised.
    Serialize(serde_json::Error),
    /// The message broker reported an error.
    Kafka(String),
    /// A configuration value could not be parsed.
    Config(String),
    /// The pipeline could not complete an operation.
    Pipeline(String),
}

/// Convenient result alias.
pub type Result<T> = core::result::Result<T, PayStreamError>;

} // verus!
