//! Field locations of bootstrap objects.

use crate::types::{key_steps, Path};
use vstd::prelude::*;

verus! {

/// The field locations of bootstrap objects.
pub struct BootstrapContract;

pub fn bootstrap() -> BootstrapContract {
    BootstrapContract
}

impl BootstrapContract {
    pub fn ready(&self) -> (r: Path<bool>)
        ensures
            r@ == key_steps(seq!["status", "ready"]),
    {
        Path::from_tokens(vec!["status", "ready"])
    }

    /// The type of the ready condition.
    pub fn ready_condition_type(&self) -> (r: String)
        ensures
            r@ == "Ready"@,
    {
        "Ready".to_owned()
    }

    pub fn data_secret_name(&self) -> (r: Path<String>)
        ensures
            r@ == key_steps(seq!["status", "dataSecretName"]),
    {
        Path::from_tokens(vec!["status", "dataSecretName"])
    }

    pub fn failure_reason(&self) -> (r: Path<String>)
        ensures
            r@ == key_steps(seq!["status", "failureReason"]),
    {
        Path::from_tokens(vec!["status", "failureReason"])
    }

    pub fn failure_message(&self) -> (r: Path<String>)
        ensures
            r@ == key_steps(seq!["status", "failureMessage"]),
    {
        Path::from_tokens(vec!["status", "failureMessage"])
    }
}

} // verus!
