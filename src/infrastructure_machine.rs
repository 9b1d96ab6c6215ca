//! Field locations of infrastructure machine objects.

use crate::types::{key_steps, Path};
use crate::value::Value;
use vstd::prelude::*;

verus! {

/// The field locations of infrastructure machine objects.
pub struct InfrastructureMachineContract;

pub fn infrastructure_machine() -> InfrastructureMachineContract {
    InfrastructureMachineContract
}

impl InfrastructureMachineContract {
    pub fn ready(&self) -> (r: Path<bool>)
        ensures
            r@ == key_steps(seq!["status", "ready"]),
    {
        Path::from_tokens(vec!["status", "ready"])
    }

    /// The type of the ready condition.
    pub fn ready_condition_type(&self) -> (r: String)
        ensures
            r@ == "Ready"@,
    {
        "Ready".to_owned()
    }

    pub fn failure_reason(&self) -> (r: Path<String>)
        ensures
            r@ == key_steps(seq!["status", "failureReason"]),
    {
        Path::from_tokens(vec!["status", "failureReason"])
    }

    pub fn failure_message(&self) -> (r: Path<String>)
        ensures
            r@ == key_steps(seq!["status", "failureMessage"]),
    {
        Path::from_tokens(vec!["status", "failureMessage"])
    }

    /// The machine addresses, as a node.
    pub fn addresses(&self) -> (r: Path<Value>)
        ensures
            r@ == key_steps(seq!["status", "addresses"]),
    {
        Path::from_tokens(vec!["status", "addresses"])
    }

    pub fn provider_id(&self) -> (r: Path<String>)
        ensures
            r@ == key_steps(seq!["spec", "providerID"]),
    {
        Path::from_tokens(vec!["spec", "providerID"])
    }

    pub fn failure_domain(&self) -> (r: Path<String>)
        ensures
            r@ == key_steps(seq!["spec", "failureDomain"]),
    {
        Path::from_tokens(vec!["spec", "failureDomain"])
    }
}

} // verus!
