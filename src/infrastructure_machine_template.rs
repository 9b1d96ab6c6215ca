//! Field locations of infrastructure machine template objects.

use crate::metadata::Metadata;
use crate::types::{key_steps, Path};
use vstd::prelude::*;

verus! {

/// The field locations of infrastructure machine template objects.
pub struct InfrastructureMachineTemplateContract;

pub fn infrastructure_machine_template() -> InfrastructureMachineTemplateContract {
    InfrastructureMachineTemplateContract
}

/// The template of an infrastructure machine template object.
pub fn template() -> InfrastructureMachineTemplateTemplate {
    InfrastructureMachineTemplateTemplate
}

/// The field locations of the template in an infrastructure machine template object.
pub struct InfrastructureMachineTemplateTemplate;

impl InfrastructureMachineTemplateTemplate {
    /// The metadata of the template.
    pub fn metadata(&self) -> (r: Metadata)
        ensures
            r.path@ == key_steps(seq!["spec", "template", "metadata"]),
    {
        Metadata::new(Path::from_tokens(vec!["spec", "template", "metadata"]))
    }
}

} // verus!
