//! Field locations of infrastructure cluster template objects.

use crate::metadata::Metadata;
use crate::types::{key_steps, Path};
use vstd::prelude::*;

verus! {

/// The field locations of infrastructure cluster template objects.
pub struct InfrastructureClusterTemplateContract;

pub fn infrastructure_cluster_template() -> InfrastructureClusterTemplateContract {
    InfrastructureClusterTemplateContract
}

impl InfrastructureClusterTemplateContract {
    pub fn template(&self) -> InfrastructureClusterTemplateTemplate {
        InfrastructureClusterTemplateTemplate
    }
}

/// The field locations of the template in an infrastructure cluster template object.
pub struct InfrastructureClusterTemplateTemplate;

impl InfrastructureClusterTemplateTemplate {
    /// The metadata of the template.
    pub fn metadata(&self) -> (r: Metadata)
        ensures
            r.path@ == key_steps(seq!["spec", "template", "metadata"]),
    {
        Metadata::new(Path::from_tokens(vec!["spec", "template", "metadata"]))
    }
}

} // verus!
