//! Field locations of bootstrap config template objects.

use crate::metadata::Metadata;
use crate::types::{key_steps, Path};
use vstd::prelude::*;

verus! {

/// The field locations of bootstrap config template objects.
pub struct BootstrapConfigTemplateContract;

pub fn bootstrap_config_template() -> BootstrapConfigTemplateContract {
    BootstrapConfigTemplateContract
}

impl BootstrapConfigTemplateContract {
    pub fn template(&self) -> BootstrapConfigTemplateTemplate {
        BootstrapConfigTemplateTemplate
    }
}

/// The field locations of the template in a bootstrap config template object.
pub struct BootstrapConfigTemplateTemplate;

impl BootstrapConfigTemplateTemplate {
    /// The metadata of the template.
    pub fn metadata(&self) -> (r: Metadata)
        ensures
            r.path@ == key_steps(seq!["spec", "template", "metadata"]),
    {
        Metadata::new(Path::from_tokens(vec!["spec", "template", "metadata"]))
    }
}

} // verus!
