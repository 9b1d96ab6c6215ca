//! Field locations of control plane template objects.

use crate::metadata::Metadata;
use crate::types::{key_steps, Path};
use crate::value::Value;
use vstd::prelude::*;

verus! {

/// The field locations of control plane template objects.
pub struct ControlPlaneTemplateContract;

pub fn control_plane_template() -> ControlPlaneTemplateContract {
    ControlPlaneTemplateContract
}

impl ControlPlaneTemplateContract {
    /// The reference to the infrastructure machine template, as a node.
    pub fn infrastructure_machine_template(&self) -> (r: Path<Value>)
        ensures
            r@ == key_steps(seq!["spec", "template", "spec", "machineTemplate", "infrastructureRef"]),
    {
        Path::from_tokens(vec!["spec", "template", "spec", "machineTemplate", "infrastructureRef"])
    }

    pub fn template(&self) -> ControlPlaneTemplateTemplate {
        ControlPlaneTemplateTemplate
    }
}

/// The field locations of the template in a control plane template object.
pub struct ControlPlaneTemplateTemplate;

impl ControlPlaneTemplateTemplate {
    /// The metadata of the template.
    pub fn metadata(&self) -> (r: Metadata)
        ensures
            r.path@ == key_steps(seq!["spec", "template", "metadata"]),
    {
        Metadata::new(Path::from_tokens(vec!["spec", "template", "metadata"]))
    }

    pub fn machine_template(&self) -> ControlPlaneTemplateMachineTemplate {
        ControlPlaneTemplateMachineTemplate
    }
}

/// The field locations of the machine template of a control plane template object.
pub struct ControlPlaneTemplateMachineTemplate;

impl ControlPlaneTemplateMachineTemplate {
    /// The metadata of the machine template.
    pub fn metadata(&self) -> (r: Metadata)
        ensures
            r.path@ == key_steps(seq!["spec", "template", "spec", "machineTemplate", "metadata"]),
    {
        Metadata::new(Path::from_tokens(vec!["spec", "template", "spec", "machineTemplate", "metadata"]))
    }

    /// The node drain timeout, as a duration string node.
    pub fn node_drain_timeout(&self) -> (r: Path<Value>)
        ensures
            r@ == key_steps(seq!["spec", "template", "spec", "machineTemplate", "nodeDrainTimeout"]),
    {
        Path::from_tokens(vec!["spec", "template", "spec", "machineTemplate", "nodeDrainTimeout"])
    }

    /// The node volume detach timeout, as a duration string node.
    pub fn node_volume_detach_timeout(&self) -> (r: Path<Value>)
        ensures
            r@ == key_steps(seq!["spec", "template", "spec", "machineTemplate", "nodeVolumeDetachTimeout"]),
    {
        Path::from_tokens(vec!["spec", "template", "spec", "machineTemplate", "nodeVolumeDetachTimeout"])
    }

    /// The node deletion timeout, as a duration string node.
    pub fn node_deletion_timeout(&self) -> (r: Path<Value>)
        ensures
            r@ == key_steps(seq!["spec", "template", "spec", "machineTemplate", "nodeDeletionTimeout"]),
    {
        Path::from_tokens(vec!["spec", "template", "spec", "machineTemplate", "nodeDeletionTimeout"])
    }
}

} // verus!
