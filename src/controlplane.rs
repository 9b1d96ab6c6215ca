//! Field locations of control plane objects, and the lifecycle facts derived from them.

use crate::metadata::{Metadata, ObjectMeta};
use crate::types::{key_steps, read, resolve, Error, Path, Paths, Result, Step};
use crate::value::{Node, Value};
use crate::version::{newer, Version};
use vstd::prelude::*;

verus! {

pub open spec fn version_path() -> Seq<Step> {
    key_steps(seq!["spec", "version"])
}

pub open spec fn status_version_path() -> Seq<Step> {
    key_steps(seq!["status", "version"])
}

pub open spec fn replicas_path() -> Seq<Step> {
    key_steps(seq!["spec", "replicas"])
}

pub open spec fn status_replicas_path() -> Seq<Step> {
    key_steps(seq!["status", "replicas"])
}

pub open spec fn updated_replicas_path() -> Seq<Step> {
    key_steps(seq!["status", "updatedReplicas"])
}

pub open spec fn ready_replicas_path() -> Seq<Step> {
    key_steps(seq!["status", "readyReplicas"])
}

pub open spec fn unavailable_replicas_path() -> Seq<Step> {
    key_steps(seq!["status", "unavailableReplicas"])
}

/// Whether the control plane is being created for the first time: no readable
/// observed version.
pub open spec fn provisioning(doc: Node) -> core::result::Result<bool, Error> {
    Ok(read::<Version>(doc, status_version_path()) is Err)
}

/// Whether the control plane is upgrading: the desired version, which must be readable,
/// is newer than the observed one; not upgrading where no observed version is present.
pub open spec fn upgrading(doc: Node) -> core::result::Result<bool, Error> {
    match read::<Version>(doc, version_path()) {
        Err(e) => Err(e),
        Ok(desired) => match read::<Version>(doc, status_version_path()) {
            Ok(observed) => Ok(newer(desired, observed)),
            Err(Error::NotFound) => Ok(false),
            Err(e) => Err(e),
        },
    }
}

/// Whether the control plane is scaling. The desired count must be readable; an absent
/// observed, updated or ready count means scaling; an absent unavailable count counts
/// as zero.
pub open spec fn scaling(doc: Node) -> core::result::Result<bool, Error> {
    let desired = read::<i64>(doc, replicas_path());
    let observed = read::<i64>(doc, status_replicas_path());
    let updated = read::<i64>(doc, updated_replicas_path());
    let ready = read::<i64>(doc, ready_replicas_path());
    let unavailable = read::<i64>(doc, unavailable_replicas_path());
    if desired is Err {
        Err(desired->Err_0)
    } else if observed == Err::<i64, Error>(Error::NotFound) {
        Ok(true)
    } else if observed is Err {
        Err(observed->Err_0)
    } else if updated == Err::<i64, Error>(Error::NotFound) {
        Ok(true)
    } else if updated is Err {
        Err(updated->Err_0)
    } else if ready == Err::<i64, Error>(Error::NotFound) {
        Ok(true)
    } else if ready is Err {
        Err(ready->Err_0)
    } else if unavailable is Err && unavailable != Err::<i64, Error>(Error::NotFound) {
        Err(unavailable->Err_0)
    } else {
        let d = desired->Ok_0;
        let u = if unavailable is Ok {
            unavailable->Ok_0
        } else {
            0
        };
        Ok(observed->Ok_0 != d || updated->Ok_0 != d || ready->Ok_0 != d || u > 0)
    }
}

/// The field locations of control plane objects.
pub struct ControlPlaneContract;

pub fn control_plane() -> ControlPlaneContract {
    ControlPlaneContract
}

impl ControlPlaneContract {
    pub fn machine_template(&self) -> ControlPlaneMachineTemplate {
        ControlPlaneMachineTemplate
    }

    pub fn version(&self) -> (r: Path<Version>)
        ensures
            r@ == version_path(),
    {
        Path::from_tokens(vec!["spec", "version"])
    }

    pub fn status_version(&self) -> (r: Path<Version>)
        ensures
            r@ == status_version_path(),
    {
        Path::from_tokens(vec!["status", "version"])
    }

    pub fn replicas(&self) -> (r: Path<i64>)
        ensures
            r@ == replicas_path(),
    {
        Path::from_tokens(vec!["spec", "replicas"])
    }

    pub fn status_replicas(&self) -> (r: Path<i64>)
        ensures
            r@ == status_replicas_path(),
    {
        Path::from_tokens(vec!["status", "replicas"])
    }

    pub fn updated_replicas(&self) -> (r: Path<i64>)
        ensures
            r@ == updated_replicas_path(),
    {
        Path::from_tokens(vec!["status", "updatedReplicas"])
    }

    pub fn ready_replicas(&self) -> (r: Path<i64>)
        ensures
            r@ == ready_replicas_path(),
    {
        Path::from_tokens(vec!["status", "readyReplicas"])
    }

    pub fn unavailable_replicas(&self) -> (r: Path<i64>)
        ensures
            r@ == unavailable_replicas_path(),
    {
        Path::from_tokens(vec!["status", "unavailableReplicas"])
    }

    pub fn ready(&self) -> (r: Path<bool>)
        ensures
            r@ == key_steps(seq!["status", "ready"]),
    {
        Path::from_tokens(vec!["status", "ready"])
    }

    pub fn initialized(&self) -> (r: Path<bool>)
        ensures
            r@ == key_steps(seq!["status", "initialized"]),
    {
        Path::from_tokens(vec!["status", "initialized"])
    }

    pub fn v1_beta2_ready_replicas(&self) -> (r: Paths<i32>)
        ensures
            r@ == seq![key_steps(seq!["status", "v1beta2", "readyReplicas"]), key_steps(seq!["status", "readyReplicas"])],
    {
        two_paths(Path::from_tokens(vec!["status", "v1beta2", "readyReplicas"]), Path::from_tokens(vec!["status", "readyReplicas"]))
    }

    pub fn v1_beta2_available_replicas(&self) -> (r: Paths<i32>)
        ensures
            r@ == seq![key_steps(seq!["status", "v1beta2", "availableReplicas"]), key_steps(seq!["status", "availableReplicas"])],
    {
        two_paths(Path::from_tokens(vec!["status", "v1beta2", "availableReplicas"]), Path::from_tokens(vec!["status", "availableReplicas"]))
    }

    pub fn v1_beta2_up_to_date_replicas(&self) -> (r: Paths<i32>)
        ensures
            r@ == seq![key_steps(seq!["status", "v1beta2", "upToDateReplicas"]), key_steps(seq!["status", "upToDateReplicas"])],
    {
        two_paths(Path::from_tokens(vec!["status", "v1beta2", "upToDateReplicas"]), Path::from_tokens(vec!["status", "upToDateReplicas"]))
    }

    /// The type of the available condition.
    pub fn available_condition_type(&self) -> (r: String)
        ensures
            r@ == "Available"@,
    {
        "Available".to_owned()
    }

    pub fn selector(&self) -> (r: Path<String>)
        ensures
            r@ == key_steps(seq!["status", "selector"]),
    {
        Path::from_tokens(vec!["status", "selector"])
    }

    pub fn failure_reason(&self) -> (r: Path<String>)
        ensures
            r@ == key_steps(seq!["status", "failureReason"]),
    {
        Path::from_tokens(vec!["status", "failureReason"])
    }

    pub fn failure_message(&self) -> (r: Path<String>)
        ensures
            r@ == key_steps(seq!["status", "failureMessage"]),
    {
        Path::from_tokens(vec!["status", "failureMessage"])
    }

    pub fn external_managed_control_plane(&self) -> (r: Path<bool>)
        ensures
            r@ == key_steps(seq!["status", "externalManagedControlPlane"]),
    {
        Path::from_tokens(vec!["status", "externalManagedControlPlane"])
    }

    /// Whether the control plane is being created for the first time.
    pub fn is_provisioning(&self, obj: &Value) -> (r: Result<bool>)
        ensures
            r == provisioning(obj@),
    {
        match self.status_version().get(obj) {
            Ok(_) => Ok(false),
            Err(Error::DecodeError) => Ok(true),
            Err(Error::NotFound) => Ok(true),
            Err(e) => Err(e),
        }
    }

    /// Whether the control plane is in the middle of an upgrade.
    pub fn is_upgrading(&self, obj: &Value) -> (r: Result<bool>)
        ensures
            r == upgrading(obj@),
    {
        let spec_version = match self.version().get(obj) {
            Ok(v) => v,
            Err(e) => {
                return Err(e);
            },
        };
        match self.status_version().get(obj) {
            Ok(version) => Ok(spec_version.is_newer_than(&version)),
            Err(Error::NotFound) => Ok(false),
            Err(e) => Err(e),
        }
    }

    /// Whether the control plane is in the middle of a scale operation.
    pub fn is_scaling(&self, obj: &Value) -> (r: Result<bool>)
        ensures
            r == scaling(obj@),
    {
        let desired_replicas = match self.replicas().get(obj) {
            Ok(n) => n,
            Err(e) => {
                return Err(e);
            },
        };
        let status_replicas = match self.status_replicas().get(obj) {
            Ok(n) => n,
            Err(Error::NotFound) => {
                return Ok(true);
            },
            Err(e) => {
                return Err(e);
            },
        };
        let updated_replicas = match self.updated_replicas().get(obj) {
            Ok(n) => n,
            Err(Error::NotFound) => {
                return Ok(true);
            },
            Err(e) => {
                return Err(e);
            },
        };
        let ready_replicas = match self.ready_replicas().get(obj) {
            Ok(n) => n,
            Err(Error::NotFound) => {
                return Ok(true);
            },
            Err(e) => {
                return Err(e);
            },
        };
        // Where the unavailable count is absent it is zero: a zero count is omitted
        // when the object is stored.
        let unavailable_replicas = match self.unavailable_replicas().get(obj) {
            Ok(n) => n,
            Err(Error::NotFound) => 0,
            Err(e) => {
                return Err(e);
            },
        };
        Ok(status_replicas != desired_replicas || updated_replicas != desired_replicas
            || ready_replicas != desired_replicas || unavailable_replicas > 0)
    }
}

/// The field locations of the machine template of a control plane object.
pub struct ControlPlaneMachineTemplate;

impl ControlPlaneMachineTemplate {
    /// The reference to the infrastructure machine template, as a node.
    pub fn infrastructure_ref(&self) -> (r: Path<Value>)
        ensures
            r@ == key_steps(seq!["spec", "machineTemplate", "infrastructureRef"]),
    {
        Path::from_tokens(vec!["spec", "machineTemplate", "infrastructureRef"])
    }

    pub fn metadata(&self) -> (r: Metadata)
        ensures
            r.path@ == key_steps(seq!["spec", "machineTemplate", "metadata"]),
    {
        Metadata::new(Path::from_tokens(vec!["spec", "machineTemplate", "metadata"]))
    }

    /// The node drain timeout, as a duration string node.
    pub fn node_drain_timeout(&self) -> (r: Path<Value>)
        ensures
            r@ == key_steps(seq!["spec", "machineTemplate", "nodeDrainTimeout"]),
    {
        Path::from_tokens(vec!["spec", "machineTemplate", "nodeDrainTimeout"])
    }

    /// The node volume detach timeout, as a duration string node.
    pub fn node_volume_detach_timeout(&self) -> (r: Path<Value>)
        ensures
            r@ == key_steps(seq!["spec", "machineTemplate", "nodeVolumeDetachTimeout"]),
    {
        Path::from_tokens(vec!["spec", "machineTemplate", "nodeVolumeDetachTimeout"])
    }

    /// The node deletion timeout, as a duration string node.
    pub fn node_deletion_timeout(&self) -> (r: Path<Value>)
        ensures
            r@ == key_steps(seq!["spec", "machineTemplate", "nodeDeletionTimeout"]),
    {
        Path::from_tokens(vec!["spec", "machineTemplate", "nodeDeletionTimeout"])
    }
}

/// A document without an observed version is being provisioned.
pub proof fn lemma_provisioning_without_observed_version(doc: Node)
    requires
        resolve(doc, status_version_path()) is None,
    ensures
        provisioning(doc) == Ok::<bool, Error>(true),
{
}

/// A document with a readable observed version is not being provisioned.
pub proof fn lemma_not_provisioning_with_observed_version(doc: Node)
    requires
        read::<Version>(doc, status_version_path()) is Ok,
    ensures
        provisioning(doc) == Ok::<bool, Error>(false),
{
}

/// With a readable desired version and no observed version, no upgrade is in progress.
pub proof fn lemma_not_upgrading_without_observed_version(doc: Node)
    requires
        read::<Version>(doc, version_path()) is Ok,
        resolve(doc, status_version_path()) is None,
    ensures
        upgrading(doc) == Ok::<bool, Error>(false),
{
}

/// Where the counts are all read and agree, scaling is decided by the unavailable count
/// alone, an absent one meaning zero.
pub proof fn lemma_scaling_with_agreeing_counts(doc: Node, d: i64)
    requires
        read::<i64>(doc, replicas_path()) == Ok::<i64, Error>(d),
        read::<i64>(doc, status_replicas_path()) == Ok::<i64, Error>(d),
        read::<i64>(doc, updated_replicas_path()) == Ok::<i64, Error>(d),
        read::<i64>(doc, ready_replicas_path()) == Ok::<i64, Error>(d),
    ensures
        read::<i64>(doc, unavailable_replicas_path()) == Err::<i64, Error>(Error::NotFound)
            ==> scaling(doc) == Ok::<bool, Error>(false),
        read::<i64>(doc, unavailable_replicas_path()) matches Ok(u) ==> scaling(doc) == Ok::<
            bool,
            Error,
        >(u > 0),
{
}

/// An absent updated count means scaling, whatever the other counts hold, once the
/// desired count is read and the observed count is read or absent.
pub proof fn lemma_scaling_without_updated_count(doc: Node)
    requires
        read::<i64>(doc, replicas_path()) is Ok,
        read::<i64>(doc, status_replicas_path()) is Ok || read::<i64>(doc, status_replicas_path())
            == Err::<i64, Error>(Error::NotFound),
        resolve(doc, updated_replicas_path()) is None,
    ensures
        scaling(doc) == Ok::<bool, Error>(true),
{
}

/// Candidate locations `a`, then `b`.
fn two_paths<R>(a: Path<R>, b: Path<R>) -> (r: Paths<R>)
    ensures
        r@ == seq![a@, b@],
{
    let r = Paths::new(vec![a, b]);
    assert(r@ =~= seq![a@, b@]);
    r
}

} // verus!
