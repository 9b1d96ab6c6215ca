//! Field locations of infrastructure cluster objects, and the paths that a diff of
//! such an object leaves alone.

use crate::types::{key_steps, read, steps, Error, Path, Result, Step, Token};
use crate::value::{Node, Value};
use vstd::prelude::*;

verus! {

pub open spec fn host_path() -> Seq<Step> {
    key_steps(seq!["spec", "controlPlaneEndpoint", "host"])
}

pub open spec fn port_path() -> Seq<Step> {
    key_steps(seq!["spec", "controlPlaneEndpoint", "port"])
}

/// The locations of the endpoint fields that hold their zero value (an empty host, a
/// zero port), in that order. Both fields must be readable.
pub open spec fn ignored_paths(doc: Node) -> core::result::Result<Seq<Seq<Step>>, Error> {
    let host = read::<String>(doc, host_path());
    let port = read::<i64>(doc, port_path());
    if host is Err {
        Err(host->Err_0)
    } else if port is Err {
        Err(port->Err_0)
    } else {
        let h = if host->Ok_0.len() == 0 {
            seq![host_path()]
        } else {
            Seq::empty()
        };
        let p = if port->Ok_0 == 0 {
            seq![port_path()]
        } else {
            Seq::empty()
        };
        Ok(h + p)
    }
}

/// An empty host beside a non-zero port leaves out the host's location alone.
pub proof fn lemma_only_empty_host_ignored(doc: Node, port: i64)
    requires
        read::<String>(doc, host_path()) == Ok::<Seq<char>, Error>(Seq::empty()),
        read::<i64>(doc, port_path()) == Ok::<i64, Error>(port),
        port != 0,
    ensures
        ignored_paths(doc) == Ok::<Seq<Seq<Step>>, Error>(seq![host_path()]),
{
    assert(seq![host_path()] + Seq::<Seq<Step>>::empty() =~= seq![host_path()]);
}

/// The model of a list of locations.
pub open spec fn locations_view(v: Seq<Vec<Token>>) -> Seq<Seq<Step>> {
    v.map_values(|t: Vec<Token>| steps(t@))
}

/// The field locations of infrastructure cluster objects.
pub struct InfrastructureClusterContract;

pub fn infrastructure_cluster() -> InfrastructureClusterContract {
    InfrastructureClusterContract
}

impl InfrastructureClusterContract {
    pub fn control_plane_endpoint(&self) -> InfrastructureClusterControlPlaneEndpoint {
        InfrastructureClusterControlPlaneEndpoint
    }
}

/// The field locations of the control plane endpoint of an infrastructure cluster object.
pub struct InfrastructureClusterControlPlaneEndpoint;

impl InfrastructureClusterControlPlaneEndpoint {
    pub fn host(&self) -> (r: Path<String>)
        ensures
            r@ == key_steps(seq!["spec", "controlPlaneEndpoint", "host"]),
    {
        Path::from_tokens(vec!["spec", "controlPlaneEndpoint", "host"])
    }

    pub fn port(&self) -> (r: Path<i64>)
        ensures
            r@ == key_steps(seq!["spec", "controlPlaneEndpoint", "port"]),
    {
        Path::from_tokens(vec!["spec", "controlPlaneEndpoint", "port"])
    }
}

impl InfrastructureClusterContract {
    pub fn ready(&self) -> (r: Path<bool>)
        ensures
            r@ == key_steps(seq!["status", "ready"]),
    {
        Path::from_tokens(vec!["status", "ready"])
    }

    /// The type of the ready condition.
    pub fn ready_condition_type(&self) -> (r: String)
        ensures
            r@ == "Ready"@,
    {
        "Ready".to_owned()
    }

    pub fn failure_reason(&self) -> (r: Path<String>)
        ensures
            r@ == key_steps(seq!["status", "failureReason"]),
    {
        Path::from_tokens(vec!["status", "failureReason"])
    }

    pub fn failure_message(&self) -> (r: Path<String>)
        ensures
            r@ == key_steps(seq!["status", "failureMessage"]),
    {
        Path::from_tokens(vec!["status", "failureMessage"])
    }

    /// The failure domains, as a node.
    pub fn failure_domains(&self) -> (r: Path<Value>)
        ensures
            r@ == key_steps(seq!["status", "failureDomains"]),
    {
        Path::from_tokens(vec!["status", "failureDomains"])
    }

    /// The locations to leave out when reconciling an infrastructure cluster object:
    /// those of the endpoint's host and port where they hold their zero value, which
    /// they take when nobody set them.
    pub fn ignore_paths(infrastructure_cl: &Value) -> (r: Result<Vec<Vec<Token>>>)
        ensures
            match r {
                Ok(v) => ignored_paths(infrastructure_cl@) == Ok::<Seq<Seq<Step>>, Error>(
                    locations_view(v@),
                ),
                Err(e) => ignored_paths(infrastructure_cl@) == Err::<Seq<Seq<Step>>, Error>(e),
            },
    {
        let endpoint = infrastructure_cluster().control_plane_endpoint();
        let mut ignore_paths: Vec<Vec<Token>> = Vec::new();
        let host = match endpoint.host().get(infrastructure_cl) {
            Ok(h) => h,
            Err(e) => {
                return Err(e);
            },
        };
        let port = match endpoint.port().get(infrastructure_cl) {
            Ok(p) => p,
            Err(e) => {
                return Err(e);
            },
        };
        if host.as_str().is_empty() {
            ignore_paths.push(endpoint.host().path());
        }
        if port == 0 {
            ignore_paths.push(endpoint.port().path());
        }
        proof {
            let h = if host@.len() == 0 {
                seq![host_path()]
            } else {
                Seq::empty()
            };
            let p = if port == 0 {
                seq![port_path()]
            } else {
                Seq::empty()
            };
            assert(locations_view(ignore_paths@) =~= h + p);
        }
        Ok(ignore_paths)
    }
}

} // verus!
