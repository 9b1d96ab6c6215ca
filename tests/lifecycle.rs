use capi_contract::bootstrap::bootstrap;
use capi_contract::controlplane::control_plane;
use capi_contract::infrastructure_cluster::{infrastructure_cluster, InfrastructureClusterContract};
use capi_contract::infrastructure_machine::infrastructure_machine;
use capi_contract::types::{Error, Token};
use capi_contract::value::Value;
use capi_contract::version::Version;

fn obj(entries: Vec<(&str, Value)>) -> Value {
    Value::Object(entries.into_iter().map(|(k, v)| (k.to_string(), v)).collect())
}

fn text(s: &str) -> Value {
    Value::Text(s.to_string())
}

fn versions(desired: Option<&str>, observed: Option<&str>) -> Value {
    let mut top = Vec::new();
    if let Some(d) = desired {
        top.push(("spec", obj(vec![("version", text(d))])));
    }
    if let Some(o) = observed {
        top.push(("status", obj(vec![("version", text(o))])));
    }
    obj(top)
}

#[test]
fn provisioning_without_observed_version() {
    let cp = control_plane();
    assert_eq!(cp.is_provisioning(&versions(Some("1.2.3"), None)), Ok(true));
    assert_eq!(cp.is_provisioning(&obj(vec![])), Ok(true));
}

#[test]
fn not_provisioning_with_observed_version() {
    assert_eq!(control_plane().is_provisioning(&versions(None, Some("1.2.3"))), Ok(false));
}

#[test]
fn provisioning_with_empty_observed_version() {
    assert_eq!(control_plane().is_provisioning(&versions(None, Some(""))), Ok(true));
}

#[test]
fn upgrading_when_desired_is_newer() {
    assert_eq!(control_plane().is_upgrading(&versions(Some("1.3.0"), Some("1.2.3"))), Ok(true));
}

#[test]
fn not_upgrading_when_versions_match() {
    assert_eq!(control_plane().is_upgrading(&versions(Some("1.2.3"), Some("1.2.3"))), Ok(false));
}

#[test]
fn not_upgrading_without_observed_version() {
    assert_eq!(control_plane().is_upgrading(&versions(Some("1.3.0"), None)), Ok(false));
}

#[test]
fn not_upgrading_when_desired_is_older() {
    assert_eq!(control_plane().is_upgrading(&versions(Some("1.2.3"), Some("1.10.0"))), Ok(false));
}

#[test]
fn upgrading_from_a_prerelease() {
    assert_eq!(control_plane().is_upgrading(&versions(Some("1.3.0"), Some("1.3.0-rc.1"))), Ok(true));
}

#[test]
fn upgrading_needs_desired_version() {
    let cp = control_plane();
    assert_eq!(cp.is_upgrading(&versions(None, Some("1.2.3"))), Err(Error::NotFound));
    assert_eq!(cp.is_upgrading(&versions(Some("latest"), Some("1.2.3"))), Err(Error::DecodeError));
}

#[test]
fn upgrading_with_malformed_observed_version() {
    assert_eq!(control_plane().is_upgrading(&versions(Some("1.3.0"), Some("x"))), Err(Error::DecodeError));
}

fn counts(desired: Option<i64>, status: Vec<(&str, Value)>) -> Value {
    let mut top = Vec::new();
    if let Some(d) = desired {
        top.push(("spec", obj(vec![("replicas", Value::Int(d))])));
    }
    top.push(("status", obj(status)));
    obj(top)
}

#[test]
fn stable_when_all_counts_agree() {
    let doc = counts(
        Some(3),
        vec![("replicas", Value::Int(3)), ("updatedReplicas", Value::Int(3)), ("readyReplicas", Value::Int(3))],
    );
    assert_eq!(control_plane().is_scaling(&doc), Ok(false));
}

#[test]
fn scaling_with_unavailable_replicas() {
    let doc = counts(
        Some(3),
        vec![
            ("replicas", Value::Int(3)),
            ("updatedReplicas", Value::Int(3)),
            ("readyReplicas", Value::Int(3)),
            ("unavailableReplicas", Value::Int(1)),
        ],
    );
    assert_eq!(control_plane().is_scaling(&doc), Ok(true));
}

#[test]
fn scaling_without_updated_count() {
    let doc = counts(Some(3), vec![("replicas", Value::Int(3)), ("readyReplicas", Value::Int(3))]);
    assert_eq!(control_plane().is_scaling(&doc), Ok(true));
    let doc = counts(Some(3), vec![("replicas", Value::Int(1)), ("readyReplicas", Value::Int(0))]);
    assert_eq!(control_plane().is_scaling(&doc), Ok(true));
}

#[test]
fn scaling_without_status() {
    assert_eq!(control_plane().is_scaling(&counts(Some(3), vec![])), Ok(true));
}

#[test]
fn scaling_when_ready_count_differs() {
    let doc = counts(
        Some(3),
        vec![("replicas", Value::Int(3)), ("updatedReplicas", Value::Int(3)), ("readyReplicas", Value::Int(2))],
    );
    assert_eq!(control_plane().is_scaling(&doc), Ok(true));
}

#[test]
fn scaling_needs_desired_count() {
    let doc = counts(
        None,
        vec![("replicas", Value::Int(3)), ("updatedReplicas", Value::Int(3)), ("readyReplicas", Value::Int(3))],
    );
    assert_eq!(control_plane().is_scaling(&doc), Err(Error::NotFound));
}

#[test]
fn scaling_with_malformed_unavailable_count() {
    let doc = counts(
        Some(3),
        vec![
            ("replicas", Value::Int(3)),
            ("updatedReplicas", Value::Int(3)),
            ("readyReplicas", Value::Int(3)),
            ("unavailableReplicas", text("one")),
        ],
    );
    assert_eq!(control_plane().is_scaling(&doc), Err(Error::DecodeError));
}

fn endpoint(host: &str, port: i64) -> Value {
    obj(vec![(
        "spec",
        obj(vec![("controlPlaneEndpoint", obj(vec![("host", text(host)), ("port", Value::Int(port))]))]),
    )])
}

fn key_path(keys: &[&str]) -> Vec<Token> {
    keys.iter().map(|k| Token::Key(k.to_string())).collect()
}

#[test]
fn ignore_paths_empty_host_only() {
    let r = InfrastructureClusterContract::ignore_paths(&endpoint("", 6443)).unwrap();
    assert_eq!(r, vec![key_path(&["spec", "controlPlaneEndpoint", "host"])]);
}

#[test]
fn ignore_paths_both_zero() {
    let r = InfrastructureClusterContract::ignore_paths(&endpoint("", 0)).unwrap();
    assert_eq!(
        r,
        vec![
            key_path(&["spec", "controlPlaneEndpoint", "host"]),
            key_path(&["spec", "controlPlaneEndpoint", "port"]),
        ]
    );
}

#[test]
fn ignore_paths_nothing_when_set() {
    let r = InfrastructureClusterContract::ignore_paths(&endpoint("10.0.0.1", 6443)).unwrap();
    assert!(r.is_empty());
}

#[test]
fn ignore_paths_needs_endpoint_fields() {
    let doc = obj(vec![("spec", obj(vec![("controlPlaneEndpoint", obj(vec![("port", Value::Int(0))]))]))]);
    assert_eq!(InfrastructureClusterContract::ignore_paths(&doc), Err(Error::NotFound));
}

#[test]
fn endpoint_locations() {
    let e = infrastructure_cluster().control_plane_endpoint();
    assert_eq!(e.host().to_string(), "/spec/controlPlaneEndpoint/host");
    assert_eq!(e.port().to_string(), "/spec/controlPlaneEndpoint/port");
}

#[test]
fn condition_types() {
    assert_eq!(bootstrap().ready_condition_type(), "Ready");
    assert_eq!(infrastructure_machine().ready_condition_type(), "Ready");
    assert_eq!(infrastructure_cluster().ready_condition_type(), "Ready");
    assert_eq!(control_plane().available_condition_type(), "Available");
}

#[test]
fn version_parts() {
    let v = Version::parse("1.3.0-rc.1+build.5").unwrap();
    assert_eq!((v.major, v.minor, v.patch), (1, 3, 0));
    assert_eq!(v.pre, "rc.1");
    assert_eq!(v.build, "build.5");
    assert_eq!(v.text, "1.3.0-rc.1+build.5");
    assert!(Version::parse("").is_none());
    assert!(Version::parse("v1.2.3").is_none());
}

#[test]
fn version_order() {
    let a = Version::parse("1.3.0").unwrap();
    let b = Version::parse("1.2.3").unwrap();
    let rc = Version::parse("1.3.0-alpha").unwrap();
    assert!(a.is_newer_than(&b));
    assert!(!b.is_newer_than(&a));
    assert!(a.is_newer_than(&rc));
    assert!(!a.is_newer_than(&a));
}
