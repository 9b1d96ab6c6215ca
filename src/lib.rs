//! Typed, fallible access to fields of loosely-typed cluster-resource documents,
//! and the lifecycle facts derived from them.

pub mod bootstrap;
pub mod bootstrap_config_template;
pub mod controlplane;
pub mod controlplane_template;
pub mod field;
pub mod infrastructure_cluster;
pub mod infrastructure_cluster_template;
pub mod infrastructure_machine;
pub mod infrastructure_machine_template;
pub mod metadata;
pub mod types;
pub mod value;
pub mod version;
