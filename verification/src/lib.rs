//! Synthesis of cluster manifests and routing configuration for a
//! multi-service application that runs partly inside a local cluster and
//! partly as plain processes on the developer's machine.
//!
//! The library decides and computes; it never touches the machine. A manifest
//! is assembled as a document ([`value`]), written as YAML ([`yaml`]) and
//! handed back as text; a program to run is handed back as a description of
//! the call ([`process`]). The caller reads the files, runs the programs and
//! reports what happened.
//!
//! - [`k8s`]: the routing object and the objects of a service, per mode.
//! - [`tagger`]: the ownership label on manifests that the user supplies.
//! - [`hosts`]: the record for the application's hostname.
//! - [`orchestrator`]: the steps of bringing the application up, and the
//!   teardown.
//! - [`dev`], [`docker`], [`minikube`]: the calls of the programs involved.
//! - [`models`], [`text`]: the definition of an application, and text helpers.

pub mod dev;
pub mod docker;
pub mod hosts;
pub mod k8s;
pub mod minikube;
pub mod models;
pub mod orchestrator;
pub mod process;
pub mod tagger;
pub mod text;
pub mod value;
pub mod yaml;

pub use dev::build_development_env;
pub use dev::start_development_service;
pub use dev::stop_development_service;
pub use docker::build_service_image;
pub use hosts::check_etc_hosts;
pub use hosts::patch_etc_hosts;
pub use k8s::build_routing_definition;
pub use k8s::build_service_cluster_definition;
pub use k8s::build_service_local_definition;
pub use k8s::kubectl_apply;
pub use k8s::kubectl_delete_all;
pub use k8s::K8sServiceConfig;
pub use minikube::get_host_ip;
pub use minikube::get_minikube_ip;
pub use models::Definition;
pub use models::DeployMode;
pub use models::GlobalConfig;
pub use models::Service;
pub use models::ServiceConfig;
pub use tagger::ensure_tag_config;
