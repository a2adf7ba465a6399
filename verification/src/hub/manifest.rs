//! The Kubernetes objects that the hub creates, as plain values: the fields
//! that the hub sets and reads of pods and services.
use vstd::prelude::*;
use crate::textmap::TextMap;

verus! {

/// The text-to-text map that a `TextMap<String>` holds.
pub open spec fn text_view(m: TextMap<String>) -> Map<Seq<char>, Seq<char>> {
    m@.map_values(|v: String| v@)
}

/// An owner reference: the object whose deletion removes this one.
pub struct OwnerReference {
    pub api_version: String,
    pub kind: String,
    pub name: String,
    pub uid: String,
}

/// Object metadata.
pub struct ObjectMeta {
    pub name: Option<String>,
    pub labels: Option<TextMap<String>>,
    pub annotations: Option<TextMap<String>>,
    pub owner_references: Option<Vec<OwnerReference>>,
}

/// An environment variable of a container.
pub struct EnvVar {
    pub name: String,
    pub value: Option<String>,
}

/// A port that a container exposes.
pub struct ContainerPort {
    pub name: Option<String>,
    pub container_port: i32,
}

/// Resource limits and requests, by resource name.
pub struct ResourceRequirements {
    pub limits: Option<TextMap<String>>,
    pub requests: Option<TextMap<String>>,
}

/// An HTTP GET probe action.
pub struct HttpGetAction {
    pub path: Option<String>,
    pub port: i32,
    pub scheme: Option<String>,
}

/// A readiness or liveness probe.
pub struct Probe {
    pub http_get: Option<HttpGetAction>,
    pub initial_delay_seconds: Option<i32>,
    pub period_seconds: Option<i32>,
    pub failure_threshold: Option<i32>,
}

/// A container of a pod.
pub struct Container {
    pub name: String,
    pub image: Option<String>,
    pub image_pull_policy: Option<String>,
    pub ports: Option<Vec<ContainerPort>>,
    pub resources: Option<ResourceRequirements>,
    pub env: Option<Vec<EnvVar>>,
    pub readiness_probe: Option<Probe>,
    pub liveness_probe: Option<Probe>,
}

/// The specification of a pod.
pub struct PodSpec {
    pub restart_policy: Option<String>,
    pub containers: Vec<Container>,
}

/// A pod to be created.
pub struct Pod {
    pub metadata: ObjectMeta,
    pub spec: Option<PodSpec>,
}

/// A port of a service.
pub struct ServicePort {
    pub name: Option<String>,
    pub port: i32,
    pub target_port: Option<i32>,
}

/// The specification of a service.
pub struct ServiceSpec {
    pub type_: Option<String>,
    pub selector: Option<TextMap<String>>,
    pub ports: Option<Vec<ServicePort>>,
}

/// A service to be created.
pub struct Service {
    pub metadata: ObjectMeta,
    pub spec: Option<ServiceSpec>,
}

} // verus!
