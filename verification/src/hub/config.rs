//! The hub's configuration: the workshops on offer and the limits that govern
//! their pods.
use vstd::prelude::*;
use crate::text::same_text;
use crate::textmap::TextMap;

verus! {

/// One kind of workshop that users can start.
pub struct Workshop {
    /// The public-facing name of this workshop.
    pub name: String,
    /// The container image to use for the workshop.
    pub image: String,
    /// A description shown on the index page.
    pub description: String,
    /// The port the container is listening on.
    pub port: i32,
    /// Environment variables handed to the workshop container.
    pub env: TextMap<String>,
}

/// Top-level configuration of the hub.
pub struct Config {
    /// The workshops on offer.
    pub workshops: Vec<Workshop>,
    /// Namespace where workshop pods and services are created.
    pub workshop_namespace: String,
    /// Max time-to-live for a pod in seconds, regardless of activity.
    pub workshop_ttl_seconds: i64,
    /// Max idle time in seconds before a pod is cleaned up.
    pub workshop_idle_seconds: i64,
    /// The port the sidecar forwards traffic to the workshop on.
    pub sidecar_proxy_port: i32,
    /// The port the sidecar listens on for health reporting.
    pub sidecar_health_port: i32,
    /// Max number of concurrent workshop pods allowed to run.
    pub workshop_pod_limit: usize,
    /// Workshop container CPU request.
    pub workshop_cpu_request: String,
    /// Workshop container CPU limit.
    pub workshop_cpu_limit: String,
    /// Workshop container memory request.
    pub workshop_mem_request: String,
    /// Workshop container memory limit.
    pub workshop_mem_limit: String,
    /// Interval between garbage collection runs, in seconds.
    pub garbage_collection_seconds: i64,
}

impl Config {
    /// The first workshop whose name is `workshop`.
    pub fn get_workshop(&self, workshop: &str) -> (r: Option<&Workshop>)
        ensures
            match r {
                Some(w) => exists|i: int|
                    0 <= i < self.workshops@.len() && self.workshops@[i] == *w && w.name@
                        == workshop@ && forall|j: int|
                        0 <= j < i ==> #[trigger] self.workshops@[j].name@ != workshop@,
                None => forall|i: int|
                    0 <= i < self.workshops@.len() ==> #[trigger] self.workshops@[i].name@
                        != workshop@,
            },
    {
        let n: usize = self.workshops.len();
        let mut i: usize = 0;
        while i < n
            invariant
                i <= n,
                n == self.workshops@.len(),
                forall|j: int| 0 <= j < i ==> #[trigger] self.workshops@[j].name@ != workshop@,
            decreases n - i,
        {
            if same_text(self.workshops[i].name.as_str(), workshop) {
                return Some(&self.workshops[i]);
            }
            i = i + 1;
        }
        None
    }
}

/// The workshop offered when the configuration names none.
pub fn default_workshop() -> (ws: Vec<Workshop>)
    ensures
        ws.len() == 1,
        ws@[0].name@ == "workshop"@,
        ws@[0].image@ == "traefik/whoami"@,
        ws@[0].description@ == "The host didn't finish setting this up"@,
        ws@[0].port == 80,
        ws@[0].env@.len() == 0,
{
    let mut ws: Vec<Workshop> = Vec::new();
    ws.push(
        Workshop {
            name: String::from_str("workshop"),
            image: String::from_str("traefik/whoami"),
            description: String::from_str("The host didn't finish setting this up"),
            port: 80,
            env: TextMap::new(),
        },
    );
    ws
}

pub fn default_workshop_namespace() -> (s: String)
    ensures
        s@ == "default"@,
{
    String::from_str("default")
}

/// Eight hours.
pub fn default_workshop_ttl() -> (t: i64)
    ensures
        t == 8 * 60 * 60,
{
    8 * 60 * 60
}

/// One hour.
pub fn default_workshop_idle() -> (t: i64)
    ensures
        t == 60 * 60,
{
    60 * 60
}

pub fn default_workshop_port() -> (p: i32)
    ensures
        p == 80,
{
    80
}

pub fn default_workshop_pod_limit() -> (n: usize)
    ensures
        n == 10,
{
    10
}

pub fn default_sidecar_proxy_port() -> (p: i32)
    ensures
        p == 8888,
{
    8888
}

pub fn default_sidecar_health_port() -> (p: i32)
    ensures
        p == 9000,
{
    9000
}

pub fn default_workshop_cpu_request() -> (s: String)
    ensures
        s@ == "100m"@,
{
    String::from_str("100m")
}

pub fn default_workshop_cpu_limit() -> (s: String)
    ensures
        s@ == "500m"@,
{
    String::from_str("500m")
}

pub fn default_workshop_mem_request() -> (s: String)
    ensures
        s@ == "128Mi"@,
{
    String::from_str("128Mi")
}

pub fn default_workshop_mem_limit() -> (s: String)
    ensures
        s@ == "512Mi"@,
{
    String::from_str("512Mi")
}

pub fn default_garbage_collection_seconds() -> (t: i64)
    ensures
        t == 300,
{
    300
}

} // verus!
