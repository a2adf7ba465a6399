//! The pod and the service that the hub creates for one workshop session.
use vstd::prelude::*;
use vstd::string::*;
use crate::hub::config::{Config, Workshop};
use crate::hub::manifest::{
    text_view, Container, ContainerPort, EnvVar, HttpGetAction, ObjectMeta, OwnerReference, Pod,
    PodSpec, Probe, ResourceRequirements, Service, ServicePort, ServiceSpec,
};
use crate::text::{join, decimal, format_i32, format_i64};
use crate::textmap::TextMap;

verus! {

/// Label holding the user a pod belongs to.
pub const LABEL_USER_ID: &'static str = "workshop-hub/user-id";

/// Label marking the objects this hub manages.
pub const LABEL_MANAGED_BY: &'static str = "app.kubernetes.io/managed-by";

/// The value of `LABEL_MANAGED_BY` on the hub's objects.
pub const HUB_ID: &'static str = "workshop-hub";

/// Annotation holding the Unix time after which a pod is expired.
pub const TTL_ANNOTATION: &'static str = "workshop-hub/ttl-expires-at";

/// Label holding the workshop a pod runs.
pub const LABEL_WORKSHOP_NAME: &'static str = "workshop-hub/workshop-name";

/// The sidecar image placed beside every workshop container.
pub const SIDECAR: &'static str = "ghcr.io/nbhdai/workshop-sidecar:latest";

/// `o` holds text `t`.
pub open spec fn some_text(o: Option<String>, t: Seq<char>) -> bool {
    o matches Some(s) && s@ == t
}

/// `m` maps exactly `cpu` and `memory` to the given quantities.
pub open spec fn is_resource_map(m: Option<TextMap<String>>, cpu: Seq<char>, memory: Seq<char>) -> bool {
    m matches Some(r) && text_view(r) == map!["cpu"@ => cpu, "memory"@ => memory]
}

/// The environment variables `env` set exactly the variables of `expected`,
/// each once, in some order.
pub open spec fn env_holds(env: Seq<EnvVar>, expected: Map<Seq<char>, Seq<char>>) -> bool {
    &&& forall|i: int, j: int|
        0 <= i < j < env.len() ==> #[trigger] env[i].name@ != #[trigger] env[j].name@
    &&& forall|i: int|
        0 <= i < env.len() ==> expected.contains_key(#[trigger] env[i].name@) && some_text(
            env[i].value,
            expected[env[i].name@],
        )
    &&& forall|k: Seq<char>|
        #[trigger] expected.contains_key(k) ==> exists|i: int|
            0 <= i < env.len() && #[trigger] env[i].name@ == k
}

pub open spec fn is_env_var(e: EnvVar, name: Seq<char>, value: Seq<char>) -> bool {
    e.name@ == name && some_text(e.value, value)
}

/// An HTTP probe of the sidecar's `/health` endpoint.
pub open spec fn is_health_probe(
    p: Option<Probe>,
    port: i32,
    initial_delay: i32,
    period: i32,
    failure_threshold: Option<i32>,
) -> bool {
    &&& p matches Some(probe)
    &&& probe.http_get matches Some(get)
    &&& some_text(get.path, "/health"@)
    &&& get.port == port
    &&& some_text(get.scheme, "HTTP"@)
    &&& probe.initial_delay_seconds == Some(initial_delay)
    &&& probe.period_seconds == Some(period)
    &&& probe.failure_threshold == failure_threshold
}

/// The container that runs the workshop itself.
pub open spec fn is_workshop_container(c: Container, workshop: Workshop, config: Config) -> bool {
    &&& c.name@ == "workshop"@
    &&& some_text(c.image, workshop.image@)
    &&& some_text(c.image_pull_policy, "Always"@)
    &&& c.ports matches Some(ports) && ports@.len() == 1 && ports@[0].name is None
        && ports@[0].container_port == workshop.port
    &&& c.resources matches Some(r) && is_resource_map(
        r.limits,
        config.workshop_cpu_limit@,
        config.workshop_mem_limit@,
    ) && is_resource_map(r.requests, config.workshop_cpu_request@, config.workshop_mem_request@)
    &&& if text_view(workshop.env).len() == 0 {
        c.env is None
    } else {
        c.env matches Some(env) && env_holds(env@, text_view(workshop.env))
    }
    &&& c.readiness_probe is None
    &&& c.liveness_probe is None
}

/// The sidecar container: it reports health and forwards traffic to the
/// workshop container.
pub open spec fn is_sidecar_container(c: Container, workshop: Workshop, config: Config) -> bool {
    &&& c.name@ == "sidecar"@
    &&& some_text(c.image, SIDECAR@)
    &&& some_text(c.image_pull_policy, "Always"@)
    &&& c.env matches Some(env) && env@.len() == 3 && is_env_var(
        env@[0],
        "SIDECAR_HTTP_LISTEN"@,
        "0.0.0.0:"@ + decimal(config.sidecar_health_port as int),
    ) && is_env_var(
        env@[1],
        "SIDECAR_TCP_LISTEN"@,
        "0.0.0.0:"@ + decimal(config.sidecar_proxy_port as int),
    ) && is_env_var(
        env@[2],
        "SIDECAR_TARGET_TCP"@,
        "127.0.0.1:"@ + decimal(workshop.port as int),
    )
    &&& c.ports matches Some(ports) && ports@.len() == 2 && some_text(ports@[0].name, "health"@)
        && ports@[0].container_port == config.sidecar_health_port && some_text(
        ports@[1].name,
        "proxy"@,
    ) && ports@[1].container_port == config.sidecar_proxy_port
    &&& c.resources is None
    &&& is_health_probe(c.readiness_probe, config.sidecar_health_port, 5, 5, None)
    &&& is_health_probe(c.liveness_probe, config.sidecar_health_port, 30, 30, Some(3))
}

/// The labels that mark an object as this hub's, for one user and workshop.
pub open spec fn managed_labels(user_id: Seq<char>, workshop_name: Seq<char>) -> Map<
    Seq<char>,
    Seq<char>,
> {
    map![LABEL_USER_ID@ => user_id, LABEL_WORKSHOP_NAME@ => workshop_name, LABEL_MANAGED_BY@ => HUB_ID@]
}

/// A ClusterIP service selecting the pod `pod_name` by its `app` label and
/// exposing the sidecar's proxy and health ports.
pub open spec fn is_workshop_service_spec(spec: ServiceSpec, pod_name: Seq<char>, config: Config) -> bool {
    &&& some_text(spec.type_, "ClusterIP"@)
    &&& spec.selector matches Some(sel) && text_view(sel) == map!["app"@ => pod_name]
    &&& spec.ports matches Some(ports)
    &&& ports@.len() == 2
    &&& some_text(ports@[0].name, "proxy"@)
    &&& ports@[0].port == config.sidecar_proxy_port
    &&& ports@[0].target_port == Some(config.sidecar_proxy_port)
    &&& some_text(ports@[1].name, "health"@)
    &&& ports@[1].port == config.sidecar_health_port
    &&& ports@[1].target_port == Some(config.sidecar_health_port)
}

/// A pod specification that never restarts and runs the workshop container
/// followed by its sidecar.
pub open spec fn is_workshop_pod_spec(spec: PodSpec, workshop: Workshop, config: Config) -> bool {
    &&& some_text(spec.restart_policy, "Never"@)
    &&& spec.containers@.len() == 2
    &&& is_workshop_container(spec.containers@[0], workshop, config)
    &&& is_sidecar_container(spec.containers@[1], workshop, config)
}

/// The pod of one user's session of `workshop`: named `pod_name`, labelled
/// as the hub's with the user, the workshop and an `app` label for the
/// service's selector, annotated with the Unix time at which it expires, and
/// running the workshop container and its sidecar.
pub open spec fn is_workshop_pod(
    pod: Pod,
    pod_name: Seq<char>,
    user_id: Seq<char>,
    workshop: Workshop,
    config: Config,
    expires_at: i64,
) -> bool {
    &&& some_text(pod.metadata.name, pod_name)
    &&& pod.metadata.labels matches Some(labels) && text_view(labels) == managed_labels(
        user_id,
        workshop.name@,
    ).insert("app"@, pod_name)
    &&& pod.metadata.annotations matches Some(ann) && text_view(ann) == map![TTL_ANNOTATION@ => decimal(expires_at as int)]
    &&& pod.metadata.owner_references is None
    &&& pod.spec matches Some(spec) && is_workshop_pod_spec(spec, workshop, config)
}

/// The service of a session's pod: named `service_name`, labelled as the
/// hub's, owned through `owner_ref`, and selecting the pod `pod_name`.
pub open spec fn is_workshop_service(
    svc: Service,
    service_name: Seq<char>,
    pod_name: Seq<char>,
    user_id: Seq<char>,
    workshop_name: Seq<char>,
    owner_ref: OwnerReference,
    config: Config,
) -> bool {
    &&& some_text(svc.metadata.name, service_name)
    &&& svc.metadata.labels matches Some(labels) && text_view(labels) == managed_labels(
        user_id,
        workshop_name,
    )
    &&& svc.metadata.annotations is None
    &&& svc.metadata.owner_references matches Some(refs) && refs@ == seq![owner_ref]
    &&& svc.spec matches Some(spec) && is_workshop_service_spec(spec, pod_name, config)
}

/// Two optional names hold the same text.
pub open spec fn same_name(a: Option<String>, b: Option<String>) -> bool {
    match (a, b) {
        (Some(x), Some(y)) => x@ == y@,
        (None, None) => true,
        _ => false,
    }
}

/// The service of a session selects the session's pod, and forwards each
/// of its ports to the sidecar's container port of the same name.
pub proof fn lemma_service_reaches_its_pod(
    pod: Pod,
    svc: Service,
    pod_name: Seq<char>,
    service_name: Seq<char>,
    user_id: Seq<char>,
    workshop: Workshop,
    config: Config,
    expires_at: i64,
    owner_ref: OwnerReference,
)
    requires
        is_workshop_pod(pod, pod_name, user_id, workshop, config, expires_at),
        is_workshop_service(svc, service_name, pod_name, user_id, workshop.name@, owner_ref, config),
    ensures
        ({
            let labels = text_view(pod.metadata.labels->0);
            let selector = text_view(svc.spec->0.selector->0);
            forall|k: Seq<char>|
                #[trigger] selector.contains_key(k) ==> labels.contains_key(k) && labels[k]
                    == selector[k]
        }),
        ({
            let service_ports = svc.spec->0.ports->0@;
            let sidecar_ports = pod.spec->0.containers@[1].ports->0@;
            forall|i: int|
                0 <= i < service_ports.len() ==> exists|j: int|
                    0 <= j < sidecar_ports.len() && same_name(#[trigger] sidecar_ports[j].name, #[trigger] service_ports[i].name)
                        && service_ports[i].target_port == Some(sidecar_ports[j].container_port)
        }),
{
    let labels = text_view(pod.metadata.labels->0);
    assert(labels.contains_key("app"@));
    let service_ports = svc.spec->0.ports->0@;
    let sidecar_ports = pod.spec->0.containers@[1].ports->0@;
    assert forall|i: int| 0 <= i < service_ports.len() implies exists|j: int|
        0 <= j < sidecar_ports.len() && same_name(#[trigger] sidecar_ports[j].name, #[trigger] service_ports[i].name)
            && service_ports[i].target_port == Some(sidecar_ports[j].container_port) by {
        if i == 0 {
            assert(same_name(sidecar_ports[1].name, service_ports[0].name));
        } else {
            assert(same_name(sidecar_ports[0].name, service_ports[1].name));
        }
    }
}

fn text(s: &str) -> (r: String)
    ensures
        r@ == s@,
{
    String::from_str(s)
}

fn resource_map(cpu: &String, memory: &String) -> (m: TextMap<String>)
    ensures
        text_view(m) == map!["cpu"@ => cpu@, "memory"@ => memory@],
{
    let mut m: TextMap<String> = TextMap::new();
    m.insert(text("cpu"), cpu.clone());
    m.insert(text("memory"), memory.clone());
    proof {
        assert(text_view(m) =~= map!["cpu"@ => cpu@, "memory"@ => memory@]);
    }
    m
}

fn workshop_env(env: &TextMap<String>) -> (vars: Vec<EnvVar>)
    ensures
        env_holds(vars@, text_view(*env)),
{
    let keys = env.keys();
    let n: usize = keys.len();
    let mut vars: Vec<EnvVar> = Vec::new();
    let mut i: usize = 0;
    while i < n
        invariant
            i <= n,
            n == keys.len(),
            vars.len() == i,
            forall|j: int| 0 <= j < keys.len() ==> env@.contains_key(#[trigger] keys@[j]@),
            forall|j: int|
                0 <= j < i ==> #[trigger] vars@[j].name@ == keys@[j]@ && some_text(
                    vars@[j].value,
                    text_view(*env)[keys@[j]@],
                ),
        decreases n - i,
    {
        let key = &keys[i];
        let value = match env.get(key.as_str()) {
            Some(v) => v.clone(),
            None => String::new(),
        };
        proof {
            assert(env@.contains_key(keys@[i as int]@));
            assert(text_view(*env)[keys@[i as int]@] == env@[keys@[i as int]@]@);
            assert(value@ == text_view(*env)[keys@[i as int]@]);
        }
        vars.push(EnvVar { name: key.clone(), value: Some(value) });
        i = i + 1;
    }
    proof {
        let ex = text_view(*env);
        assert forall|a: int, b: int| 0 <= a < b < vars@.len() implies #[trigger] vars@[a].name@
            != #[trigger] vars@[b].name@ by {
            assert(keys@[a]@ != keys@[b]@);
        }
        assert forall|a: int| 0 <= a < vars@.len() implies ex.contains_key(
            #[trigger] vars@[a].name@,
        ) && some_text(vars@[a].value, ex[vars@[a].name@]) by {
            assert(env@.contains_key(keys@[a]@));
        }
        assert forall|k: Seq<char>| #[trigger] ex.contains_key(k) implies exists|a: int|
            0 <= a < vars@.len() && #[trigger] vars@[a].name@ == k by {
            assert(env@.contains_key(k));
            let a = choose|a: int| 0 <= a < keys@.len() && #[trigger] keys@[a]@ == k;
            assert(vars@[a].name@ == k);
        }
    }
    vars
}

fn workshop_container(workshop: &Workshop, config: &Config) -> (c: Container)
    ensures
        is_workshop_container(c, *workshop, *config),
{
    let env = if workshop.env.is_empty() {
        None
    } else {
        Some(workshop_env(&workshop.env))
    };
    proof {
        assert(text_view(workshop.env).len() == workshop.env@.len()) by {
            assert(text_view(workshop.env).dom() =~= workshop.env@.dom());
        }
    }
    let mut ports: Vec<ContainerPort> = Vec::new();
    ports.push(ContainerPort { name: None, container_port: workshop.port });
    Container {
        name: text("workshop"),
        image: Some(workshop.image.clone()),
        image_pull_policy: Some(text("Always")),
        ports: Some(ports),
        resources: Some(
            ResourceRequirements {
                limits: Some(resource_map(&config.workshop_cpu_limit, &config.workshop_mem_limit)),
                requests: Some(
                    resource_map(&config.workshop_cpu_request, &config.workshop_mem_request),
                ),
            },
        ),
        env,
        readiness_probe: None,
        liveness_probe: None,
    }
}

fn health_probe(port: i32, initial_delay: i32, period: i32, failure_threshold: Option<i32>) -> (p:
    Probe)
    ensures
        is_health_probe(Some(p), port, initial_delay, period, failure_threshold),
{
    Probe {
        http_get: Some(
            HttpGetAction { path: Some(text("/health")), port, scheme: Some(text("HTTP")) },
        ),
        initial_delay_seconds: Some(initial_delay),
        period_seconds: Some(period),
        failure_threshold,
    }
}

fn sidecar_container(workshop: &Workshop, config: &Config) -> (c: Container)
    ensures
        is_sidecar_container(c, *workshop, *config),
{
    let mut env: Vec<EnvVar> = Vec::new();
    env.push(
        EnvVar {
            name: text("SIDECAR_HTTP_LISTEN"),
            value: Some(join("0.0.0.0:", format_i32(config.sidecar_health_port).as_str())),
        },
    );
    env.push(
        EnvVar {
            name: text("SIDECAR_TCP_LISTEN"),
            value: Some(join("0.0.0.0:", format_i32(config.sidecar_proxy_port).as_str())),
        },
    );
    env.push(
        EnvVar {
            name: text("SIDECAR_TARGET_TCP"),
            value: Some(join("127.0.0.1:", format_i32(workshop.port).as_str())),
        },
    );
    let mut ports: Vec<ContainerPort> = Vec::new();
    ports.push(
        ContainerPort { name: Some(text("health")), container_port: config.sidecar_health_port },
    );
    ports.push(
        ContainerPort { name: Some(text("proxy")), container_port: config.sidecar_proxy_port },
    );
    Container {
        name: text("sidecar"),
        image: Some(text(SIDECAR)),
        image_pull_policy: Some(text("Always")),
        ports: Some(ports),
        resources: None,
        env: Some(env),
        readiness_probe: Some(health_probe(config.sidecar_health_port, 5, 5, None)),
        liveness_probe: Some(health_probe(config.sidecar_health_port, 30, 30, Some(3))),
    }
}

/// The pod that runs one user's session of `workshop`: the workshop
/// container and its sidecar, labelled for the hub and annotated with the
/// time at which it expires.
pub fn create_workshop_pod_spec(
    pod_name: &str,
    user_id: &str,
    workshop: &Workshop,
    config: &Config,
    expires_at_timestamp: i64,
) -> (pod: Pod)
    ensures
        is_workshop_pod(pod, pod_name@, user_id@, *workshop, *config, expires_at_timestamp),
{
    let mut labels: TextMap<String> = TextMap::new();
    labels.insert(text(LABEL_USER_ID), text(user_id));
    labels.insert(text(LABEL_WORKSHOP_NAME), workshop.name.clone());
    labels.insert(text(LABEL_MANAGED_BY), text(HUB_ID));
    labels.insert(text("app"), text(pod_name));
    let mut annotations: TextMap<String> = TextMap::new();
    annotations.insert(text(TTL_ANNOTATION), format_i64(expires_at_timestamp));
    proof {
        assert(text_view(labels) =~= managed_labels(user_id@, workshop.name@).insert(
            "app"@,
            pod_name@,
        ));
        assert(text_view(annotations) =~= map![TTL_ANNOTATION@ => decimal(expires_at_timestamp as int)]);
    }
    let mut containers: Vec<Container> = Vec::new();
    containers.push(workshop_container(workshop, config));
    containers.push(sidecar_container(workshop, config));
    Pod {
        metadata: ObjectMeta {
            name: Some(text(pod_name)),
            labels: Some(labels),
            annotations: Some(annotations),
            owner_references: None,
        },
        spec: Some(PodSpec { restart_policy: Some(text("Never")), containers }),
    }
}

/// A reference to the pod `pod_name` with the given uid (empty where there
/// is none).
pub open spec fn is_pod_owner_reference(r: OwnerReference, pod_name: Seq<char>, uid: Option<Seq<char>>) -> bool {
    &&& r.api_version@ == "v1"@
    &&& r.kind@ == "Pod"@
    &&& r.name@ == pod_name
    &&& r.uid@ == (match uid {
        Some(u) => u,
        None => Seq::<char>::empty(),
    })
}

/// The owner reference that ties an object to the pod `pod_name` with the
/// given uid (empty where the pod has none yet).
pub fn pod_owner_reference(pod_name: &str, uid: &Option<String>) -> (r: OwnerReference)
    ensures
        is_pod_owner_reference(
            r,
            pod_name@,
            match uid {
                Some(u) => Some(u@),
                None => None,
            },
        ),
{
    OwnerReference {
        api_version: text("v1"),
        kind: text("Pod"),
        name: text(pod_name),
        uid: match uid {
            Some(u) => u.clone(),
            None => String::new(),
        },
    }
}

/// The service that exposes a workshop pod: selected by the pod's `app`
/// label, owned by the pod, with the sidecar's proxy and health ports.
pub fn create_workshop_service_spec(
    service_name: &str,
    pod_name: &str,
    user_id: &str,
    workshop_name: &str,
    owner_ref: OwnerReference,
    config: &Config,
) -> (svc: Service)
    ensures
        is_workshop_service(svc, service_name@, pod_name@, user_id@, workshop_name@, owner_ref, *config),
{
    let mut labels: TextMap<String> = TextMap::new();
    labels.insert(text(LABEL_USER_ID), text(user_id));
    labels.insert(text(LABEL_WORKSHOP_NAME), text(workshop_name));
    labels.insert(text(LABEL_MANAGED_BY), text(HUB_ID));
    let mut selector: TextMap<String> = TextMap::new();
    selector.insert(text("app"), text(pod_name));
    proof {
        assert(text_view(labels) =~= managed_labels(user_id@, workshop_name@));
        assert(text_view(selector) =~= map!["app"@ => pod_name@]);
    }
    let mut refs: Vec<OwnerReference> = Vec::new();
    refs.push(owner_ref);
    proof {
        assert(refs@ =~= seq![owner_ref]);
    }
    let mut ports: Vec<ServicePort> = Vec::new();
    ports.push(
        ServicePort {
            name: Some(text("proxy")),
            port: config.sidecar_proxy_port,
            target_port: Some(config.sidecar_proxy_port),
        },
    );
    ports.push(
        ServicePort {
            name: Some(text("health")),
            port: config.sidecar_health_port,
            target_port: Some(config.sidecar_health_port),
        },
    );
    Service {
        metadata: ObjectMeta {
            name: Some(text(service_name)),
            labels: Some(labels),
            annotations: None,
            owner_references: Some(refs),
        },
        spec: Some(
            ServiceSpec {
                type_: Some(text("ClusterIP")),
                selector: Some(selector),
                ports: Some(ports),
            },
        ),
    }
}

} // verus!
