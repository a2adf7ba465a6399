use workshop_hub::hub::config::{
    default_garbage_collection_seconds, default_sidecar_health_port, default_sidecar_proxy_port,
    default_workshop, default_workshop_cpu_limit, default_workshop_cpu_request,
    default_workshop_idle, default_workshop_mem_limit, default_workshop_mem_request,
    default_workshop_namespace, default_workshop_pod_limit, default_workshop_port,
    default_workshop_ttl, Config, Workshop,
};
use workshop_hub::hub::definition::{
    create_workshop_pod_spec, create_workshop_service_spec, pod_owner_reference, HUB_ID,
    LABEL_MANAGED_BY, LABEL_USER_ID, LABEL_WORKSHOP_NAME, SIDECAR, TTL_ANNOTATION,
};
use workshop_hub::textmap::TextMap;

fn config() -> Config {
    Config {
        workshops: default_workshop(),
        workshop_namespace: "test-workshops".to_string(),
        workshop_ttl_seconds: 600,
        workshop_idle_seconds: 120,
        sidecar_proxy_port: 8888,
        sidecar_health_port: 9000,
        workshop_pod_limit: 10,
        workshop_cpu_request: "50m".to_string(),
        workshop_cpu_limit: "200m".to_string(),
        workshop_mem_request: "64Mi".to_string(),
        workshop_mem_limit: "256Mi".to_string(),
        garbage_collection_seconds: 300,
    }
}

fn workshop(env: &[(&str, &str)]) -> Workshop {
    let mut m = TextMap::new();
    for (k, v) in env {
        m.insert(k.to_string(), v.to_string());
    }
    Workshop {
        name: "llm".to_string(),
        image: "ghcr.io/x/llm:1".to_string(),
        description: "d".to_string(),
        port: 8080,
        env: m,
    }
}

fn get<'a>(m: &'a TextMap<String>, k: &str) -> &'a str {
    m.get(k).unwrap().as_str()
}

#[test]
fn pod_spec_metadata_and_containers() {
    let cfg = config();
    let w = workshop(&[]);
    let pod = create_workshop_pod_spec("llm-user-bob-abc123", "user-bob", &w, &cfg, 1700000000);
    assert_eq!(pod.metadata.name.as_deref(), Some("llm-user-bob-abc123"));
    let labels = pod.metadata.labels.as_ref().unwrap();
    assert_eq!(labels.len(), 4);
    assert_eq!(get(labels, LABEL_USER_ID), "user-bob");
    assert_eq!(get(labels, LABEL_WORKSHOP_NAME), "llm");
    assert_eq!(get(labels, LABEL_MANAGED_BY), HUB_ID);
    assert_eq!(get(labels, "app"), "llm-user-bob-abc123");
    let ann = pod.metadata.annotations.as_ref().unwrap();
    assert_eq!(ann.len(), 1);
    assert_eq!(get(ann, TTL_ANNOTATION), "1700000000");
    let spec = pod.spec.as_ref().unwrap();
    assert_eq!(spec.restart_policy.as_deref(), Some("Never"));
    assert_eq!(spec.containers.len(), 2);
    let wc = &spec.containers[0];
    assert_eq!(wc.name, "workshop");
    assert_eq!(wc.image.as_deref(), Some("ghcr.io/x/llm:1"));
    assert_eq!(wc.image_pull_policy.as_deref(), Some("Always"));
    assert_eq!(wc.ports.as_ref().unwrap()[0].container_port, 8080);
    assert!(wc.env.is_none());
    let res = wc.resources.as_ref().unwrap();
    assert_eq!(get(res.limits.as_ref().unwrap(), "cpu"), "200m");
    assert_eq!(get(res.limits.as_ref().unwrap(), "memory"), "256Mi");
    assert_eq!(get(res.requests.as_ref().unwrap(), "cpu"), "50m");
    assert_eq!(get(res.requests.as_ref().unwrap(), "memory"), "64Mi");
    let sc = &spec.containers[1];
    assert_eq!(sc.name, "sidecar");
    assert_eq!(sc.image.as_deref(), Some(SIDECAR));
    let env = sc.env.as_ref().unwrap();
    assert_eq!(env[0].name, "SIDECAR_HTTP_LISTEN");
    assert_eq!(env[0].value.as_deref(), Some("0.0.0.0:9000"));
    assert_eq!(env[1].name, "SIDECAR_TCP_LISTEN");
    assert_eq!(env[1].value.as_deref(), Some("0.0.0.0:8888"));
    assert_eq!(env[2].name, "SIDECAR_TARGET_TCP");
    assert_eq!(env[2].value.as_deref(), Some("127.0.0.1:8080"));
    let ports = sc.ports.as_ref().unwrap();
    assert_eq!(ports[0].name.as_deref(), Some("health"));
    assert_eq!(ports[0].container_port, 9000);
    assert_eq!(ports[1].name.as_deref(), Some("proxy"));
    assert_eq!(ports[1].container_port, 8888);
    let ready = sc.readiness_probe.as_ref().unwrap();
    assert_eq!(ready.initial_delay_seconds, Some(5));
    assert_eq!(ready.period_seconds, Some(5));
    assert_eq!(ready.failure_threshold, None);
    let get_action = ready.http_get.as_ref().unwrap();
    assert_eq!(get_action.path.as_deref(), Some("/health"));
    assert_eq!(get_action.port, 9000);
    assert_eq!(get_action.scheme.as_deref(), Some("HTTP"));
    let live = sc.liveness_probe.as_ref().unwrap();
    assert_eq!(live.initial_delay_seconds, Some(30));
    assert_eq!(live.period_seconds, Some(30));
    assert_eq!(live.failure_threshold, Some(3));
}

#[test]
fn pod_spec_passes_workshop_env() {
    let cfg = config();
    let w = workshop(&[("MODEL", "tiny"), ("MODE", "demo")]);
    let pod = create_workshop_pod_spec("p", "u", &w, &cfg, -5);
    assert_eq!(get(pod.metadata.annotations.as_ref().unwrap(), TTL_ANNOTATION), "-5");
    let env = pod.spec.as_ref().unwrap().containers[0].env.as_ref().unwrap();
    let mut pairs: Vec<(String, String)> = env.iter().map(|e| (e.name.clone(), e.value.clone().unwrap())).collect();
    pairs.sort();
    assert_eq!(pairs, vec![("MODE".to_string(), "demo".to_string()), ("MODEL".to_string(), "tiny".to_string())]);
}

#[test]
fn service_spec_selects_pod() {
    let cfg = config();
    let owner = pod_owner_reference("p1", &Some("uid-1".to_string()));
    assert_eq!(owner.api_version, "v1");
    assert_eq!(owner.kind, "Pod");
    assert_eq!(owner.uid, "uid-1");
    let svc = create_workshop_service_spec("p1", "p1", "user-a", "llm", owner, &cfg);
    assert_eq!(svc.metadata.name.as_deref(), Some("p1"));
    let labels = svc.metadata.labels.as_ref().unwrap();
    assert_eq!(labels.len(), 3);
    assert_eq!(get(labels, LABEL_USER_ID), "user-a");
    assert!(svc.metadata.annotations.is_none());
    let refs = svc.metadata.owner_references.as_ref().unwrap();
    assert_eq!(refs.len(), 1);
    assert_eq!(refs[0].name, "p1");
    let spec = svc.spec.as_ref().unwrap();
    assert_eq!(spec.type_.as_deref(), Some("ClusterIP"));
    assert_eq!(get(spec.selector.as_ref().unwrap(), "app"), "p1");
    let ports = spec.ports.as_ref().unwrap();
    assert_eq!(ports[0].name.as_deref(), Some("proxy"));
    assert_eq!(ports[0].port, 8888);
    assert_eq!(ports[0].target_port, Some(8888));
    assert_eq!(ports[1].name.as_deref(), Some("health"));
    assert_eq!(ports[1].port, 9000);
    assert_eq!(ports[1].target_port, Some(9000));
    let no_uid = pod_owner_reference("p2", &None);
    assert_eq!(no_uid.uid, "");
}

#[test]
fn config_lookup_and_defaults() {
    let mut cfg = config();
    cfg.workshops.push(workshop(&[]));
    let mut second = workshop(&[]);
    second.image = "other".to_string();
    cfg.workshops.push(second);
    assert_eq!(cfg.get_workshop("llm").unwrap().image, "ghcr.io/x/llm:1");
    assert_eq!(cfg.get_workshop("workshop").unwrap().image, "traefik/whoami");
    assert!(cfg.get_workshop("nope").is_none());
    assert_eq!(default_workshop_namespace(), "default");
    assert_eq!(default_workshop_ttl(), 28800);
    assert_eq!(default_workshop_idle(), 3600);
    assert_eq!(default_workshop_pod_limit(), 10);
    assert_eq!(default_sidecar_proxy_port(), 8888);
    assert_eq!(default_sidecar_health_port(), 9000);
    assert_eq!(default_workshop_cpu_request(), "100m");
    assert_eq!(default_workshop_cpu_limit(), "500m");
    assert_eq!(default_workshop_mem_request(), "128Mi");
    assert_eq!(default_workshop_mem_limit(), "512Mi");
    assert_eq!(default_garbage_collection_seconds(), 300);
    assert_eq!(default_workshop_port(), 80);
}
