use workshop_hub::hub::config::{default_workshop, Config};
use workshop_hub::hub::definition::{LABEL_USER_ID, LABEL_WORKSHOP_NAME, TTL_ANNOTATION};
use workshop_hub::hub::error::HubError;
use workshop_hub::hub::orchestrator::{
    existing_binding, gc_should_delete, generate_suffix, managed_pods_selector, pod_binding,
    session_key, unix_seconds, user_pods_selector, workshop_pods_selector, HealthStep,
    Orchestrator, PodStatus,
};
use workshop_hub::hub::pod::{ManagedPod, PodInfo, SidecarHealth};
use workshop_hub::textmap::TextMap;

fn config(limit: usize) -> Config {
    Config {
        workshops: default_workshop(),
        workshop_namespace: "ns".to_string(),
        workshop_ttl_seconds: 600,
        workshop_idle_seconds: 120,
        sidecar_proxy_port: 8888,
        sidecar_health_port: 9000,
        workshop_pod_limit: limit,
        workshop_cpu_request: "50m".to_string(),
        workshop_cpu_limit: "200m".to_string(),
        workshop_mem_request: "64Mi".to_string(),
        workshop_mem_limit: "256Mi".to_string(),
        garbage_collection_seconds: 300,
    }
}

fn pod(name: &str, user: Option<&str>, ip: Option<&str>, ttl: Option<&str>) -> PodInfo {
    let mut labels = TextMap::new();
    if let Some(u) = user {
        labels.insert(LABEL_USER_ID.to_string(), u.to_string());
    }
    let mut annotations = TextMap::new();
    if let Some(t) = ttl {
        annotations.insert(TTL_ANNOTATION.to_string(), t.to_string());
    }
    PodInfo {
        name: Some(name.to_string()),
        generate_name: None,
        uid: Some(format!("uid-{}", name)),
        labels,
        annotations,
        pod_ip: ip.map(|s| s.to_string()),
    }
}

/// `x` milliseconds, in the nanoseconds that the table's clock counts.
fn ms(x: i64) -> i64 {
    x * 1_000_000
}

fn health(idle: i64) -> SidecarHealth {
    SidecarHealth { status: "ok".to_string(), last_activity_timestamp: 0, idle_seconds: idle }
}

#[test]
fn managed_pod_clock_arithmetic() {
    let mut mp = ManagedPod::new_at(pod("p", None, None, None), ms(10_000));
    assert!(mp.is_alive());
    assert_eq!(mp.age_at(ms(12_999)), 2);
    assert_eq!(mp.age_at(ms(9_500)), 0);
    assert_eq!(mp.age_at(ms(7_000)), -3);
    // the clock counts nanoseconds: one nanosecond short of a second is no second
    let fine = ManagedPod::new_at(pod("f", None, None, None), 0);
    assert_eq!(fine.age_at(999_999_999), 0);
    assert_eq!(fine.age_at(1_000_000_000), 1);
    assert_eq!(mp.idle_at(ms(70_000)), 60);
    assert!(mp.is_expired_at(59, ms(70_000)));
    assert!(!mp.is_expired_at(60, ms(70_000)));
    mp.set_health_at(health(5), ms(20_000));
    assert_eq!(mp.idle_at(ms(1_000_000)), 5);
    assert_eq!(mp.health().unwrap().idle_seconds, 5);
    mp.kill();
    assert!(!mp.is_alive());
    assert!(mp.health().is_none());
    mp.create_at(ms(50_000));
    assert!(mp.is_alive());
    assert_eq!(mp.age_at(ms(51_000)), 1);
    mp.set_pod_at(pod("q", None, None, None), ms(60_000));
    assert_eq!(mp.pod().name.as_deref(), Some("q"));
    let clock = ManagedPod::new(pod("r", None, None, None));
    assert!(clock.is_alive());
}

#[test]
fn populate_adopts_labelled_pods() {
    let mut o = Orchestrator::with_config(config(10));
    o.populate(&vec![pod("a1", Some("alice"), None, None), pod("x", None, None, None), pod("b1", Some("bob"), None, None)], ms(1000));
    assert_eq!(o.pods.len(), 2);
    o.pods.get("alice").unwrap();
    o.populate(&vec![pod("a2", Some("alice"), Some("10.0.0.1"), None)], ms(5000));
    assert_eq!(o.pods.len(), 2);
    let alice = o.pods.get("alice").unwrap();
    assert_eq!(alice.pod().name.as_deref(), Some("a2"));
    // adopted at 1000, so at 5000 it is 4 seconds old
    assert_eq!(alice.age_at(ms(5000)), 4);
}

#[test]
fn populated_pod_is_found_by_its_session() {
    let mut o = Orchestrator::with_config(config(10));
    let mut p = pod("workshop-recovery-user", Some("recovery-user"), Some("10.0.0.9"), None);
    p.labels.insert(LABEL_WORKSHOP_NAME.to_string(), "workshop".to_string());
    o.populate(&vec![p], ms(1000));
    let key = session_key("recovery-user", "workshop");
    assert!(o.pods.get(&key).is_some());
    assert!(o.pods.get("recovery-user").is_none());
    match o.check_health(&key, ms(2000)) {
        HealthStep::Resolved(PodStatus::Healthy(p, url)) => {
            assert_eq!(p.name.as_deref(), Some("workshop-recovery-user"));
            assert_eq!(url, "http://10.0.0.9:8888");
        }
        _ => panic!("expected the adopted pod to be found healthy"),
    }
}

#[test]
fn health_checks() {
    let mut o = Orchestrator::with_config(config(10));
    match o.check_health("nobody-workshop", ms(0)) {
        HealthStep::Resolved(PodStatus::Missing) => {}
        _ => panic!("expected Missing"),
    }
    o.record_new_pod("s1".to_string(), pod("p1", Some("s1"), Some("10.1.2.3"), None), ms(0));
    // idle 10s < 120/4: cached healthy
    match o.check_health("s1", ms(10_000)) {
        HealthStep::Resolved(PodStatus::Healthy(p, url)) => {
            assert_eq!(p.name.as_deref(), Some("p1"));
            assert_eq!(url, "http://10.1.2.3:8888");
        }
        _ => panic!("expected cached Healthy"),
    }
    // idle 40s >= 30: probe
    let mp = match o.check_health("s1", ms(40_000)) {
        HealthStep::Probe { pod, url } => {
            assert_eq!(url.as_deref(), Some("http://10.1.2.3:9000/health"));
            pod
        }
        _ => panic!("expected a probe"),
    };
    match o.perform_health_check("s1", mp.duplicate(), None, ms(40_000)) {
        PodStatus::Unhealthy(_) => {}
        _ => panic!("expected Unhealthy"),
    }
    match o.perform_health_check("s1", mp.duplicate(), Some(health(3)), ms(40_000)) {
        PodStatus::Healthy(_, url) => assert_eq!(url, "http://10.1.2.3:8888"),
        _ => panic!("expected Healthy"),
    }
    assert_eq!(o.pods.get("s1").unwrap().health().unwrap().idle_seconds, 3);
    match o.perform_health_check("s1", mp, Some(health(500)), ms(40_000)) {
        PodStatus::Old(m) => assert_eq!(m.health().unwrap().idle_seconds, 500),
        _ => panic!("expected Old"),
    }
    let without_ip = ManagedPod::new_at(pod("p2", None, None, None), ms(0));
    match o.perform_health_check("s2", without_ip, Some(health(1)), ms(0)) {
        PodStatus::Unhealthy(_) => {}
        _ => panic!("expected Unhealthy without an address"),
    }
    assert!(o.pods.get("s2").is_none());
}

#[test]
fn resolve_status_decides() {
    let mut o = Orchestrator::with_config(config(10));
    o.record_new_pod("bob".to_string(), pod("p", None, None, None), ms(0));
    match o.resolve_status("bob", PodStatus::Healthy(pod("p", None, None, None), "u".to_string())) {
        Some(Ok(u)) => assert_eq!(u, "u"),
        _ => panic!(),
    }
    let old = ManagedPod::new_at(pod("p", None, Some("1.2.3.4"), None), ms(0));
    match o.resolve_status("bob", PodStatus::Old(old)) {
        Some(Ok(u)) => assert_eq!(u, "http://1.2.3.4:8888"),
        _ => panic!(),
    }
    match o.resolve_status("bob", PodStatus::UnreachableError) {
        Some(Err(HubError::PodNotReady)) => {}
        _ => panic!(),
    }
    assert!(o.pods.get("bob").is_some());
    assert!(o.resolve_status("bob", PodStatus::Missing).is_none());
    assert!(o.pods.get("bob").is_none());
}

#[test]
fn prepare_pod_respects_the_limit() {
    let mut o = Orchestrator::with_config(config(1));
    let w = default_workshop().remove(0);
    let (name, pod_spec) = match o.prepare_pod("user-bob", &w, "abc123", 1_000) {
        Ok(x) => x,
        Err(_) => panic!("expected a pod"),
    };
    assert_eq!(name, "workshop-user-bob-abc123");
    assert_eq!(pod_spec.metadata.annotations.as_ref().unwrap().get(TTL_ANNOTATION).unwrap(), "1600");
    o.record_new_pod("user-bob-workshop".to_string(), pod(&name, None, None, None), ms(0));
    match o.prepare_pod("user-eve", &w, "zzz", 1_000) {
        Err(HubError::PodLimitReached) => {}
        _ => panic!("expected PodLimitReached"),
    }
    let created = pod(&name, None, None, None);
    let svc = o.prepare_service(&name, "user-bob", "workshop", &created);
    let refs = svc.metadata.owner_references.as_ref().unwrap();
    assert_eq!(refs[0].uid, "uid-workshop-user-bob-abc123");
}

#[test]
fn gc_candidates_and_ttl_roundtrip() {
    let mut o = Orchestrator::with_config(config(10));
    let w = default_workshop().remove(0);
    // a pod created by the hub with expiry 1000 is read back by the collector
    let (_, created) = match o.prepare_pod("u1", &w, "s", 400) {
        Ok(x) => x,
        Err(_) => panic!(),
    };
    let ann = created.metadata.annotations.unwrap();
    let info = PodInfo { name: Some("a".to_string()), generate_name: None, uid: None, labels: TextMap::new(), annotations: ann, pod_ip: None };
    o.record_new_pod("expiring".to_string(), info, ms(1_000_000));
    o.record_new_pod("fresh".to_string(), pod("b", None, None, Some("99999999999")), ms(1_000_000));
    o.record_new_pod("idle".to_string(), pod("c", None, None, None), ms(0));
    o.record_new_pod("garbage-ttl".to_string(), pod("d", None, None, Some("soon")), ms(1_000_000));
    // at 1001 s: "expiring" (expires at 1000) is expired; "idle" is 1001 s idle (> 120)
    let mut c = o.gc_candidates(ms(1_001_000));
    c.sort();
    assert_eq!(c, vec![("expiring".to_string(), true), ("idle".to_string(), false)]);
    // at exactly 1000 s the expiry is not yet passed
    let c2 = o.gc_candidates(ms(1_000_000));
    assert!(c2.iter().all(|(k, _)| k != "expiring"));
}

#[test]
fn gc_verdicts() {
    let mp = || ManagedPod::new_at(pod("p", None, None, None), ms(0));
    assert!(gc_should_delete(true, &PodStatus::Healthy(pod("p", None, None, None), String::new())));
    assert!(!gc_should_delete(false, &PodStatus::Healthy(pod("p", None, None, None), String::new())));
    assert!(gc_should_delete(false, &PodStatus::Old(mp())));
    assert!(gc_should_delete(false, &PodStatus::Unhealthy(mp())));
    assert!(gc_should_delete(false, &PodStatus::Missing));
    assert!(gc_should_delete(false, &PodStatus::PodMissing));
    assert!(!gc_should_delete(false, &PodStatus::UnreachableError));
}

#[test]
fn delete_targets() {
    let mut o = Orchestrator::with_config(config(10));
    assert!(o.pod_to_delete("x").is_none());
    o.record_new_pod("x".to_string(), pod("px", None, None, None), ms(0));
    let mut unnamed = pod("", None, None, None);
    unnamed.name = None;
    unnamed.generate_name = Some("gen-".to_string());
    o.record_new_pod("y".to_string(), unnamed, ms(0));
    assert_eq!(o.pod_to_delete("x").as_deref(), Some("px"));
    assert_eq!(o.pod_to_delete("y").as_deref(), Some("gen-"));
    o.forget("x");
    assert!(o.pod_to_delete("x").is_none());
}

#[test]
fn names_and_selectors() {
    assert_eq!(session_key("user-bob", "llm"), "user-bob-llm");
    assert_eq!(unix_seconds(1_999_999_999), 1);
    assert_eq!(unix_seconds(-1), -1);
    assert_eq!(unix_seconds(-1_000_000_000), -1);
    assert_eq!(unix_seconds(-1_000_000_001), -2);
    let s = generate_suffix();
    assert_eq!(s.chars().count(), 6);
    assert!(s.chars().all(|c| c.is_ascii_digit() || c.is_ascii_lowercase()));
    let b = pod_binding("p1", "ns");
    assert_eq!(b.pod_name, "p1");
    assert_eq!(b.service_name, "p1");
    assert_eq!(b.cluster_dns_name, "p1.ns.svc.cluster.local");
    assert!(existing_binding(&Some(String::new()), "ns").is_none());
    assert!(existing_binding(&None, "ns").is_none());
    assert_eq!(existing_binding(&Some("p".to_string()), "ns").unwrap().cluster_dns_name, "p.ns.svc.cluster.local");
    assert_eq!(managed_pods_selector(), "app.kubernetes.io/managed-by=workshop-hub");
    assert_eq!(
        user_pods_selector("u", "w"),
        "workshop-hub/user-id=u,workshop-hub/workshop-name=w,app.kubernetes.io/managed-by=workshop-hub"
    );
    assert_eq!(workshop_pods_selector("w"), "app.kubernetes.io/managed-by=workshop-hub,workshop-hub/workshop-name=w");
}
