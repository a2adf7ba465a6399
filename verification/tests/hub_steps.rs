use workshop_hub::hub::auth::{
    finish_login, sanitize_username, session_cookie, validate_cookie_at, LoginRequest, COOKIE_NAME,
    SESSION_SECONDS,
};
use workshop_hub::hub::config::{default_workshop, Config};
use workshop_hub::hub::definition::{LABEL_USER_ID, LABEL_WORKSHOP_NAME};
use workshop_hub::hub::error::HubError;
use workshop_hub::hub::orchestrator::{
    count_deleted, gc_decide, readiness, standalone_step, GcDecision, Orchestrator, PodStatus,
    Readiness, StandaloneStep,
};
use workshop_hub::hub::pod::{ManagedPod, PodInfo};
use workshop_hub::inspector::network_device;
use workshop_hub::textmap::TextMap;

fn cfg(limit: usize) -> Config {
    Config {
        workshops: default_workshop(),
        workshop_namespace: "ns".to_string(),
        workshop_ttl_seconds: 600,
        workshop_idle_seconds: 120,
        sidecar_proxy_port: 8888,
        sidecar_health_port: 9000,
        workshop_pod_limit: limit,
        workshop_cpu_request: "50m".to_string(),
        workshop_cpu_limit: "200m".to_string(),
        workshop_mem_request: "64Mi".to_string(),
        workshop_mem_limit: "256Mi".to_string(),
        garbage_collection_seconds: 300,
    }
}

fn bare_pod(name: &str) -> PodInfo {
    PodInfo {
        name: Some(name.to_string()),
        generate_name: None,
        uid: None,
        labels: TextMap::new(),
        annotations: TextMap::new(),
        pod_ip: None,
    }
}

#[test]
fn sessions_of_requests() {
    let o = Orchestrator::with_config(cfg(5));
    let w = default_workshop()[0].name.clone();
    match o.request_session("user-bob", &w) {
        Ok(k) => assert_eq!(k, format!("user-bob-{}", w)),
        Err(_) => panic!("the workshop exists"),
    }
    assert!(matches!(o.request_session("user-bob", "no-such-workshop"), Err(HubError::WorkshopNotFound)));
}

#[test]
fn bare_user_entry_is_dropped_before_counting() {
    let mut o = Orchestrator::with_config(cfg(1));
    o.record_new_pod("user-bob".to_string(), bare_pod("old"), 0);
    assert!(o.resolve_status("user-bob", PodStatus::Missing).is_none());
    assert_eq!(o.pods.len(), 0);
    let w = &default_workshop()[0];
    assert!(matches!(o.prepare_pod("user-bob", w, "abc123", 1000), Ok(_)));
}

#[test]
fn garbage_collection_decisions() {
    assert!(matches!(gc_decide(true, &None), GcDecision::Delete));
    assert!(matches!(gc_decide(false, &None), GcDecision::Probe));
    assert!(matches!(gc_decide(false, &Some(PodStatus::UnreachableError)), GcDecision::Keep));
    assert!(matches!(gc_decide(false, &Some(PodStatus::Missing)), GcDecision::Delete));
    let mp = ManagedPod::new_at(bare_pod("p"), 0);
    assert!(matches!(gc_decide(false, &Some(PodStatus::Unhealthy(mp))), GcDecision::Delete));
    assert_eq!(count_deleted(2, true), 3);
    assert_eq!(count_deleted(2, false), 2);
}

#[test]
fn standalone_lookup_steps() {
    let c = cfg(1);
    let w = &default_workshop()[0];
    match standalone_step("user-bob", w, &c, &Some("workshop-user-bob-x".to_string()), 9, "abc", 0) {
        StandaloneStep::Bind(b) => {
            assert_eq!(b.pod_name, "workshop-user-bob-x");
            assert_eq!(b.cluster_dns_name, "workshop-user-bob-x.ns.svc.cluster.local");
        }
        _ => panic!("expected the existing pod"),
    }
    assert!(matches!(
        standalone_step("user-bob", w, &c, &Some(String::new()), 1, "abc", 0),
        StandaloneStep::Refuse(HubError::PodLimitReached)
    ));
    match standalone_step("user-bob", w, &c, &None, 0, "abc", 100) {
        StandaloneStep::Create { pod_name, pod } => {
            assert_eq!(pod_name, "workshop-user-bob-abc");
            let labels = pod.metadata.labels.unwrap();
            assert_eq!(labels.get(LABEL_USER_ID).map(|s| s.as_str()), Some("user-bob"));
            assert!(labels.get(LABEL_WORKSHOP_NAME).is_some());
        }
        _ => panic!("expected a new pod"),
    }
    assert!(matches!(readiness(&Some("Running".to_string()), 999_999), Readiness::Running));
    assert!(matches!(readiness(&Some("Pending".to_string()), 179_999), Readiness::Waiting));
    assert!(matches!(readiness(&None, 180_000), Readiness::TimedOut));
}

#[test]
fn login_cookie_attributes() {
    let c = session_cookie("tok".to_string(), Some("example.org".to_string()));
    assert_eq!(c.name, COOKIE_NAME);
    assert_eq!(c.value, "tok");
    assert!(c.http_only && c.same_site_lax);
    assert_eq!(c.path, "/");
    assert_eq!(c.max_age_seconds, SESSION_SECONDS);
    assert_eq!(c.domain.as_deref(), Some("example.org"));
    assert!(session_cookie("tok".to_string(), Some(String::new())).domain.is_none());
    assert!(session_cookie("tok".to_string(), None).domain.is_none());
}

#[test]
fn login_cookie_identifies_its_user() {
    let (_, token) = finish_login(&LoginRequest::new("Dave".to_string()), 5000);
    let header = format!("{}={}", COOKIE_NAME, token.unwrap());
    let id = validate_cookie_at(&header, 5000 + 86400).unwrap();
    assert_eq!(id.user_id, "user-dave");
    assert_eq!(id.username, "Dave");
}

#[test]
fn ascii_sanitizing_laws() {
    for u in ["Alice_W-1!", "bob", "X y z", "--__"] {
        let once = sanitize_username(u);
        assert_eq!(sanitize_username(&once), once);
        assert_eq!(sanitize_username(&u.to_ascii_uppercase()), once);
    }
}

#[test]
fn trimming_unicode_whitespace() {
    let d = network_device(
        "eth1".to_string(),
        true,
        Some("\u{a0}\u{2003}aa:bb\u{3000}\n".to_string()),
        None,
        None,
    )
    .unwrap();
    assert_eq!(d.mac_address, "aa:bb");
}
