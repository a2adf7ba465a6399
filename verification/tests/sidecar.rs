use std::sync::Arc;
use workshop_hub::sidecar::config::Config;
use workshop_hub::sidecar::health::health_report;
use workshop_hub::sidecar::proxy::{upstream_target, ActivityStream, UpstreamTarget};
use workshop_hub::sidecar::state::{current_timestamp, timestamp_from, AppState};

fn config(tcp: Option<&str>, uds: Option<&str>) -> Config {
    Config {
        http_listen: "127.0.0.1:8080".to_string(),
        tcp_listen: "0.0.0.0:8888".to_string(),
        target_tcp: tcp.map(|s| s.to_string()),
        target_uds: uds.map(|s| s.to_string()),
    }
}

#[test]
fn validation_needs_exactly_one_target() {
    assert_eq!(config(Some("10.0.0.1:9000"), None).validate(), Ok(()));
    assert_eq!(config(None, Some("/run/app.sock")).validate(), Ok(()));
    assert_eq!(
        config(Some("a"), Some("b")).validate(),
        Err("Both SIDECAR_TARGET_TCP and SIDECAR_TARGET_UDS are set. Please specify only one.".to_string())
    );
    assert_eq!(
        config(None, None).validate(),
        Err("No proxy target specified. Please set either SIDECAR_TARGET_TCP or SIDECAR_TARGET_UDS.".to_string())
    );
}

#[test]
fn config_descriptions() {
    assert_eq!(config(Some("10.0.0.1:9000"), Some("/s")).describe(), "HTTP Listen: 127.0.0.1:8080, TCP Listen: 0.0.0.0:8888, Target: 10.0.0.1:9000");
    assert_eq!(config(None, Some("/s")).describe(), "HTTP Listen: 127.0.0.1:8080, TCP Listen: 0.0.0.0:8888, Target: /s");
    assert_eq!(config(None, None).describe(), "HTTP Listen: 127.0.0.1:8080, TCP Listen: 0.0.0.0:8888, Target: None");
}

#[test]
fn upstream_choice() {
    match upstream_target(&config(Some("t"), Some("u"))) {
        Ok(UpstreamTarget::Tcp(a)) => assert_eq!(a, "t"),
        _ => panic!(),
    }
    match upstream_target(&config(None, Some("u"))) {
        Ok(UpstreamTarget::Uds(p)) => assert_eq!(p, "u"),
        _ => panic!(),
    }
    match upstream_target(&config(None, None)) {
        Err(m) => assert_eq!(m, "No upstream target configured"),
        _ => panic!(),
    }
}

#[test]
fn health_reports() {
    let h = health_report(1_000, 940);
    assert_eq!(h.status, "ok");
    assert_eq!(h.last_activity_timestamp, 940);
    assert_eq!(h.idle_seconds, 60);
    assert_eq!(health_report(1_000, 2_000).idle_seconds, 0);
}

#[test]
fn activity_is_recorded() {
    assert_eq!(timestamp_from(None), 0);
    assert_eq!(timestamp_from(Some(5)), 5);
    let state = Arc::new(AppState::new());
    let t0 = state.get_last_activity();
    assert!(t0 > 1_600_000_000);
    assert!(current_timestamp() >= t0);
    let stream = ActivityStream::new(0u8, state.clone());
    assert!(!stream.record_read(0));
    assert!(stream.record_write(3));
    assert!(stream.record_read(1));
    assert!(!stream.record_write(0));
    state.update_activity();
    assert!(state.get_last_activity() >= t0);
}
