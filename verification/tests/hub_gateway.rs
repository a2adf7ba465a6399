use workshop_hub::hub::auth::{
    begin_login, identity_from_claims, login_failed_to_sign, login_succeeded, sanitize_username,
    finish_login, session_token, validate_cookie, validate_cookie_at, LoginRequest, COOKIE_NAME,
};
use workshop_hub::hub::error::HubError;
use workshop_hub::hub::proxy::{extract_subdomain, route_after_pod, route_request, RouteStep, Upstream};
use workshop_hub::hub::auth::UserIdentity;

#[test]
fn subdomains_from_host_headers() {
    assert_eq!(extract_subdomain("llm-embeddings.aiv.local").as_deref(), Some("llm-embeddings"));
    assert_eq!(extract_subdomain("llm-embeddings.aiv.local:8080").as_deref(), Some("llm-embeddings"));
    assert_eq!(extract_subdomain("aiv.local"), None);
    assert_eq!(extract_subdomain("aiv.local:8080"), None);
    assert_eq!(extract_subdomain("localhost"), None);
    assert_eq!(extract_subdomain(".aiv.local"), None);
    assert_eq!(extract_subdomain("a.b:c.d"), None);
    assert_eq!(extract_subdomain(""), None);
}

#[test]
fn sanitizing_usernames() {
    assert_eq!(sanitize_username("Alice"), "alice");
    assert_eq!(sanitize_username("Bob Smith!"), "bobsmith");
    assert_eq!(sanitize_username("a-b_C.d"), "a-b_cd");
    assert_eq!(sanitize_username("Émile"), "émile");
    assert_eq!(sanitize_username("!!!"), "");
}

#[test]
fn login_outcomes() {
    match begin_login(&LoginRequest::new("Bob!".to_string()), 1000) {
        Err(resp) => {
            assert!(!resp.success());
            assert_eq!(resp.message(), "Username must be at least 4 characters (alphanumeric only).");
            assert!(resp.redirect().is_none());
        }
        Ok(_) => panic!("a three-letter name must be refused"),
    }
    // the rule counts characters, not bytes
    assert!(begin_login(&LoginRequest::new("ééé".to_string()), 0).is_err());
    assert!(begin_login(&LoginRequest::new("éééé".to_string()), 0).is_ok());
    match begin_login(&LoginRequest::new("Alice W.".to_string()), 1000) {
        Ok(claims) => {
            assert_eq!(claims.sub, "user-alicew");
            assert_eq!(claims.username, "Alice W.");
            assert_eq!(claims.iat, 1000);
            assert_eq!(claims.exp, 1000 + 86400);
            let id = identity_from_claims(claims);
            assert_eq!(id.user_id, "user-alicew");
            assert_eq!(id.username, "Alice W.");
        }
        Err(_) => panic!("expected claims"),
    }
    let ok = login_succeeded();
    assert!(ok.success());
    assert_eq!(ok.message(), "Login successful");
    assert_eq!(ok.redirect().map(|s| s.as_str()), Some("/"));
    let bad = login_failed_to_sign();
    assert!(!bad.success());
    assert_eq!(bad.message(), "Authentication error");
    assert_eq!(LoginRequest::new("x".to_string()).get_username(), "x");
}

#[test]
fn session_tokens_from_cookies() {
    assert_eq!(COOKIE_NAME, "workshop_token");
    assert_eq!(session_token("a=1; workshop_token=abc.def; b=2").as_deref(), Some("abc.def"));
    assert_eq!(session_token("workshop_token=first; workshop_token=second").as_deref(), Some("first"));
    assert_eq!(session_token("a=1; b=2"), None);
    assert_eq!(session_token(""), None);
    assert_eq!(session_token("=orphan; workshop_token=after").as_deref(), Some("after"));
}

fn user() -> Option<UserIdentity> {
    Some(UserIdentity { user_id: "user-bob".to_string(), username: "bob".to_string() })
}

fn done(step: RouteStep) -> (bool, Option<String>) {
    match step {
        RouteStep::Done(r) => (matches!(r.upstream, Upstream::Local), r.rewrite),
        RouteStep::NeedPod(_) => panic!("expected a decision"),
    }
}

#[test]
fn routing_without_login() {
    assert_eq!(done(route_request("/workshop-login", None, "llm.aiv.local", &None)), (true, None));
    assert_eq!(done(route_request("/public/app.css", None, "aiv.local", &None)), (true, None));
    assert_eq!(done(route_request("/assets/x.js", None, "aiv.local", &None)), (true, None));
    assert_eq!(done(route_request("/health", None, "aiv.local", &None)), (true, None));
    assert_eq!(done(route_request("/", None, "llm.aiv.local", &None)), (true, Some("/workshop-login".to_string())));
}

#[test]
fn routing_with_login() {
    match route_request("/x", None, "llm.aiv.local:8080", &user()) {
        RouteStep::NeedPod(w) => assert_eq!(w, "llm"),
        _ => panic!("expected a pod request"),
    }
    assert_eq!(done(route_request("/", Some("a=1"), "aiv.local", &user())), (true, Some("/index?a=1".to_string())));
    assert_eq!(done(route_request("/", None, "aiv.local", &user())), (true, Some("/index".to_string())));
    assert_eq!(done(route_request("/", Some("a b"), "aiv.local", &user())), (true, Some("/index".to_string())));
    assert_eq!(done(route_request("/other", None, "aiv.local", &user())), (true, None));
}

fn rewrite_after(outcome: Result<String, HubError>) -> Option<String> {
    let r = route_after_pod("llm", outcome);
    assert!(matches!(r.upstream, Upstream::Local));
    r.rewrite
}

#[test]
fn routing_after_pod_request() {
    let r = route_after_pod("llm", Ok("http://10.0.0.1:8888".to_string()));
    match r.upstream {
        Upstream::Workshop(u) => assert_eq!(u, "http://10.0.0.1:8888"),
        Upstream::Local => panic!("expected the workshop pod"),
    }
    assert!(r.rewrite.is_none());
    assert_eq!(rewrite_after(Err(HubError::PodLimitReached)).as_deref(), Some("/workshop-at-capacity/llm"));
    assert_eq!(rewrite_after(Err(HubError::PodNotReady)).as_deref(), Some("/workshop-pending/llm"));
    assert_eq!(rewrite_after(Err(HubError::WorkshopNotFound)).as_deref(), Some("/error-404"));
    assert_eq!(rewrite_after(Err(HubError::Error("no disk & more".to_string()))).as_deref(), Some("/workshop-error/llm?message=no+disk+%26+more"));
    assert_eq!(
        rewrite_after(Err(HubError::KubeError { operation: "create".to_string(), message: "denied".to_string() })).as_deref(),
        Some("/workshop-error/llm?message=Kubernetes+API+error+during+create%3A+denied")
    );
    // a workshop name that is no valid URI path falls back to the generic page
    assert_eq!(route_after_pod("a b", Err(HubError::PodNotReady)).rewrite.as_deref(), Some("/workshop-error"));
}

#[test]
fn error_answers() {
    let (code, msg) = HubError::PodNotReady.status_and_message();
    assert_eq!((code, msg.as_str()), (504, "Workshop failed to start"));
    let (code, msg) = HubError::PodLimitReached.status_and_message();
    assert_eq!((code, msg.as_str()), (503, "Service is at capacity, please try again later"));
    let (code, msg) = HubError::KubeError { operation: "x".to_string(), message: "y".to_string() }.status_and_message();
    assert_eq!((code, msg.as_str()), (500, "Internal server error"));
    assert_eq!(HubError::WorkshopNotFound.status_and_message().0, 500);
    assert_eq!(HubError::Error("e".to_string()).status_and_message().0, 500);
    assert_eq!(HubError::KubeError { operation: "populate".to_string(), message: "boom".to_string() }.describe(), "Kubernetes API error during populate: boom");
    assert_eq!(HubError::PodNotReady.describe(), "Pod failed to become ready in time");
    assert_eq!(HubError::PodLimitReached.describe(), "Global pod limit reached");
}

#[test]
fn login_token_round_trip() {
    let (resp, token) = finish_login(&LoginRequest::new("Bob".to_string()), 1000);
    assert!(!resp.success());
    assert!(token.is_none());

    let (resp, token) = finish_login(&LoginRequest::new("Alice W.".to_string()), 1000);
    assert!(resp.success());
    assert_eq!(resp.message(), "Login successful");
    assert_eq!(resp.redirect().map(|s| s.as_str()), Some("/"));
    let token = token.expect("a successful login hands out a token");
    assert_eq!(token.split('.').count(), 3);

    let header = format!("theme=dark; {}={}", COOKIE_NAME, token);
    let id = validate_cookie_at(&header, 2000).expect("a fresh token identifies its user");
    assert_eq!(id.user_id, "user-alicew");
    assert_eq!(id.username, "Alice W.");
    // valid until a day and a minute after the login
    assert!(validate_cookie_at(&header, 1000 + 86400 + 60).is_some());
    assert!(validate_cookie_at(&header, 1000 + 86400 + 61).is_none());
    // a token issued long ago has expired by now
    assert!(validate_cookie(&header).is_none());
    // a tampered token is refused
    let bad = format!("{}={}x", COOKIE_NAME, token);
    assert!(validate_cookie_at(&bad, 2000).is_none());
    // no session cookie, no user
    assert!(validate_cookie_at("theme=dark", 2000).is_none());
    assert!(validate_cookie("").is_none());
}

#[test]
fn fresh_login_validates_now() {
    let now = std::time::SystemTime::now()
        .duration_since(std::time::UNIX_EPOCH)
        .unwrap()
        .as_secs() as i64;
    let (_, token) = finish_login(&LoginRequest::new("carol".to_string()), now);
    let header = format!("{}={}", COOKIE_NAME, token.unwrap());
    let id = validate_cookie(&header).expect("a token issued now is valid now");
    assert_eq!(id.user_id, "user-carol");
}

#[test]
fn error_page_query_is_form_encoded() {
    assert_eq!(
        rewrite_after(Err(HubError::Error("a b/é*-._~".to_string()))).as_deref(),
        Some("/workshop-error/llm?message=a+b%2F%C3%A9*-._%7E"),
    );
}
