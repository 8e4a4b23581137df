use dashboard_auth::auth_state::AuthState;
use dashboard_auth::access::{auth_middleware, is_public_route, session_grants, Access};

fn state() -> AuthState {
    match AuthState::new("localhost", "http://localhost:8020") {
        Ok(s) => s,
        Err(e) => panic!("setup failed: {:?}", e),
    }
}

// "admin:changeme"
const BASIC: &str = "Basic YWRtaW46Y2hhbmdlbWU=";

#[test]
fn public_routes() {
    assert!(is_public_route("/api/v1/auth/login"));
    assert!(is_public_route("/healthz"));
    assert!(is_public_route("/"));
    assert!(is_public_route("/assets/app.js"));
    assert!(is_public_route("/api"));
    assert!(!is_public_route("/api/v1/proxies"));
    assert!(!is_public_route("/api/v1/auth"));
    assert!(!is_public_route("/api/"));
    assert!(is_public_route("/healthz/x"));
    assert!(!is_public_route("/api/healthz"));
}

#[test]
fn public_paths_pass_without_credentials() {
    let mut s = state();
    assert_eq!(auth_middleware(Some(&mut s), "/api/v1/auth/login", None, None, "admin", "pw"), Access::Allow);
    assert_eq!(auth_middleware(None, "/healthz", None, None, "admin", "pw"), Access::Allow);
    assert_eq!(auth_middleware(None, "/index.html", None, None, "admin", "pw"), Access::Allow);
}

#[test]
fn session_cookie_opens_the_api() {
    let mut s = state();
    let token = s.create_session("admin");
    let cookie = format!("theme=dark; orbien_session={}", token);
    assert!(session_grants(&mut s, Some(&cookie)));
    assert!(!session_grants(&mut s, Some("orbien_session=nope")));
    assert!(!session_grants(&mut s, None));
    assert_eq!(
        auth_middleware(Some(&mut s), "/api/v1/status", Some(&cookie), None, "admin", "changeme"),
        Access::Allow
    );
    s.remove_session(&token);
    assert_eq!(
        auth_middleware(Some(&mut s), "/api/v1/status", Some(&cookie), None, "admin", "changeme"),
        Access::Deny
    );
}

#[test]
fn basic_auth_fallback() {
    let mut s = state();
    assert_eq!(
        auth_middleware(Some(&mut s), "/api/v1/status", None, Some(BASIC), "admin", "changeme"),
        Access::Allow
    );
    assert_eq!(
        auth_middleware(None, "/api/v1/status", None, Some(BASIC), "admin", "changeme"),
        Access::Allow
    );
    assert_eq!(
        auth_middleware(None, "/api/v1/status", None, Some(BASIC), "admin", "other"),
        Access::Deny
    );
    assert_eq!(auth_middleware(None, "/api/v1/status", None, None, "admin", ""), Access::Deny);
}

#[test]
fn no_credentials_configured_means_open_api() {
    assert_eq!(auth_middleware(None, "/api/v1/status", None, None, "", ""), Access::Allow);
    let mut s = state();
    assert_eq!(
        auth_middleware(Some(&mut s), "/api/v1/status", Some("orbien_session=x"), None, "", ""),
        Access::Allow
    );
}
