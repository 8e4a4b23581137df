use dashboard_auth::basic_auth::{basic_auth_ok, check_decoded_credentials, needs_basic_auth};

#[test]
fn basic_auth_configured_when_user_or_password_set() {
    assert!(!needs_basic_auth("", ""));
    assert!(needs_basic_auth("admin", ""));
    assert!(needs_basic_auth("", "secret"));
    assert!(needs_basic_auth("admin", "secret"));
}

// "admin:changeme" in standard Base64
const ADMIN_CHANGEME: &str = "YWRtaW46Y2hhbmdlbWU=";

#[test]
fn basic_auth_accepts_matching_credentials() {
    let h = format!("Basic {}", ADMIN_CHANGEME);
    assert!(basic_auth_ok("admin", "changeme", Some(&h)));
    let lower = format!("basic {}", ADMIN_CHANGEME);
    assert!(basic_auth_ok("admin", "changeme", Some(&lower)));
    let padded = format!("Basic   {}  ", ADMIN_CHANGEME);
    assert!(basic_auth_ok("admin", "changeme", Some(&padded)));
}

#[test]
fn basic_auth_refuses_other_credentials() {
    let h = format!("Basic {}", ADMIN_CHANGEME);
    assert!(!basic_auth_ok("admin", "other", Some(&h)));
    assert!(!basic_auth_ok("root", "changeme", Some(&h)));
    assert!(!basic_auth_ok("admin", "changeme", None));
    assert!(!basic_auth_ok("admin", "changeme", Some("Bearer YWRtaW46Y2hhbmdlbWU=")));
    assert!(!basic_auth_ok("admin", "changeme", Some("BASIC YWRtaW46Y2hhbmdlbWU=")));
    assert!(!basic_auth_ok("admin", "changeme", Some("Basic !!!not-base64!!!")));
    // "adminchangeme": no colon
    assert!(!basic_auth_ok("adminchangeme", "", Some("Basic YWRtaW5jaGFuZ2VtZQ==")));
}

#[test]
fn basic_auth_splits_at_the_first_colon() {
    // "admin:pa:ss"
    let h = "Basic YWRtaW46cGE6c3M=";
    assert!(basic_auth_ok("admin", "pa:ss", Some(h)));
    assert!(!basic_auth_ok("admin:pa", "ss", Some(h)));
}

#[test]
fn decoded_credentials_check() {
    assert!(check_decoded_credentials(b"u:p".to_vec(), "u", "p"));
    assert!(check_decoded_credentials(b":".to_vec(), "", ""));
    assert!(!check_decoded_credentials(b"u".to_vec(), "u", ""));
    assert!(!check_decoded_credentials(vec![0xff, b':', b'p'], "\u{fffd}", "p"));
    assert!(check_decoded_credentials("ü:ß".as_bytes().to_vec(), "ü", "ß"));
}
