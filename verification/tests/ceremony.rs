use dashboard_auth::auth_state::{AuthState, PasskeyRecord};
use dashboard_auth::cookie::extract_cookie;
use dashboard_auth::routes::{
    complete_login, keep_login_challenge, keep_passkey, keep_registration, registration_request,
    webauthn_login_begin, webauthn_register_begin, RegBeginReq, RouteError,
};
use webauthn_rs::prelude::{
    AttestationFormat, AuthenticationResult, COSEAlgorithm, COSEEC2Key, COSEKey, COSEKeyType,
    ECDSACurve, Passkey, ParsedAttestation, RequestChallengeResponse,
};

fn state() -> AuthState {
    match AuthState::new("localhost", "http://localhost:8020") {
        Ok(s) => s,
        Err(e) => panic!("setup failed: {:?}", e),
    }
}

fn rec(id: &[u8], data: &[u8]) -> PasskeyRecord {
    PasskeyRecord { cred_id: id.to_vec(), data: data.to_vec() }
}

fn request_challenge() -> RequestChallengeResponse {
    serde_json::from_str(
        r#"{"publicKey":{"challenge":"AAAA","rpId":"localhost","allowCredentials":[],"userVerification":"preferred"}}"#,
    )
    .expect("challenge json")
}

#[test]
fn registration_user_id_depends_on_the_name_only() {
    let mut s = state();
    let alice = RegBeginReq { username: "alice".to_string() };
    let bob = RegBeginReq { username: "bob".to_string() };
    let first = webauthn_register_begin(Some(&mut s), &alice).expect("begin");
    let again = webauthn_register_begin(Some(&mut s), &alice).expect("begin");
    let other = webauthn_register_begin(Some(&mut s), &bob).expect("begin");
    let id1: &[u8] = first.data.public_key.user.id.as_ref();
    let id2: &[u8] = again.data.public_key.user.id.as_ref();
    let id3: &[u8] = other.data.public_key.user.id.as_ref();
    assert_eq!(id1.len(), 16);
    assert_eq!(id1, id2);
    assert_ne!(id1, id3);
    assert_ne!(id1, b"alice".as_slice());
    assert_eq!(first.data.public_key.user.name, "alice");
}

#[test]
fn registration_excludes_the_users_credentials() {
    let mut s = state();
    s.store_passkey("alice", rec(b"k1", b"p1"));
    s.store_passkey("alice", rec(b"k2", b"p2"));
    s.store_passkey("bob", rec(b"k3", b"p3"));
    let body = RegBeginReq { username: "alice".to_string() };
    let resp = webauthn_register_begin(Some(&mut s), &body).expect("begin");
    let excluded: Vec<Vec<u8>> = resp
        .data
        .public_key
        .exclude_credentials
        .unwrap_or_default()
        .iter()
        .map(|d| {
            let id: &[u8] = d.id.as_ref();
            id.to_vec()
        })
        .collect();
    assert_eq!(excluded, vec![b"k1".to_vec(), b"k2".to_vec()]);
}

#[test]
fn keep_registration_stores_or_fails() {
    let mut s = state();
    let begun = webauthn_register_begin(Some(&mut s), &RegBeginReq { username: "x".to_string() })
        .expect("begin");
    assert_eq!(
        keep_registration(&mut s, "bob", None).err(),
        Some(RouteError::RegistrationInitFailed)
    );
    assert!(s.take_reg_state("bob").is_none());
    let resp = keep_registration(&mut s, "bob", Some((begun.data, b"state".to_vec())))
        .expect("kept");
    assert_eq!(resp.code, 200);
    assert_eq!(resp.msg, "");
    assert_eq!(s.take_reg_state("bob"), Some(b"state".to_vec()));
}

#[test]
fn keep_passkey_stores_or_fails() {
    let mut s = state();
    assert_eq!(
        keep_passkey(&mut s, "alice", None).err(),
        Some(RouteError::RegistrationVerificationFailed)
    );
    assert!(s.passkeys_for("alice").is_empty());
    let resp = keep_passkey(&mut s, "alice", Some(rec(b"k", b"p"))).expect("stored");
    assert_eq!(resp.code, 200);
    let stored = s.passkeys_for("alice");
    assert_eq!(stored.len(), 1);
    assert_eq!(stored[0].cred_id, b"k".to_vec());
    assert_eq!(stored[0].data, b"p".to_vec());
}

#[test]
fn keep_login_challenge_sets_the_state_cookie() {
    let mut s = state();
    let res = keep_login_challenge(&mut s, request_challenge(), b"pending".to_vec(), "key-1");
    assert_eq!(res.challenge.code, 200);
    assert_eq!(res.challenge.msg, "");
    assert_eq!(res.challenge.data.public_key.rp_id, "localhost");
    assert_eq!(
        res.set_cookie,
        "orbien_wa_state=key-1; HttpOnly; Path=/api/v1/auth; SameSite=Strict; Max-Age=120"
    );
    assert_eq!(s.take_auth_state("key-1"), Some(b"pending".to_vec()));
}

fn auth_result(cred_b64: &str) -> Vec<u8> {
    let r: AuthenticationResult = serde_json::from_str(&format!(
        r#"{{"cred_id":"{}","needs_update":false,"user_verified":true,"backup_state":false,"backup_eligible":false,"counter":5,"extensions":{{}}}}"#,
        cred_b64
    ))
    .expect("result json");
    serde_json::to_vec(&r).expect("result bytes")
}

#[test]
fn complete_login_refuses_a_failed_check() {
    let mut s = state();
    s.store_passkey("alice", rec(b"k", b"old"));
    let before = s.create_session("bob");
    assert_eq!(complete_login(&mut s, None).err(), Some(RouteError::AuthenticationFailed));
    assert_eq!(s.passkeys_for("alice")[0].data, b"old".to_vec());
    assert_eq!(s.validate_session(&before), Some("bob".to_string()));
}

#[test]
fn complete_login_opens_a_session_for_the_credentials_owner() {
    let mut s = state();
    s.store_passkey("alice", rec(b"k", b"old"));
    s.store_passkey("alice", rec(b"j", b"other"));
    s.store_passkey("bob", rec(b"m", b"bob"));
    // "aw" is the base64url form of the credential id "k"
    let done = complete_login(&mut s, Some((b"k".to_vec(), auth_result("aw")))).expect("login");
    assert_eq!(done.username, "alice");
    assert_eq!(done.clear_state_cookie, "orbien_wa_state=; HttpOnly; Path=/api/v1/auth; Max-Age=0");
    // the stored forms here are not passkeys, so nothing can be refreshed
    // and every record stays as it was
    let alice = s.passkeys_for("alice");
    assert_eq!(alice.len(), 2);
    assert_eq!(alice[0].data, b"old".to_vec());
    assert_eq!(alice[1].data, b"other".to_vec());
    assert_eq!(s.passkeys_for("bob")[0].data, b"bob".to_vec());
    let token = extract_cookie(Some(&done.session_cookie), "orbien_session").expect("token");
    assert_eq!(token.len(), 64);
    assert_eq!(s.validate_session(&token), Some("alice".to_string()));
}

#[test]
fn complete_login_for_an_unknown_credential_logs_in_admin() {
    let mut s = state();
    s.store_passkey("alice", rec(b"j", b"other"));
    let done = complete_login(&mut s, Some((b"k".to_vec(), auth_result("aw")))).expect("login");
    assert_eq!(done.username, "admin");
    let token = extract_cookie(Some(&done.session_cookie), "orbien_session").expect("token");
    assert_eq!(s.validate_session(&token), Some("admin".to_string()));
}

#[test]
fn registration_request_is_built_from_the_username() {
    let mut s = state();
    s.store_passkey("alice", rec(b"k1", b"p1"));
    s.store_passkey("bob", rec(b"k2", b"p2"));
    let req = registration_request(&s, "alice");
    assert_eq!(req.user_name, "alice");
    assert_eq!(req.display_name, "alice");
    assert_eq!(req.exclude, vec![b"k1".to_vec()]);
    assert_eq!(req.user_id, registration_request(&s, "alice").user_id);
    assert_ne!(req.user_id, registration_request(&s, "bob").user_id);
    assert_eq!(req.user_id[6] >> 4, 5);
    assert_eq!(req.user_id[8] >> 6, 2);
}

#[test]
fn registration_with_an_empty_name_fails_to_start() {
    let mut s = state();
    let body = RegBeginReq { username: String::new() };
    assert_eq!(
        webauthn_register_begin(Some(&mut s), &body).err(),
        Some(RouteError::RegistrationInitFailed)
    );
    assert!(s.take_reg_state("").is_none());
}

/// The JSON of a passkey with credential id "k" and counter 1.
fn stored_passkey() -> Vec<u8> {
    let key = COSEKey {
        type_: COSEAlgorithm::ES256,
        key: COSEKeyType::EC_EC2(COSEEC2Key {
            curve: ECDSACurve::SECP256R1,
            x: vec![1u8; 32].into(),
            y: vec![2u8; 32].into(),
        }),
    };
    let text = format!(
        r#"{{"cred":{{"cred_id":"aw","cred":{},"counter":1,"transports":null,"user_verified":true,"backup_eligible":false,"backup_state":false,"registration_policy":"required","extensions":{{}},"attestation":{},"attestation_format":{}}}}}"#,
        serde_json::to_string(&key).expect("key json"),
        serde_json::to_string(&ParsedAttestation::default()).expect("attestation json"),
        serde_json::to_string(&AttestationFormat::None).expect("format json"),
    );
    let passkey: Passkey = serde_json::from_str(&text).expect("passkey json");
    serde_json::to_vec(&passkey).expect("passkey bytes")
}

fn counter_of(data: &[u8]) -> u64 {
    let v: serde_json::Value = serde_json::from_slice(data).expect("stored json");
    v["cred"]["counter"].as_u64().expect("counter")
}

#[test]
fn complete_login_refreshes_each_matching_passkey() {
    let mut s = state();
    let stored = stored_passkey();
    assert_eq!(counter_of(&stored), 1);
    s.store_passkey("alice", rec(b"k", &stored));
    s.store_passkey("alice", rec(b"j", b"other"));
    s.store_passkey("bob", rec(b"k", &stored));
    let done = complete_login(&mut s, Some((b"k".to_vec(), auth_result("aw")))).expect("login");
    // the last passkey met with the credential id belongs to bob or alice,
    // in the map's order; both were refreshed to the result's counter
    assert!(done.username == "alice" || done.username == "bob");
    let alice = s.passkeys_for("alice");
    assert_eq!(alice[0].cred_id, b"k".to_vec());
    assert_eq!(counter_of(&alice[0].data), 5);
    assert_eq!(alice[1].data, b"other".to_vec());
    assert_eq!(counter_of(&s.passkeys_for("bob")[0].data), 5);
}

#[test]
fn login_begin_succeeds_when_every_passkey_reads() {
    let mut s = state();
    s.store_passkey("alice", rec(b"k", &stored_passkey()));
    let started = webauthn_login_begin(Some(&mut s)).expect("login begin");
    assert_eq!(started.challenge.code, 200);
    assert_eq!(started.challenge.data.public_key.allow_credentials.len(), 1);
    let key = started
        .set_cookie
        .strip_prefix("orbien_wa_state=")
        .and_then(|r| r.strip_suffix("; HttpOnly; Path=/api/v1/auth; SameSite=Strict; Max-Age=120"))
        .expect("cookie shape")
        .to_string();
    assert_eq!(key.len(), 36);
    assert!(s.take_auth_state(&key).is_some());
    s.store_passkey("bob", rec(b"m", b"not a passkey"));
    assert_eq!(webauthn_login_begin(Some(&mut s)).err(), Some(RouteError::AuthenticationInitFailed));
}
