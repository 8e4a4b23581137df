use dashboard_auth::auth_state::{AuthState, PasskeyRecord};
use dashboard_auth::cookie::{extract_cookie, session_cookie, COOKIE_NAME};
use dashboard_auth::token::random_token;

const TTL_NANOS: u128 = 8 * 3600 * 1_000_000_000;

fn state() -> AuthState {
    match AuthState::new("localhost", "http://localhost:8020") {
        Ok(s) => s,
        Err(e) => panic!("setup failed: {:?}", e),
    }
}

#[test]
fn law_session_valid_until_expiry() {
    let mut s = state();
    s.insert_session("tok", "alice", 42);
    for now in [42u128, 43, 42 + TTL_NANOS / 2, 42 + TTL_NANOS] {
        assert_eq!(s.validate_session_at("tok", now), Some("alice".to_string()));
    }
}

#[test]
fn law_expired_session_refused_for_good() {
    let mut s = state();
    s.insert_session("tok", "alice", 0);
    assert_eq!(s.validate_session_at("tok", TTL_NANOS + 1), None);
    assert_eq!(s.validate_session_at("tok", 1), None);
}

#[test]
fn law_removed_session_refused() {
    let mut s = state();
    s.insert_session("tok", "alice", 0);
    s.remove_session("tok");
    assert_eq!(s.validate_session_at("tok", 1), None);
}

#[test]
fn law_insert_keeps_other_live_sessions() {
    let mut s = state();
    s.insert_session("a", "alice", 100);
    s.insert_session("b", "bob", 200);
    assert_eq!(s.validate_session_at("a", 300), Some("alice".to_string()));
}

#[test]
fn law_take_after_save() {
    let mut s = state();
    s.save_auth_state("k", vec![1, 2, 3]);
    assert_eq!(s.take_auth_state("k"), Some(vec![1, 2, 3]));
    assert_eq!(s.take_auth_state("k"), None);
}

#[test]
fn law_stored_passkey_listed_last() {
    let mut s = state();
    s.store_passkey("bob", PasskeyRecord { cred_id: vec![9], data: vec![9] });
    s.store_passkey("alice", PasskeyRecord { cred_id: vec![1], data: vec![1] });
    s.store_passkey("alice", PasskeyRecord { cred_id: vec![2], data: vec![2] });
    let list = s.passkeys_for("alice");
    assert_eq!(list.len(), 2);
    assert_eq!(list[1].cred_id, vec![2]);
    assert_eq!(s.passkeys_for("bob").len(), 1);
    assert_eq!(s.all_passkeys().len(), 3);
}

#[test]
fn law_update_keeps_credential_ids() {
    let mut s = state();
    s.store_passkey("alice", PasskeyRecord { cred_id: vec![1], data: vec![1] });
    s.store_passkey("alice", PasskeyRecord { cred_id: vec![2], data: vec![2] });
    s.update_passkey("alice", &PasskeyRecord { cred_id: vec![1], data: vec![7] });
    let ids: Vec<Vec<u8>> = s.passkeys_for("alice").into_iter().map(|r| r.cred_id).collect();
    assert_eq!(ids, vec![vec![1], vec![2]]);
}

#[test]
fn law_session_cookie_read_back() {
    for _ in 0..8 {
        let token = random_token();
        let set = session_cookie(&token, false);
        assert_eq!(extract_cookie(Some(&set), COOKIE_NAME), Some(token.clone()));
    }
}

#[test]
fn law_pending_states_independent() {
    let mut s = state();
    s.save_auth_state("tab-1", vec![1]);
    s.save_auth_state("tab-2", vec![2]);
    assert_eq!(s.take_auth_state("tab-2"), Some(vec![2]));
    assert_eq!(s.take_auth_state("tab-1"), Some(vec![1]));
    s.save_reg_state("alice", vec![3]);
    s.save_reg_state("bob", vec![4]);
    assert_eq!(s.take_reg_state("alice"), Some(vec![3]));
    assert_eq!(s.take_reg_state("bob"), Some(vec![4]));
}

#[test]
fn law_insert_leaves_no_expired() {
    let mut s = state();
    s.insert_session("old", "alice", 0);
    s.insert_session("mid", "bob", 10);
    s.insert_session("new", "carol", TTL_NANOS + 5);
    // "old" expired at the time of the last insertion and was dropped, so it
    // is gone even when asked about at an earlier time.
    assert_eq!(s.validate_session_at("old", 1), None);
    assert_eq!(s.validate_session_at("mid", 11), Some("bob".to_string()));
    assert_eq!(s.validate_session_at("new", TTL_NANOS + 5), Some("carol".to_string()));
}

#[test]
fn law_login_cookie_validates() {
    let mut s = state();
    let token = s.create_session("alice");
    let header = format!("theme=dark; orbien_session={}", token);
    let read = extract_cookie(Some(&header), COOKIE_NAME).expect("cookie");
    assert_eq!(read, token);
    assert_eq!(s.validate_session(&read), Some("alice".to_string()));
}
