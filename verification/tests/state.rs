use dashboard_auth::auth_state::{session_is_live, AuthInitError, AuthState, PasskeyRecord, Session};
use dashboard_auth::token::random_token;

const TTL_NANOS: u128 = 8 * 3600 * 1_000_000_000;

fn state() -> AuthState {
    match AuthState::new("localhost", "http://localhost:8020") {
        Ok(s) => s,
        Err(e) => panic!("setup failed: {:?}", e),
    }
}

fn rec(id: &[u8], data: &[u8]) -> PasskeyRecord {
    PasskeyRecord { cred_id: id.to_vec(), data: data.to_vec() }
}

fn views(v: &[PasskeyRecord]) -> Vec<(Vec<u8>, Vec<u8>)> {
    v.iter().map(|r| (r.cred_id.clone(), r.data.clone())).collect()
}

#[test]
fn new_checks_origin_and_relying_party() {
    assert!(AuthState::new("localhost", "http://localhost:8020").is_ok());
    assert!(AuthState::new("example.com", "https://idm.example.com").is_ok());
    assert!(AuthState::new("example.com", "https://myexample.com").is_err());
    assert!(AuthState::new("localhost", "http://127.0.0.1:8020").is_err());
    match AuthState::new("localhost", "not a url").err() {
        Some(AuthInitError::InvalidOrigin(msg)) => assert_eq!(msg, "relative URL without a base"),
        other => panic!("unexpected: {:?}", other),
    }
    match AuthState::new("example.com", "https://other.org").err() {
        Some(AuthInitError::InvalidRelyingParty(_)) => {}
        other => panic!("unexpected: {:?}", other),
    }
}

#[test]
fn random_tokens_are_hex_and_fresh() {
    let a = random_token();
    let b = random_token();
    assert_eq!(a.len(), 64);
    assert!(a.chars().all(|c| c.is_ascii_digit() || ('a'..='f').contains(&c)));
    assert_ne!(a, b);
}

#[test]
fn created_session_validates_and_ends() {
    let mut s = state();
    let token = s.create_session("alice");
    assert_eq!(token.len(), 64);
    assert_eq!(s.validate_session(&token), Some("alice".to_string()));
    assert_eq!(s.validate_session("unknown"), None);
    s.remove_session(&token);
    assert_eq!(s.validate_session(&token), None);
}

#[test]
fn session_lifetime_boundaries() {
    let mut s = state();
    s.insert_session("t", "bob", 1000);
    assert_eq!(s.validate_session_at("t", 1000), Some("bob".to_string()));
    assert_eq!(s.validate_session_at("t", 1000 + TTL_NANOS), Some("bob".to_string()));
    assert_eq!(s.validate_session_at("t", 1001 + TTL_NANOS), None);
    // the expired session was dropped
    assert_eq!(s.validate_session_at("t", 1000), None);
}

#[test]
fn inserting_evicts_expired_sessions() {
    let mut s = state();
    s.insert_session("old", "a", 0);
    s.insert_session("mid", "b", 10);
    s.insert_session("new", "c", TTL_NANOS + 5);
    assert_eq!(s.validate_session_at("old", 0), None);
    assert_eq!(s.validate_session_at("mid", 10), Some("b".to_string()));
    assert_eq!(s.validate_session_at("new", 10), Some("c".to_string()));
}

#[test]
fn evict_expired_at_keeps_live_sessions() {
    let mut s = state();
    s.insert_session("x", "a", 0);
    s.insert_session("y", "b", 100);
    s.evict_expired_at(TTL_NANOS + 50);
    assert_eq!(s.validate_session_at("x", 0), None);
    assert_eq!(s.validate_session_at("y", 100), Some("b".to_string()));
}

#[test]
fn session_liveness() {
    let sess = Session { username: "u".to_string(), created: 5 };
    assert!(session_is_live(&sess, 5));
    assert!(session_is_live(&sess, 0));
    assert!(session_is_live(&sess, 5 + TTL_NANOS));
    assert!(!session_is_live(&sess, 6 + TTL_NANOS));
}

#[test]
fn passkeys_store_list_and_update() {
    let mut s = state();
    assert!(s.passkeys_for("alice").is_empty());
    s.store_passkey("alice", rec(b"k1", b"one"));
    s.store_passkey("alice", rec(b"k2", b"two"));
    s.store_passkey("bob", rec(b"k3", b"three"));
    assert_eq!(
        views(&s.passkeys_for("alice")),
        vec![(b"k1".to_vec(), b"one".to_vec()), (b"k2".to_vec(), b"two".to_vec())]
    );
    let mut all = views(&s.all_passkeys());
    all.sort();
    assert_eq!(
        all,
        vec![
            (b"k1".to_vec(), b"one".to_vec()),
            (b"k2".to_vec(), b"two".to_vec()),
            (b"k3".to_vec(), b"three".to_vec()),
        ]
    );
    s.update_passkey("alice", &rec(b"k2", b"two-updated"));
    assert_eq!(
        views(&s.passkeys_for("alice")),
        vec![(b"k1".to_vec(), b"one".to_vec()), (b"k2".to_vec(), b"two-updated".to_vec())]
    );
    // an unknown user or credential changes nothing
    s.update_passkey("carol", &rec(b"k1", b"x"));
    assert!(s.passkeys_for("carol").is_empty());
    s.update_passkey("bob", &rec(b"k9", b"x"));
    assert_eq!(views(&s.passkeys_for("bob")), vec![(b"k3".to_vec(), b"three".to_vec())]);
}

#[test]
fn credential_holders_finds_matching_passkeys() {
    let mut s = state();
    s.store_passkey("alice", rec(b"k1", b"one"));
    s.store_passkey("bob", rec(b"k2", b"two"));
    let holders = s.credential_holders(b"k2");
    assert_eq!(holders.len(), 1);
    assert_eq!(holders[0].0, "bob");
    assert_eq!(holders[0].1.data, b"two".to_vec());
    assert!(s.credential_holders(b"zz").is_empty());
}

#[test]
fn pending_states_are_taken_once() {
    let mut s = state();
    s.save_reg_state("alice", b"reg".to_vec());
    s.save_auth_state("key", b"auth".to_vec());
    assert_eq!(s.take_reg_state("bob"), None);
    assert_eq!(s.take_reg_state("alice"), Some(b"reg".to_vec()));
    assert_eq!(s.take_reg_state("alice"), None);
    assert_eq!(s.take_auth_state("key"), Some(b"auth".to_vec()));
    assert_eq!(s.take_auth_state("key"), None);
    s.save_reg_state("alice", b"first".to_vec());
    s.save_reg_state("alice", b"second".to_vec());
    assert_eq!(s.take_reg_state("alice"), Some(b"second".to_vec()));
}
