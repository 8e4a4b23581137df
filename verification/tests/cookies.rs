use dashboard_auth::cookie::{
    extract_cookie, session_cookie, wa_state_clear_cookie, wa_state_cookie, COOKIE_NAME,
    SESSION_TTL_SECS, WA_STATE_COOKIE_NAME,
};

#[test]
fn extract_single_cookie() {
    assert_eq!(
        extract_cookie(Some("orbien_session=abc123"), "orbien_session"),
        Some("abc123".to_string())
    );
}

#[test]
fn extract_among_several_with_spaces() {
    let header = "theme=dark;  orbien_session=tok ; lang=en";
    assert_eq!(extract_cookie(Some(header), "orbien_session"), Some("tok".to_string()));
    assert_eq!(extract_cookie(Some(header), "lang"), Some("en".to_string()));
    assert_eq!(extract_cookie(Some(header), "theme"), Some("dark".to_string()));
}

#[test]
fn extract_missing_cookie() {
    assert_eq!(extract_cookie(Some("theme=dark; lang=en"), "orbien_session"), None);
    assert_eq!(extract_cookie(None, "orbien_session"), None);
    assert_eq!(extract_cookie(Some(""), "orbien_session"), None);
}

#[test]
fn extract_needs_the_equals_sign_right_after_the_name() {
    assert_eq!(extract_cookie(Some("orbien_session_old=1"), "orbien_session"), None);
    assert_eq!(extract_cookie(Some("orbien_session"), "orbien_session"), None);
    assert_eq!(
        extract_cookie(Some("orbien_session_old=1;orbien_session=2"), "orbien_session"),
        Some("2".to_string())
    );
}

#[test]
fn extract_first_match_wins_and_empty_value() {
    assert_eq!(extract_cookie(Some("a=1; a=2"), "a"), Some("1".to_string()));
    assert_eq!(extract_cookie(Some("a=; b=2"), "a"), Some("".to_string()));
    assert_eq!(extract_cookie(Some("a=x=y"), "a"), Some("x=y".to_string()));
}

#[test]
fn extract_trims_unicode_whitespace() {
    assert_eq!(extract_cookie(Some("\u{3000}a=1\u{a0}"), "a"), Some("1".to_string()));
    assert_eq!(extract_cookie(Some("\ta=1\n"), "a"), Some("1".to_string()));
}

#[test]
fn session_cookie_values() {
    assert_eq!(
        session_cookie("deadbeef", false),
        "orbien_session=deadbeef; HttpOnly; Path=/; SameSite=Strict; Max-Age=28800"
    );
    assert_eq!(
        session_cookie("ignored", true),
        "orbien_session=; HttpOnly; Path=/; SameSite=Strict; Max-Age=0"
    );
    assert_eq!(SESSION_TTL_SECS, 8 * 3600);
    assert_eq!(COOKIE_NAME, "orbien_session");
}

#[test]
fn wa_state_cookie_values() {
    assert_eq!(
        wa_state_cookie("k-1"),
        "orbien_wa_state=k-1; HttpOnly; Path=/api/v1/auth; SameSite=Strict; Max-Age=120"
    );
    assert_eq!(
        wa_state_clear_cookie(),
        "orbien_wa_state=; HttpOnly; Path=/api/v1/auth; Max-Age=0"
    );
    assert_eq!(WA_STATE_COOKIE_NAME, "orbien_wa_state");
}

#[test]
fn minted_session_cookie_reads_back() {
    let token = dashboard_auth::token::random_token();
    let set_cookie = session_cookie(&token, false);
    assert_eq!(extract_cookie(Some(&set_cookie), COOKIE_NAME), Some(token.clone()));
    let sent_back = format!("orbien_session={}", token);
    assert_eq!(extract_cookie(Some(&sent_back), COOKIE_NAME), Some(token));
}
