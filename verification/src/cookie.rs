//! Cookies: reading one out of a `Cookie` request header, and the
//! `Set-Cookie` values that mint and clear the session and WebAuthn-state
//! cookies.

use vstd::prelude::*;
use vstd::string::*;
use crate::token::{is_lower_hex_digit, is_session_token};
use crate::ceremony::is_uuid_text;
use crate::text::{
    chars_of, find_char, find_char_from, lemma_find_char_bounds, opt_view, range_starts_with,
    string_of_range, trim, trim_range,
};

verus! {

/// Name of the session cookie.
pub const COOKIE_NAME: &'static str = "orbien_session";

/// Name of the cookie that carries the key of a pending WebAuthn login.
pub const WA_STATE_COOKIE_NAME: &'static str = "orbien_wa_state";

/// Lifetime of a session, in seconds (8 hours).
pub const SESSION_TTL_SECS: u64 = 28800;

/// The characters of `"orbien_session"`.
pub open spec fn session_cookie_name() -> Seq<char> {
    seq!['o', 'r', 'b', 'i', 'e', 'n', '_', 's', 'e', 's', 's', 'i', 'o', 'n']
}

/// The characters of `"orbien_wa_state"`.
pub open spec fn wa_state_cookie_name() -> Seq<char> {
    seq!['o', 'r', 'b', 'i', 'e', 'n', '_', 'w', 'a', '_', 's', 't', 'a', 't', 'e']
}

/// Looks through the `;`-separated pairs of `s`, each trimmed, for the first
/// one that starts with `pat`, and gives what follows `pat` in it.
pub open spec fn cookie_lookup(s: Seq<char>, pat: Seq<char>) -> Option<Seq<char>>
    decreases s.len(),
{
    let e = find_char(s, ';');
    let pair = trim(s.take(e));
    if pat.is_prefix_of(pair) {
        Some(pair.skip(pat.len() as int))
    } else if e >= s.len() {
        None
    } else {
        proof {
            lemma_find_char_bounds(s, ';');
        }
        cookie_lookup(s.skip(e + 1), pat)
    }
}

/// The value of cookie `name` in a `Cookie` header (`None` when the header
/// is absent or holds no pair `name=...`).
pub open spec fn cookie_value(header: Option<Seq<char>>, name: Seq<char>) -> Option<Seq<char>> {
    match header {
        Some(h) => cookie_lookup(h, name.push('=')),
        None => None,
    }
}

/// Reads cookie `name` out of the `Cookie` header `cookie_header` (`None`
/// when the request has no such header, or it is not visible ASCII): the
/// first `;`-separated pair that, trimmed, starts with `name=` gives the rest
/// of that pair.
pub fn extract_cookie(cookie_header: Option<&str>, name: &str) -> (res: Option<String>)
    ensures
        res matches Some(v) ==> cookie_value(opt_view(cookie_header), name@) == Some(v@),
        res is None ==> cookie_value(opt_view(cookie_header), name@) is None,
{
    let h = match cookie_header {
        Some(h) => h,
        None => return None,
    };
    let v = chars_of(h);
    let mut pat = chars_of(name);
    pat.push('=');
    let ghost pat_s = pat@;
    assert(pat_s == name@.push('='));
    let mut start: usize = 0;
    assert(v@.skip(0) =~= v@);
    loop
        invariant
            start <= v.len(),
            pat@ == pat_s,
            v@ == h@,
            cookie_value(opt_view(cookie_header), name@) == cookie_lookup(v@, pat_s),
            cookie_lookup(v@, pat_s) == cookie_lookup(v@.skip(start as int), pat_s),
        decreases v.len() - start,
    {
        let e = find_char_from(&v, start, ';');
        let ghost rest = v@.skip(start as int);
        assert(rest =~= v@.subrange(start as int, v.len() as int));
        proof {
            lemma_find_char_bounds(rest, ';');
        }
        assert(rest.take(e - start) =~= v@.subrange(start as int, e as int));
        let (a, b) = trim_range(&v, start, e);
        assert(trim(rest.take(find_char(rest, ';'))) == v@.subrange(a as int, b as int));
        if range_starts_with(&v, a, b, &pat) {
            let out = string_of_range(&v, a + pat.len(), b);
            assert(v@.subrange(a as int, b as int).skip(pat_s.len() as int) =~= v@.subrange(
                a + pat_s.len(),
                b as int,
            ));
            assert(cookie_lookup(rest, pat_s) == Some(out@));
            return Some(out);
        }
        if e == v.len() {
            assert(cookie_lookup(rest, pat_s) is None);
            return None;
        }
        assert(rest.skip(e - start + 1) =~= v@.skip(e + 1));
        start = e + 1;
    }
}

/// `s` may stand in an HTTP header value: every character is a tab or at
/// least a space, and none is DEL.
pub open spec fn header_safe(s: Seq<char>) -> bool {
    forall|i: int|
        0 <= i < s.len() ==> (#[trigger] s[i]) == '\t' || (32 <= (s[i] as u32) && (s[i] as u32)
            != 127)
}

/// Session tokens and the UUID text of state keys may stand in a header.
pub proof fn lemma_tokens_header_safe(t: Seq<char>)
    ensures
        is_session_token(t) ==> header_safe(t),
        is_uuid_text(t) ==> header_safe(t),
{
    if is_session_token(t) {
        assert forall|i: int| 0 <= i < t.len() implies (#[trigger] t[i]) == '\t' || (32 <= (
        t[i] as u32) && (t[i] as u32) != 127) by {
            assert(is_lower_hex_digit(t[i]));
        }
    }
    if is_uuid_text(t) {
        assert forall|i: int| 0 <= i < t.len() implies (#[trigger] t[i]) == '\t' || (32 <= (
        t[i] as u32) && (t[i] as u32) != 127) by {
            assert('0' <= t[i] <= '9' || 'a' <= t[i] <= 'f' || t[i] == '-');
        }
    }
}

/// The `Set-Cookie` value that hands out session `token`, or, with `clear`,
/// the one that deletes the session cookie.
pub open spec fn session_cookie_spec(token: Seq<char>, clear: bool) -> Seq<char> {
    if clear {
        "orbien_session=; HttpOnly; Path=/; SameSite=Strict; Max-Age=0"@
    } else {
        "orbien_session="@ + token + "; HttpOnly; Path=/; SameSite=Strict; Max-Age=28800"@
    }
}

/// The `Set-Cookie` value for the session cookie: `token` valid for
/// `SESSION_TTL_SECS` seconds, or, with `clear`, an expired empty cookie.
/// `HttpOnly`, `Path=/` and `SameSite=Strict` in both cases. The token must
/// be fit for a header value.
pub fn session_cookie(token: &str, clear: bool) -> (res: String)
    requires
        clear || header_safe(token@),
    ensures
        res@ == session_cookie_spec(token@, clear),
{
    if clear {
        String::from_str("orbien_session=; HttpOnly; Path=/; SameSite=Strict; Max-Age=0")
    } else {
        let mut s = String::from_str("orbien_session=");
        s.append(token);
        s.append("; HttpOnly; Path=/; SameSite=Strict; Max-Age=28800");
        s
    }
}

/// The `Set-Cookie` value that hands the browser the key of a pending
/// WebAuthn login (two minutes, scoped to the auth routes).
pub fn wa_state_cookie(state_key: &str) -> (res: String)
    requires
        header_safe(state_key@),
    ensures
        res@ == "orbien_wa_state="@ + state_key@
            + "; HttpOnly; Path=/api/v1/auth; SameSite=Strict; Max-Age=120"@,
{
    let mut s = String::from_str("orbien_wa_state=");
    s.append(state_key);
    s.append("; HttpOnly; Path=/api/v1/auth; SameSite=Strict; Max-Age=120");
    s
}

/// The `Set-Cookie` value that deletes the WebAuthn-state cookie.
pub fn wa_state_clear_cookie() -> (res: String)
    ensures
        res@ == "orbien_wa_state=; HttpOnly; Path=/api/v1/auth; Max-Age=0"@,
{
    String::from_str("orbien_wa_state=; HttpOnly; Path=/api/v1/auth; Max-Age=0")
}

} // verus!
