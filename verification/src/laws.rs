//! Properties that relate several operations of the authentication state
//! and of the cookies, stated over the spec functions that the operations'
//! contracts use.

use vstd::prelude::*;
use crate::auth_state::{
    PasskeyView, SessionView, enumerates_keys, live_sessions, passkey_pairs, replace_by_cred,
    session_expired, session_ttl_nanos, spec_insert_session, spec_validate, user_passkeys,
};
use crate::cookie::{cookie_lookup, cookie_value, session_cookie_name, session_cookie_spec};
use crate::routes::same_credentials;
use crate::access::is_public_path;
use crate::text::{is_space, lemma_find_char_at, trim, trim_end, trim_start};
use crate::token::{is_lower_hex_digit, is_session_token};

verus! {

// ── sessions ─────────────────────────────────────────────────────────────

/// A session opened at `created` is validated to its user at any time up
/// to the end of its lifetime, and validating it changes nothing.
pub proof fn lemma_session_valid_until_expiry(
    t: Map<Seq<char>, SessionView>,
    token: Seq<char>,
    username: Seq<char>,
    created: u128,
    now: u128,
)
    requires
        created <= now <= created + session_ttl_nanos(),
    ensures
        spec_validate(spec_insert_session(t, token, username, created), token, now) == (
            Some(username),
            spec_insert_session(t, token, username, created),
        ),
{
    let m = spec_insert_session(t, token, username, created);
    assert(m.contains_key(token));
    assert(m[token] == (username, created));
}

/// Once its lifetime is over, a session is no longer validated, and the
/// failed validation drops it, so that it is not validated later either.
pub proof fn lemma_expired_session_refused(
    t: Map<Seq<char>, SessionView>,
    token: Seq<char>,
    now: u128,
    later: u128,
)
    requires
        t.contains_key(token),
        session_expired(t[token].1, now),
    ensures
        spec_validate(t, token, now).0 is None,
        !spec_validate(t, token, now).1.contains_key(token),
        spec_validate(spec_validate(t, token, now).1, token, later).0 is None,
{
}

/// After a session is ended, its token is not validated any more.
pub proof fn lemma_removed_session_refused(
    t: Map<Seq<char>, SessionView>,
    token: Seq<char>,
    now: u128,
)
    ensures
        spec_validate(t.remove(token), token, now) == (None::<Seq<char>>, t.remove(token)),
{
}

/// Opening a session keeps every other session that is still live, with
/// its user and creation time.
pub proof fn lemma_insert_keeps_live_sessions(
    t: Map<Seq<char>, SessionView>,
    token: Seq<char>,
    username: Seq<char>,
    now: u128,
    other: Seq<char>,
)
    requires
        other != token,
        t.contains_key(other),
        !session_expired(t[other].1, now),
    ensures
        spec_insert_session(t, token, username, now).contains_key(other),
        spec_insert_session(t, token, username, now)[other] == t[other],
{
}

/// Opening a session at `now` leaves no session that has expired at
/// `now`, and the new one is among them.
pub proof fn lemma_insert_leaves_no_expired(
    t: Map<Seq<char>, SessionView>,
    token: Seq<char>,
    username: Seq<char>,
    now: u128,
)
    ensures
        spec_insert_session(t, token, username, now).contains_key(token),
        forall|k: Seq<char>|
            #[trigger] spec_insert_session(t, token, username, now).contains_key(k)
                ==> !session_expired(spec_insert_session(t, token, username, now)[k].1, now),
{
}

/// After the expired sessions are dropped at `now`, every session left is
/// validated to its user at `now`.
pub proof fn lemma_evicted_store_validates(
    t: Map<Seq<char>, SessionView>,
    now: u128,
    token: Seq<char>,
)
    requires
        live_sessions(t, now).contains_key(token),
    ensures
        spec_validate(live_sessions(t, now), token, now).0 == Some(t[token].0),
{
}

/// A login (a session opened for some user at time `opened`) keeps every
/// other session: validated at any later time `later`, a session that was
/// there before is still validated to its user unless its lifetime is over
/// by then.
pub proof fn lemma_login_keeps_live_sessions(
    t: Map<Seq<char>, SessionView>,
    token: Seq<char>,
    username: Seq<char>,
    opened: u128,
    other: Seq<char>,
    later: u128,
)
    requires
        other != token,
        t.contains_key(other),
        opened <= later,
        !session_expired(t[other].1, later),
    ensures
        spec_validate(spec_insert_session(t, token, username, opened), other, later).0 == Some(
            t[other].0,
        ),
{
    let m = spec_insert_session(t, token, username, opened);
    assert(!session_expired(t[other].1, opened));
    assert(m.contains_key(other));
    assert(m[other] == t[other]);
}

// ── pending WebAuthn states ──────────────────────────────────────────────

/// Taking out the entry under `key`: what it held, and the map without it
/// (the effect that `take_reg_state` and `take_auth_state` state).
pub open spec fn spec_take(m: Map<Seq<char>, Seq<u8>>, key: Seq<char>) -> (
    Option<Seq<u8>>,
    Map<Seq<char>, Seq<u8>>,
) {
    (if m.contains_key(key) { Some(m[key]) } else { None }, m.remove(key))
}

/// A saved pending state is taken out once, as it was saved; a second
/// take finds nothing.
pub proof fn lemma_take_after_save(m: Map<Seq<char>, Seq<u8>>, key: Seq<char>, state: Seq<u8>)
    ensures
        spec_take(m.insert(key, state), key).0 == Some(state),
        spec_take(spec_take(m.insert(key, state), key).1, key).0 is None,
        spec_take(m.insert(key, state), key).1 == m.remove(key),
{
    assert(m.insert(key, state).remove(key) =~= m.remove(key));
}

/// Pending states saved under different keys do not disturb each other:
/// each is taken back as it was saved, whichever is taken first.
pub proof fn lemma_pending_states_independent(
    m: Map<Seq<char>, Seq<u8>>,
    key1: Seq<char>,
    state1: Seq<u8>,
    key2: Seq<char>,
    state2: Seq<u8>,
)
    requires
        key1 != key2,
    ensures
        spec_take(m.insert(key1, state1).insert(key2, state2), key1).0 == Some(state1),
        spec_take(spec_take(m.insert(key1, state1).insert(key2, state2), key1).1, key2).0
            == Some(state2),
        spec_take(m.insert(key1, state1).insert(key2, state2), key2).0 == Some(state2),
        spec_take(spec_take(m.insert(key1, state1).insert(key2, state2), key2).1, key1).0
            == Some(state1),
{
}

// ── passkeys ─────────────────────────────────────────────────────────────

/// A stored passkey is the last of its user's passkeys afterwards, and the
/// other users' passkeys are unchanged.
pub proof fn lemma_stored_passkey_listed(
    t: Map<Seq<char>, Seq<PasskeyView>>,
    username: Seq<char>,
    passkey: PasskeyView,
    other: Seq<char>,
)
    requires
        other != username,
    ensures
        user_passkeys(t.insert(username, user_passkeys(t, username).push(passkey)), username)
            == user_passkeys(t, username).push(passkey),
        user_passkeys(t.insert(username, user_passkeys(t, username).push(passkey)), other)
            == user_passkeys(t, other),
{
}

/// Updating a passkey keeps every user's number of passkeys and their
/// credential ids.
pub proof fn lemma_update_keeps_shape(
    t: Map<Seq<char>, Seq<PasskeyView>>,
    username: Seq<char>,
    updated: PasskeyView,
)
    ensures
        same_credentials(
            t,
            if t.contains_key(username) {
                t.insert(username, replace_by_cred(t[username], updated))
            } else {
                t
            },
        ),
{
    let after = if t.contains_key(username) {
        t.insert(username, replace_by_cred(t[username], updated))
    } else {
        t
    };
    if t.contains_key(username) {
        assert(after.dom() =~= t.dom());
    }
}

/// Every stored passkey is among those listed over all users.
pub proof fn lemma_all_passkeys_complete(
    t: Map<Seq<char>, Seq<PasskeyView>>,
    keys: Seq<Seq<char>>,
    username: Seq<char>,
    i: int,
)
    requires
        enumerates_keys(keys, t),
        t.contains_key(username),
        0 <= i < t[username].len(),
    ensures
        passkey_pairs(t, keys).contains((username, t[username][i])),
{
    assert(keys.contains(username));
    let j = choose|j: int| 0 <= j < keys.len() && keys[j] == username;
    lemma_pairs_contains(t, keys, j, i);
}

/// The pairs over `keys` hold the `i`-th passkey of the user `keys[j]`.
proof fn lemma_pairs_contains(t: Map<Seq<char>, Seq<PasskeyView>>, keys: Seq<Seq<char>>, j: int, i: int)
    requires
        0 <= j < keys.len(),
        0 <= i < t[keys[j]].len(),
    ensures
        passkey_pairs(t, keys).contains((keys[j], t[keys[j]][i])),
    decreases keys.len(),
{
    let k = keys.last();
    let prev = passkey_pairs(t, keys.drop_last());
    let tail = t[k].map_values(|p: PasskeyView| (k, p));
    assert(passkey_pairs(t, keys) == prev + tail);
    if j == keys.len() - 1 {
        assert((prev + tail)[prev.len() + i] == tail[i]);
    } else {
        assert(keys.drop_last()[j] == keys[j]);
        lemma_pairs_contains(t, keys.drop_last(), j, i);
        let w = choose|w: int| 0 <= w < prev.len() && prev[w] == (keys[j], t[keys[j]][i]);
        assert((prev + tail)[w] == prev[w]);
    }
}

// ── the access check ─────────────────────────────────────────────────

/// Every path under `/api/v1/auth/` (login, logout and the WebAuthn
/// routes), `/healthz`, and every path outside `/api/` needs no
/// credentials.
pub proof fn lemma_public_paths(path: Seq<char>)
    ensures
        seq!['/', 'a', 'p', 'i', '/', 'v', '1', '/', 'a', 'u', 't', 'h', '/'].is_prefix_of(path)
            ==> is_public_path(path),
        path == seq!['/', 'h', 'e', 'a', 'l', 't', 'h', 'z'] ==> is_public_path(path),
        !seq!['/', 'a', 'p', 'i', '/'].is_prefix_of(path) ==> is_public_path(path),
{
}

// ── cookies ──────────────────────────────────────────────────────────────

/// A cookie pair `name=value`, with `name` not starting and `value` not
/// ending in whitespace and neither holding `;`, is read back as `value`.
pub proof fn lemma_cookie_pair_read_back(name: Seq<char>, value: Seq<char>, rest: Seq<char>)
    requires
        name.len() > 0,
        !is_space(name[0]),
        value.len() > 0,
        !is_space(value.last()),
        forall|i: int| 0 <= i < name.len() ==> name[i] != ';',
        forall|i: int| 0 <= i < value.len() ==> value[i] != ';',
        rest.len() == 0 || rest[0] == ';',
    ensures
        cookie_lookup(name.push('=') + value + rest, name.push('=')) == Some(value),
{
    let pat = name.push('=');
    let s = pat + value + rest;
    let e = (pat.len() + value.len()) as int;
    assert forall|i: int| 0 <= i < e implies s[i] != ';' by {
        if i < name.len() {
            assert(s[i] == name[i]);
        } else if i == name.len() {
            assert(s[i] == '=');
        } else {
            assert(s[i] == value[i - pat.len()]);
        }
    }
    if e < s.len() {
        assert(s[e] == rest[0]);
    }
    lemma_find_char_at(s, ';', e);
    let pair = s.take(e);
    assert(pair =~= pat + value);
    assert(pair[0] == name[0]);
    assert(trim_start(pair) == pair);
    assert(pair.last() == value.last());
    assert(trim_end(pair) == pair);
    assert(trim(pair) == pair);
    assert(pat.is_prefix_of(pair)) by {
        assert(pair.subrange(0, pat.len() as int) =~= pat);
    }
    assert(pair.skip(pat.len() as int) =~= value);
}

/// A session cookie minted for a session token is read back as that token,
/// both from the `Set-Cookie` value itself and from the `Cookie` header
/// that a browser sends back.
pub proof fn lemma_session_cookie_read_back(token: Seq<char>)
    requires
        is_session_token(token),
    ensures
        cookie_value(Some(session_cookie_spec(token, false)), session_cookie_name()) == Some(token),
        cookie_value(Some(session_cookie_name().push('=') + token), session_cookie_name()) == Some(
            token,
        ),
{
    reveal_strlit("orbien_session=");
    reveal_strlit("; HttpOnly; Path=/; SameSite=Strict; Max-Age=28800");
    let name = session_cookie_name();
    assert forall|i: int| 0 <= i < token.len() implies token[i] != ';' && !is_space(token[i]) by {
        assert(is_lower_hex_digit(token[i]));
    }
    assert(!is_space(token.last())) by {
        assert(is_lower_hex_digit(token[token.len() - 1]));
    }
    let suffix = "; HttpOnly; Path=/; SameSite=Strict; Max-Age=28800"@;
    assert("orbien_session="@ =~= name.push('='));
    assert(session_cookie_spec(token, false) =~= name.push('=') + token + suffix);
    lemma_cookie_pair_read_back(name, token, suffix);
    let empty: Seq<char> = Seq::empty();
    assert(name.push('=') + token + empty =~= name.push('=') + token);
    lemma_cookie_pair_read_back(name, token, empty);
}

/// The cookie handed out for a new session brings its user back: the
/// browser's `Cookie` header carrying it names a session that is validated
/// to that user until the session's lifetime is over.
pub proof fn lemma_login_cookie_validates(
    t: Map<Seq<char>, SessionView>,
    token: Seq<char>,
    username: Seq<char>,
    created: u128,
    now: u128,
)
    requires
        is_session_token(token),
        created <= now <= created + session_ttl_nanos(),
    ensures
        cookie_value(Some(session_cookie_name().push('=') + token), session_cookie_name()) == Some(
            token,
        ),
        spec_validate(spec_insert_session(t, token, username, created), token, now).0 == Some(
            username,
        ),
{
    lemma_session_cookie_read_back(token);
    lemma_session_valid_until_expiry(t, token, username, created, now);
}

} // verus!
