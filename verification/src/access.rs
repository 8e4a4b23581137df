//! The access check in front of the dashboard API: which requests pass on a
//! session cookie, which on Basic credentials, and which are refused.

use vstd::prelude::*;
use crate::auth_state::{AuthState, spec_validate, opt_string_view};
use crate::basic_auth::{basic_auth_accepts, basic_auth_ok, needs_basic_auth};
use crate::cookie::{COOKIE_NAME, cookie_value, extract_cookie, session_cookie_name};
use crate::text::{chars_of, opt_view, range_equals, range_starts_with};

verus! {

/// What the access check decides for a request.
#[derive(Debug, PartialEq, Eq, Structural)]
pub enum Access {
    /// Hand the request on.
    Allow,
    /// Answer `401 Unauthorized` with a Basic challenge.
    Deny,
}

/// `/api/v1/auth/`
pub open spec fn auth_routes_prefix() -> Seq<char> {
    seq!['/', 'a', 'p', 'i', '/', 'v', '1', '/', 'a', 'u', 't', 'h', '/']
}

/// `/api/`
pub open spec fn api_prefix() -> Seq<char> {
    seq!['/', 'a', 'p', 'i', '/']
}

/// `/healthz`
pub open spec fn health_path() -> Seq<char> {
    seq!['/', 'h', 'e', 'a', 'l', 't', 'h', 'z']
}

/// Paths that need no credentials: the auth routes, the health check, and
/// everything outside the API (the static files of the login page).
pub open spec fn is_public_path(path: Seq<char>) -> bool {
    ||| auth_routes_prefix().is_prefix_of(path)
    ||| path == health_path()
    ||| !api_prefix().is_prefix_of(path)
}

/// Without a live session, a request passes when Basic authentication is
/// not configured or its credentials match.
pub open spec fn basic_fallback_allows(
    user: Seq<char>,
    password: Seq<char>,
    authorization: Option<Seq<char>>,
) -> bool {
    ||| !(user.len() != 0 || password.len() != 0)
    ||| basic_auth_accepts(authorization, user, password)
}

/// Whether `path` needs no credentials.
pub fn is_public_route(path: &str) -> (res: bool)
    ensures
        res == is_public_path(path@),
        seq!['/', 'a', 'p', 'i', '/', 'v', '1', '/', 'a', 'u', 't', 'h', '/'].is_prefix_of(path@)
            ==> res,
        path@ == seq!['/', 'h', 'e', 'a', 'l', 't', 'h', 'z'] ==> res,
        !seq!['/', 'a', 'p', 'i', '/'].is_prefix_of(path@) ==> res,
{
    let v = chars_of(path);
    assert(v@.subrange(0, v@.len() as int) =~= v@);
    let auth_prefix = vec!['/', 'a', 'p', 'i', '/', 'v', '1', '/', 'a', 'u', 't', 'h', '/'];
    let health = vec!['/', 'h', 'e', 'a', 'l', 't', 'h', 'z'];
    let api = vec!['/', 'a', 'p', 'i', '/'];
    range_starts_with(&v, 0, v.len(), &auth_prefix) || range_equals(&v, 0, v.len(), &health)
        || !range_starts_with(&v, 0, v.len(), &api)
}

/// Checks the session cookie of a request against `auth`: true when the
/// `Cookie` header carries a session token whose session is live. An expired
/// session met on the way is dropped.
pub fn session_grants(auth: &mut AuthState, cookie_header: Option<&str>) -> (res: bool)
    ensures
        cookie_value(opt_view(cookie_header), session_cookie_name()) is None ==> !res
            && final(auth).sessions() == old(auth).sessions(),
        cookie_value(opt_view(cookie_header), session_cookie_name()) matches Some(t)
            ==> exists|now: u128|
            #![trigger spec_validate(old(auth).sessions(), t, now)]
            {
                &&& res == spec_validate(old(auth).sessions(), t, now).0 is Some
                &&& final(auth).sessions() == spec_validate(old(auth).sessions(), t, now).1
            },
        cookie_value(opt_view(cookie_header), session_cookie_name()) matches Some(t) ==> {
            &&& res == spec_validate(old(auth).sessions(), t, final(auth).clock()).0 is Some
            &&& final(auth).sessions() == spec_validate(old(auth).sessions(), t, final(auth).clock()).1
        },
        old(auth).clock() <= final(auth).clock(),
        final(auth).passkeys() == old(auth).passkeys(),
        final(auth).reg_states() == old(auth).reg_states(),
        final(auth).auth_states() == old(auth).auth_states(),
{
    proof {
        reveal_strlit("orbien_session");
        assert(COOKIE_NAME@ =~= session_cookie_name());
    }
    let token = match extract_cookie(cookie_header, COOKIE_NAME) {
        Some(t) => t,
        None => return false,
    };
    let r = auth.validate_session(token.as_str());
    let res = r.is_some();
    proof {
        let t = cookie_value(opt_view(cookie_header), session_cookie_name())->0;
        assert(t == token@);
        let now = choose|now: u128|
            (opt_string_view(r), auth.sessions()) == spec_validate(old(auth).sessions(), token@, now);
        assert(res == spec_validate(old(auth).sessions(), t, now).0 is Some);
        assert(auth.sessions() == spec_validate(old(auth).sessions(), t, now).1);
    }
    res
}

/// The access check: lets a request through on a public path, on a live session
/// cookie (checked only when the authentication state is set up), or else
/// on the Basic-auth fallback; refuses it otherwise.
pub fn auth_middleware(
    auth: Option<&mut AuthState>,
    path: &str,
    cookie_header: Option<&str>,
    authorization: Option<&str>,
    user: &str,
    password: &str,
) -> (res: Access)
    ensures
        is_public_path(path@) ==> res == Access::Allow,
        seq!['/', 'a', 'p', 'i', '/', 'v', '1', '/', 'a', 'u', 't', 'h', '/'].is_prefix_of(path@)
            ==> res == Access::Allow,
        path@ == seq!['/', 'h', 'e', 'a', 'l', 't', 'h', 'z'] ==> res == Access::Allow,
        !seq!['/', 'a', 'p', 'i', '/'].is_prefix_of(path@) ==> res == Access::Allow,
        is_public_path(path@) ==> (auth matches Some(a) ==> *final(a) == *a),
        !is_public_path(path@) ==> match auth {
            None => (res == Access::Allow <==> basic_fallback_allows(
                user@,
                password@,
                opt_view(authorization),
            )),
            Some(a) => {
                &&& a.clock() <= final(a).clock()
                &&& cookie_value(opt_view(cookie_header), session_cookie_name()) matches Some(t)
                    ==> {
                    &&& final(a).sessions() == spec_validate(a.sessions(), t, final(a).clock()).1
                    &&& (res == Access::Allow <==> (spec_validate(a.sessions(), t, final(a).clock()).0 is Some
                        || basic_fallback_allows(user@, password@, opt_view(authorization))))
                }
                &&& final(a).passkeys() == a.passkeys()
                &&& final(a).reg_states() == a.reg_states()
                &&& final(a).auth_states() == a.auth_states()
                &&& match cookie_value(opt_view(cookie_header), session_cookie_name()) {
                    None => {
                        &&& final(a).sessions() == a.sessions()
                        &&& (res == Access::Allow <==> basic_fallback_allows(
                            user@,
                            password@,
                            opt_view(authorization),
                        ))
                    },
                    Some(t) => exists|now: u128|
                        #![trigger spec_validate(a.sessions(), t, now)]
                        {
                            &&& final(a).sessions() == spec_validate(a.sessions(), t, now).1
                            &&& (res == Access::Allow <==> (spec_validate(a.sessions(), t, now).0 is Some || basic_fallback_allows(
                                user@,
                                password@,
                                opt_view(authorization),
                            )))
                        },
                }
            },
        },
{
    if is_public_route(path) {
        return Access::Allow;
    }
    if let Some(a) = auth {
        if session_grants(a, cookie_header) {
            return Access::Allow;
        }
    }
    if !needs_basic_auth(user, password) {
        return Access::Allow;
    }
    if basic_auth_ok(user, password, authorization) {
        return Access::Allow;
    }
    Access::Deny
}

} // verus!
