//! What the `/api/v1/auth/*` handlers compute: password login and logout,
//! and the two WebAuthn ceremonies (registration and login). Reading the
//! request and writing the HTTP response are left to the caller.

use vstd::prelude::*;
use crate::auth_state::{
    AuthState, PasskeyRecord, PasskeyView, enumerates_keys, pairs_with_cred, passkey_pairs,
    records_view, refreshed_table, spec_insert_session, user_passkeys,
};
use crate::cookie::{
    COOKIE_NAME, cookie_value, extract_cookie, header_safe, lemma_tokens_header_safe,
    session_cookie, session_cookie_name, session_cookie_spec,
};
use crate::ceremony::{
    encode_authentication, encode_registration, is_uuid_text, new_state_key, uuid_for_name,
    uuid_v5_oid,
};
use crate::relying_party::{
    RegistrationRequest, assertion_result, finish_authentication, finish_registration,
    passkey_parses, registration_result, start_authentication, start_registration,
};
use crate::cookie::{
    WA_STATE_COOKIE_NAME, wa_state_clear_cookie, wa_state_cookie, wa_state_cookie_name,
};
use crate::text::opt_view;
use crate::laws::lemma_all_passkeys_complete;
use crate::token::is_session_token;
use webauthn_rs::prelude::{CreationChallengeResponse, RequestChallengeResponse};

verus! {

/// Why an auth route answers with an error.
#[derive(Debug, PartialEq, Eq, Structural)]
pub enum RouteError {
    AuthNotConfigured,
    InvalidCredentials,
    RegistrationInitFailed,
    NoPendingRegistration,
    RegistrationVerificationFailed,
    NoRegisteredPasskeys,
    AuthenticationInitFailed,
    MissingAuthState,
    UnknownAuthState,
    AuthenticationFailed,
}

impl RouteError {
    /// The HTTP status code that answers this error.
    pub fn status(&self) -> (res: u16)
        ensures
            res == match self {
                RouteError::AuthNotConfigured => 501u16,
                RouteError::InvalidCredentials => 401u16,
                RouteError::RegistrationInitFailed => 500u16,
                RouteError::NoPendingRegistration => 400u16,
                RouteError::RegistrationVerificationFailed => 400u16,
                RouteError::NoRegisteredPasskeys => 400u16,
                RouteError::AuthenticationInitFailed => 500u16,
                RouteError::MissingAuthState => 400u16,
                RouteError::UnknownAuthState => 400u16,
                RouteError::AuthenticationFailed => 401u16,
            },
    {
        match self {
            RouteError::AuthNotConfigured => 501,
            RouteError::InvalidCredentials => 401,
            RouteError::RegistrationInitFailed => 500,
            RouteError::NoPendingRegistration => 400,
            RouteError::RegistrationVerificationFailed => 400,
            RouteError::NoRegisteredPasskeys => 400,
            RouteError::AuthenticationInitFailed => 500,
            RouteError::MissingAuthState => 400,
            RouteError::UnknownAuthState => 400,
            RouteError::AuthenticationFailed => 401,
        }
    }

    /// The plain-text body that answers this error.
    pub fn message(&self) -> (res: &'static str)
        ensures
            res@ == match self {
                RouteError::AuthNotConfigured => "auth not configured"@,
                RouteError::InvalidCredentials => "invalid credentials"@,
                RouteError::RegistrationInitFailed => "registration init failed"@,
                RouteError::NoPendingRegistration => "no pending registration"@,
                RouteError::RegistrationVerificationFailed => "registration verification failed"@,
                RouteError::NoRegisteredPasskeys => "no registered passkeys"@,
                RouteError::AuthenticationInitFailed => "authentication init failed"@,
                RouteError::MissingAuthState => "missing auth state"@,
                RouteError::UnknownAuthState => "expired or unknown auth state"@,
                RouteError::AuthenticationFailed => "authentication failed"@,
            },
    {
        match self {
            RouteError::AuthNotConfigured => "auth not configured",
            RouteError::InvalidCredentials => "invalid credentials",
            RouteError::RegistrationInitFailed => "registration init failed",
            RouteError::NoPendingRegistration => "no pending registration",
            RouteError::RegistrationVerificationFailed => "registration verification failed",
            RouteError::NoRegisteredPasskeys => "no registered passkeys",
            RouteError::AuthenticationInitFailed => "authentication init failed",
            RouteError::MissingAuthState => "missing auth state",
            RouteError::UnknownAuthState => "expired or unknown auth state",
            RouteError::AuthenticationFailed => "authentication failed",
        }
    }
}

/// `r` is the error `e`.
pub open spec fn fails_with<T>(r: Result<T, RouteError>, e: RouteError) -> bool {
    r matches Err(x) && x == e
}

/// The JSON envelope of a successful answer.
pub struct Resp<T> {
    pub code: u16,
    pub msg: String,
    pub data: T,
}

/// A successful answer carrying `data`: code 200, empty message.
pub fn ok<T>(data: T) -> (res: Resp<T>)
    ensures
        res.code == 200,
        res.msg@ == Seq::<char>::empty(),
        res.data == data,
{
    Resp { code: 200, msg: String::new(), data }
}

/// The authentication state, or the answer for a server that has none.
pub fn get_auth<'a>(auth: Option<&'a mut AuthState>) -> (res: Result<&'a mut AuthState, RouteError>)
    ensures
        auth is None ==> res == Err::<&mut AuthState, RouteError>(RouteError::AuthNotConfigured),
        auth matches Some(a) ==> (res matches Ok(r) && *r == *a && *final(a) == *final(r)),
{
    match auth {
        Some(a) => Ok(a),
        None => Err(RouteError::AuthNotConfigured),
    }
}

// ── password login ───────────────────────────────────────────────────────

/// Body of a password login.
pub struct LoginReq {
    pub username: String,
    pub password: String,
}

/// Answer to a successful login: the user, and the `Set-Cookie` value of
/// the new session when a session could be opened.
pub struct LoginReply {
    pub username: String,
    pub set_cookie: Option<String>,
}

/// Password login against the configured credentials. On a match, opens a
/// session for the user when the authentication state is set up (and
/// answers without a cookie when it is not).
pub fn login(
    auth: Option<&mut AuthState>,
    body: &LoginReq,
    cfg_user: &str,
    cfg_password: &str,
) -> (res: Result<LoginReply, RouteError>)
    ensures
        !(body.username@ == cfg_user@ && body.password@ == cfg_password@) ==> {
            &&& res == Err::<LoginReply, RouteError>(RouteError::InvalidCredentials)
            &&& (auth matches Some(a) ==> *final(a) == *a)
        },
        (body.username@ == cfg_user@ && body.password@ == cfg_password@) ==> {
            &&& res matches Ok(reply)
            &&& reply.username@ == body.username@
            &&& auth is None ==> reply.set_cookie is None
            &&& auth matches Some(a) ==> {
                &&& reply.set_cookie matches Some(c)
                &&& exists|token: Seq<char>, now: u128|
                    {
                        &&& is_session_token(token)
                        &&& c@ == session_cookie_spec(token, false)
                        &&& now == final(a).clock()
                        &&& #[trigger] final(a).sessions() == spec_insert_session(
                            a.sessions(),
                            token,
                            body.username@,
                            now,
                        )
                    }
                &&& a.clock() <= final(a).clock()
                &&& final(a).passkeys() == a.passkeys()
                &&& final(a).reg_states() == a.reg_states()
                &&& final(a).auth_states() == a.auth_states()
            }
        },
{
    let user_ok = body.username == cfg_user.to_owned();
    let password_ok = body.password == cfg_password.to_owned();
    if !(user_ok && password_ok) {
        return Err(RouteError::InvalidCredentials);
    }
    match get_auth(auth) {
        Ok(a) => {
            let ghost old_sessions = a.sessions();
            let token = a.create_session(body.username.as_str());
            proof {
                lemma_tokens_header_safe(token@);
            }
            let cookie = session_cookie(token.as_str(), false);
            proof {
                assert(session_opened(old_sessions, a.sessions(), body.username@, cookie@, token@, a.clock()));
                assert(a.sessions() == spec_insert_session(old_sessions, token@, body.username@, a.clock()));
            }
            Ok(LoginReply { username: body.username.clone(), set_cookie: Some(cookie) })
        },
        Err(_) => Ok(LoginReply { username: body.username.clone(), set_cookie: None }),
    }
}

// ── logout ───────────────────────────────────────────────────────────────

/// Logout: ends the session named by the request's session cookie, if the
/// authentication state is set up and the cookie is there, and gives the
/// `Set-Cookie` value that clears the cookie.
pub fn logout(auth: Option<&mut AuthState>, cookie_header: Option<&str>) -> (res: String)
    ensures
        res@ == session_cookie_spec(Seq::empty(), true),
        auth matches Some(a) ==> {
            &&& final(a).sessions() == match cookie_value(
                opt_view(cookie_header),
                session_cookie_name(),
            ) {
                Some(t) => a.sessions().remove(t),
                None => a.sessions(),
            }
            &&& final(a).passkeys() == a.passkeys()
            &&& final(a).reg_states() == a.reg_states()
            &&& final(a).auth_states() == a.auth_states()
        },
{
    proof {
        reveal_strlit("orbien_session");
        assert(COOKIE_NAME@ =~= session_cookie_name());
    }
    if let Ok(a) = get_auth(auth) {
        if let Some(token) = extract_cookie(cookie_header, COOKIE_NAME) {
            a.remove_session(token.as_str());
        }
    }
    session_cookie("", true)
}

// ── WebAuthn registration ────────────────────────────────────────────────

/// Body of the start of a passkey registration.
pub struct RegBeginReq {
    pub username: String,
}

/// Body of the end of a passkey registration.
pub struct RegFinishReq {
    pub username: String,
    /// The browser's `RegisterPublicKeyCredential`, as JSON.
    pub credential: Vec<u8>,
}

/// The credential ids of the passkeys of `username`, in stored order.
pub fn existing_credentials(auth: &AuthState, username: &str) -> (res: Vec<Vec<u8>>)
    ensures
        res@.map_values(|c: Vec<u8>| c@) == user_passkeys(auth.passkeys(), username@).map_values(
            |p: PasskeyView| p.0,
        ),
{
    let list = auth.passkeys_for(username);
    let mut out: Vec<Vec<u8>> = Vec::new();
    let mut i: usize = 0;
    while i < list.len()
        invariant
            0 <= i <= list.len(),
            out@.map_values(|c: Vec<u8>| c@) == records_view(list@.take(i as int)).map_values(
                |p: PasskeyView| p.0,
            ),
        decreases list.len() - i,
    {
        let ghost before = out@;
        out.push(list[i].copy().cred_id);
        assert(out@.map_values(|c: Vec<u8>| c@) =~= before.map_values(|c: Vec<u8>| c@).push(
            list@[i as int]@.0,
        ));
        assert(records_view(list@.take(i + 1)).map_values(|p: PasskeyView| p.0) =~= records_view(
            list@.take(i as int),
        ).map_values(|p: PasskeyView| p.0).push(list@[i as int]@.0));
        i = i + 1;
    }
    assert(list@.take(list@.len() as int) =~= list@);
    out
}

/// The registration request for `username`: the user id is the name's
/// version-5 UUID, both names are the username, and the user's registered
/// credentials are excluded.
pub fn registration_request(auth: &AuthState, username: &str) -> (res: RegistrationRequest)
    ensures
        res.user_id@ == uuid_v5_oid(username@),
        res.user_name@ == username@,
        res.display_name@ == username@,
        res.exclude@.map_values(|c: Vec<u8>| c@) == user_passkeys(
            auth.passkeys(),
            username@,
        ).map_values(|p: PasskeyView| p.0),
{
    RegistrationRequest {
        user_id: uuid_for_name(username),
        user_name: username.to_owned(),
        display_name: username.to_owned(),
        exclude: existing_credentials(auth, username),
    }
}

/// Starts a passkey registration for `body.username`: asks for a new
/// credential (excluding the user's registered ones) and keeps the pending
/// state under the username.
pub fn webauthn_register_begin(auth: Option<&mut AuthState>, body: &RegBeginReq) -> (res: Result<
    Resp<CreationChallengeResponse>,
    RouteError,
>)
    ensures
        auth is None ==> fails_with(res, RouteError::AuthNotConfigured),
        auth matches Some(a) ==> {
            &&& final(a).sessions() == a.sessions()
            &&& final(a).passkeys() == a.passkeys()
            &&& final(a).auth_states() == a.auth_states()
            &&& body.username@.len() == 0 ==> fails_with(res, RouteError::RegistrationInitFailed)
            &&& body.username@.len() != 0 ==> res is Ok
            &&& res is Err ==> {
                &&& fails_with(res, RouteError::RegistrationInitFailed)
                &&& final(a).reg_states() == a.reg_states()
            }
            &&& res matches Ok(r) ==> {
                &&& r.code == 200
                &&& exists|state: Seq<u8>|
                    #[trigger] final(a).reg_states() == a.reg_states().insert(
                        body.username@,
                        state,
                    )
            }
        },
{
    let a = match get_auth(auth) {
        Ok(a) => a,
        Err(e) => return Err(e),
    };
    let request = registration_request(a, body.username.as_str());
    let started = match start_registration(a.party(), &request) {
        Ok((challenge, reg_state)) => match encode_registration(&reg_state) {
            Ok(state) => Some((challenge, state)),
            Err(_) => None,
        },
        Err(_) => None,
    };
    keep_registration(a, body.username.as_str(), started)
}

/// Finishes the start of a registration once the ceremony has (or has not)
/// produced a challenge and the serialised pending state: keeps the state
/// under `username` and answers with the challenge, or answers
/// `RegistrationInitFailed` and changes nothing.
pub fn keep_registration(
    a: &mut AuthState,
    username: &str,
    started: Option<(CreationChallengeResponse, Vec<u8>)>,
) -> (res: Result<Resp<CreationChallengeResponse>, RouteError>)
    ensures
        final(a).sessions() == old(a).sessions(),
        final(a).passkeys() == old(a).passkeys(),
        final(a).auth_states() == old(a).auth_states(),
        match started {
            None => fails_with(res, RouteError::RegistrationInitFailed) && final(a).reg_states()
                == old(a).reg_states(),
            Some((challenge, state)) => {
                &&& res matches Ok(r)
                &&& r.code == 200
                &&& r.msg@ == Seq::<char>::empty()
                &&& r.data == challenge
                &&& final(a).reg_states() == old(a).reg_states().insert(username@, state@)
            },
        },
{
    match started {
        Some((challenge, state)) => {
            a.save_reg_state(username, state);
            Ok(ok(challenge))
        },
        None => Err(RouteError::RegistrationInitFailed),
    }
}

/// Ends the passkey registration of `body.username`: takes out the pending
/// state, checks the credential against it, and on success stores the new
/// passkey at the end of the user's passkeys.
pub fn webauthn_register_finish(auth: Option<&mut AuthState>, body: &RegFinishReq) -> (res: Result<
    Resp<()>,
    RouteError,
>)
    ensures
        auth is None ==> fails_with(res, RouteError::AuthNotConfigured),
        auth matches Some(a) ==> {
            &&& final(a).reg_states() == a.reg_states().remove(body.username@)
            &&& final(a).sessions() == a.sessions()
            &&& final(a).auth_states() == a.auth_states()
            &&& !a.reg_states().contains_key(body.username@) ==> fails_with(res, RouteError::NoPendingRegistration)
            &&& a.reg_states().contains_key(body.username@) ==> match registration_result(
                a.relying_party().id(),
                a.relying_party().origin_text(),
                body.credential@,
                a.reg_states()[body.username@],
            ) {
                None => fails_with(res, RouteError::RegistrationVerificationFailed)
                    && final(a).passkeys() == a.passkeys(),
                Some(p) => {
                    &&& res matches Ok(r) && r.code == 200
                    &&& final(a).passkeys() == a.passkeys().insert(
                        body.username@,
                        user_passkeys(a.passkeys(), body.username@).push(p),
                    )
                },
            }
            &&& res is Err ==> final(a).passkeys() == a.passkeys()
        },
{
    let a = match get_auth(auth) {
        Ok(a) => a,
        Err(e) => return Err(e),
    };
    let saved = match a.take_reg_state(body.username.as_str()) {
        Some(s) => s,
        None => return Err(RouteError::NoPendingRegistration),
    };
    let record = finish_registration(a.party(), body.credential.as_slice(), saved.as_slice());
    keep_passkey(a, body.username.as_str(), record)
}

/// Finishes a registration once the ceremony has (or has not) produced a
/// passkey: stores it at the end of the passkeys of `username` and answers
/// with an empty success, or answers `RegistrationVerificationFailed` and
/// changes nothing.
pub fn keep_passkey(a: &mut AuthState, username: &str, passkey: Option<PasskeyRecord>) -> (res:
    Result<Resp<()>, RouteError>)
    ensures
        final(a).sessions() == old(a).sessions(),
        final(a).reg_states() == old(a).reg_states(),
        final(a).auth_states() == old(a).auth_states(),
        match passkey {
            None => fails_with(res, RouteError::RegistrationVerificationFailed) && final(a).passkeys() == old(a).passkeys(),
            Some(p) => res is Ok && res->Ok_0.code == 200 && final(a).passkeys() == old(a).passkeys().insert(username@, user_passkeys(old(a).passkeys(), username@).push(p@)),
        },
{
    match passkey {
        Some(p) => {
            a.store_passkey(username, p);
            Ok(ok(()))
        },
        None => Err(RouteError::RegistrationVerificationFailed),
    }
}

// ── WebAuthn login ───────────────────────────────────────────────────────

/// Every stored passkey deserialises.
pub open spec fn all_passkeys_parse(t: Map<Seq<char>, Seq<PasskeyView>>) -> bool {
    forall|k: Seq<char>, i: int|
        t.contains_key(k) && 0 <= i < t[k].len() ==> passkey_parses(#[trigger] t[k][i].1)
}

/// No user has any passkey.
pub open spec fn no_passkeys(t: Map<Seq<char>, Seq<PasskeyView>>) -> bool {
    forall|k: Seq<char>| t.contains_key(k) ==> (#[trigger] t[k]).len() == 0
}

/// There are no (username, passkey) pairs over `keys` exactly when none of
/// those users has a passkey.
pub proof fn lemma_pairs_empty(t: Map<Seq<char>, Seq<PasskeyView>>, keys: Seq<Seq<char>>)
    ensures
        passkey_pairs(t, keys).len() == 0 <==> forall|i: int|
            0 <= i < keys.len() ==> t[#[trigger] keys[i]].len() == 0,
    decreases keys.len(),
{
    if keys.len() > 0 {
        lemma_pairs_empty(t, keys.drop_last());
        if passkey_pairs(t, keys).len() == 0 {
            assert forall|i: int| 0 <= i < keys.len() implies t[#[trigger] keys[i]].len() == 0 by {
                if i < keys.len() - 1 {
                    assert(keys[i] == keys.drop_last()[i]);
                }
            }
        } else {
            if forall|i: int| 0 <= i < keys.len() ==> t[#[trigger] keys[i]].len() == 0 {
                assert forall|i: int| 0 <= i < keys.drop_last().len() implies t[#[trigger] keys.drop_last()[i]].len() == 0 by {
                    assert(keys.drop_last()[i] == keys[i]);
                }
                assert(t[keys[keys.len() - 1]].len() == 0);
            }
        }
    }
}

/// A started WebAuthn login: the challenge for the browser and the
/// `Set-Cookie` value that hands it the key of the pending state.
pub struct LoginChallenge {
    pub challenge: Resp<RequestChallengeResponse>,
    pub set_cookie: String,
}

/// Starts a WebAuthn login over every registered passkey and keeps the
/// pending state under a fresh random key, which goes to the browser in a
/// cookie.
pub fn webauthn_login_begin(auth: Option<&mut AuthState>) -> (res: Result<LoginChallenge, RouteError>)
    ensures
        auth is None ==> fails_with(res, RouteError::AuthNotConfigured),
        auth matches Some(a) ==> {
            &&& final(a).sessions() == a.sessions()
            &&& final(a).passkeys() == a.passkeys()
            &&& final(a).reg_states() == a.reg_states()
            &&& fails_with(res, RouteError::NoRegisteredPasskeys) <==> no_passkeys(a.passkeys())
            &&& res is Err ==> final(a).auth_states() == a.auth_states()
            &&& res is Err && !no_passkeys(a.passkeys()) ==> fails_with(res, RouteError::AuthenticationInitFailed)
            &&& !all_passkeys_parse(a.passkeys()) ==> fails_with(res, RouteError::AuthenticationInitFailed)
            &&& res matches Ok(r) ==> {
                &&& r.challenge.code == 200
                &&& exists|key: Seq<char>, state: Seq<u8>|
                    {
                        &&& is_uuid_text(key)
                        &&& r.set_cookie@ == "orbien_wa_state="@ + key
                            + "; HttpOnly; Path=/api/v1/auth; SameSite=Strict; Max-Age=120"@
                        &&& #[trigger] final(a).auth_states() == a.auth_states().insert(key, state)
                    }
            }
        },
{
    let a = match get_auth(auth) {
        Ok(a) => a,
        Err(e) => return Err(e),
    };
    let records = a.all_passkeys();
    proof {
        let keys = choose|keys: Seq<Seq<char>>|
            enumerates_keys(keys, a.passkeys()) && records_view(records@) == passkey_pairs(
                a.passkeys(),
                keys,
            ).map_values(|p: (Seq<char>, PasskeyView)| p.1);
        lemma_pairs_empty(a.passkeys(), keys);
        if no_passkeys(a.passkeys()) {
            assert forall|i: int| 0 <= i < keys.len() implies a.passkeys()[#[trigger] keys[i]].len() == 0 by {
                assert(a.passkeys().contains_key(keys[i]));
            }
        } else {
            let k = choose|k: Seq<char>| a.passkeys().contains_key(k) && a.passkeys()[k].len() != 0;
            assert(keys.contains(k));
            let i = choose|i: int| 0 <= i < keys.len() && keys[i] == k;
            assert(a.passkeys()[keys[i]].len() != 0);
        }
        assert(records@.len() == records_view(records@).len());
        if !all_passkeys_parse(a.passkeys()) {
            let t = a.passkeys();
            let (k, i) = choose|k: Seq<char>, i: int|
                t.contains_key(k) && 0 <= i < t[k].len() && !passkey_parses(#[trigger] t[k][i].1);
            lemma_all_passkeys_complete(t, keys, k, i);
            let pairs = passkey_pairs(t, keys);
            let w = choose|w: int| 0 <= w < pairs.len() && pairs[w] == (k, t[k][i]);
            assert(records_view(records@)[w] == pairs[w].1);
            assert(records@[w]@ == records_view(records@)[w]);
            assert(!passkey_parses(records@[w].data@));
            assert(t[k].len() != 0);
        }
    }
    if records.len() == 0 {
        return Err(RouteError::NoRegisteredPasskeys);
    }
    let (challenge, auth_state) = match start_authentication(a.party(), &records) {
        Some(r) => r,
        None => return Err(RouteError::AuthenticationInitFailed),
    };
    let state = match encode_authentication(&auth_state) {
        Ok(b) => b,
        Err(_) => return Err(RouteError::AuthenticationInitFailed),
    };
    let state_key = new_state_key();
    proof {
        lemma_tokens_header_safe(state_key@);
    }
    Ok(keep_login_challenge(a, challenge, state, state_key.as_str()))
}

/// Keeps the serialised pending state of a started WebAuthn login under
/// `state_key` and answers with the challenge and the cookie that carries
/// the key.
pub fn keep_login_challenge(
    a: &mut AuthState,
    challenge: RequestChallengeResponse,
    state: Vec<u8>,
    state_key: &str,
) -> (res: LoginChallenge)
    requires
        header_safe(state_key@),
    ensures
        res.challenge.code == 200,
        res.challenge.msg@ == Seq::<char>::empty(),
        res.challenge.data == challenge,
        res.set_cookie@ == "orbien_wa_state="@ + state_key@
            + "; HttpOnly; Path=/api/v1/auth; SameSite=Strict; Max-Age=120"@,
        final(a).auth_states() == old(a).auth_states().insert(state_key@, state@),
        final(a).sessions() == old(a).sessions(),
        final(a).passkeys() == old(a).passkeys(),
        final(a).reg_states() == old(a).reg_states(),
{
    a.save_auth_state(state_key, state);
    let cookie = wa_state_cookie(state_key);
    LoginChallenge { challenge: ok(challenge), set_cookie: cookie }
}

/// `admin`
pub open spec fn default_login_name() -> Seq<char> {
    seq!['a', 'd', 'm', 'i', 'n']
}

/// The user a WebAuthn login opens a session for: the owner of the last
/// passkey that matched the credential, or `admin` when none did (or that
/// owner's name is empty).
pub open spec fn login_name(holders: Seq<(Seq<char>, PasskeyView)>) -> Seq<char> {
    if holders.len() == 0 || holders.last().0.len() == 0 {
        default_login_name()
    } else {
        holders.last().0
    }
}

/// The same users, each with as many passkeys, carrying the same credential
/// ids in the same order.
pub open spec fn same_credentials(
    t1: Map<Seq<char>, Seq<PasskeyView>>,
    t2: Map<Seq<char>, Seq<PasskeyView>>,
) -> bool {
    &&& t1.dom() == t2.dom()
    &&& forall|k: Seq<char>|
        #![trigger t1[k]]
        #![trigger t2[k]]
        t1.contains_key(k) ==> {
            &&& t1[k].len() == t2[k].len()
            &&& forall|i: int| 0 <= i < t1[k].len() ==> (#[trigger] t1[k][i]).0 == t2[k][i].0
        }
}

/// A session was opened for `username` under session token `token` at
/// time `now`, taking the sessions from `before` to `after`, and `cookie` is
/// the `Set-Cookie` value that hands the token out.
pub open spec fn session_opened(
    before: Map<Seq<char>, crate::auth_state::SessionView>,
    after: Map<Seq<char>, crate::auth_state::SessionView>,
    username: Seq<char>,
    cookie: Seq<char>,
    token: Seq<char>,
    now: u128,
) -> bool {
    &&& is_session_token(token)
    &&& cookie == session_cookie_spec(token, false)
    &&& after == spec_insert_session(before, token, username, now)
}

/// The username for a WebAuthn login from the matching (user, passkey)
/// pairs.
pub fn login_username(holders: &Vec<(String, PasskeyRecord)>) -> (res: String)
    ensures
        res@ == login_name(holders@.map_values(|h: (String, PasskeyRecord)| (h.0@, h.1@))),
{
    let ghost hv = holders@.map_values(|h: (String, PasskeyRecord)| (h.0@, h.1@));
    if holders.len() == 0 || holders[holders.len() - 1].0.as_str().is_empty() {
        proof {
            if holders.len() > 0 {
                assert(hv.last() == (holders@.last().0@, holders@.last().1@));
            }
        }
        let v = vec!['a', 'd', 'm', 'i', 'n'];
        let r = crate::text::string_of_range(&v, 0, 5);
        assert(v@.subrange(0, 5) =~= default_login_name());
        r
    } else {
        assert(hv.last() == (holders@.last().0@, holders@.last().1@));
        holders[holders.len() - 1].0.clone()
    }
}

/// A finished WebAuthn login: the user, the `Set-Cookie` value of the new
/// session, and the one that clears the state cookie.
pub struct LoginFinish {
    pub username: String,
    pub session_cookie: String,
    pub clear_state_cookie: String,
}

/// A WebAuthn login for credential id `cred`, with the authentication
/// result whose JSON is `result`, went through, taking the passkeys from
/// `pk_before` to `pk_after` and the sessions from `sess_before` to
/// `sess_after`, and answered `r`: every passkey with credential id `cred`
/// was refreshed from the result and all others kept, the session went to
/// the owner of the last passkey with that id (`admin` when there is none),
/// and `r` carries its cookie and the one that clears the state cookie.
pub open spec fn login_completed(
    pk_before: Map<Seq<char>, Seq<PasskeyView>>,
    pk_after: Map<Seq<char>, Seq<PasskeyView>>,
    sess_before: Map<Seq<char>, crate::auth_state::SessionView>,
    sess_after: Map<Seq<char>, crate::auth_state::SessionView>,
    r: LoginFinish,
    cred: Seq<u8>,
    result: Seq<u8>,
) -> bool {
    &&& exists|keys: Seq<Seq<char>>|
        #[trigger] enumerates_keys(keys, pk_before) && r.username@ == login_name(
            pairs_with_cred(passkey_pairs(pk_before, keys), cred),
        )
    &&& refreshed_table(pk_before, pk_after, cred, result)
    &&& r.clear_state_cookie@ == "orbien_wa_state=; HttpOnly; Path=/api/v1/auth; Max-Age=0"@
    &&& exists|token: Seq<char>, now: u128|
        #[trigger] session_opened(sess_before, sess_after, r.username@, r.session_cookie@, token, now)
}

/// What a WebAuthn login does to the state, from `before` to `after`, and
/// answers, given the request's `Cookie` header and the browser's
/// credential (its JSON):
/// - without a state cookie: `MissingAuthState`, nothing changes;
/// - otherwise the pending state under the cookie's key is taken out; for
///   an unknown key the answer is `UnknownAuthState`;
/// - for a known key the assertion is checked against that state
///   (`assertion_result`): a failed check is answered
///   `AuthenticationFailed` with sessions and passkeys unchanged, a passed
///   one completes the login (`login_completed`) for the authenticated
///   credential id.
pub open spec fn login_finish_outcome(
    before: AuthState,
    after: AuthState,
    cookie_header: Option<Seq<char>>,
    credential: Seq<u8>,
    res: Result<LoginFinish, RouteError>,
) -> bool {
    &&& after.reg_states() == before.reg_states()
    &&& res is Err ==> after.sessions() == before.sessions() && after.passkeys()
        == before.passkeys()
    &&& match cookie_value(cookie_header, wa_state_cookie_name()) {
        None => fails_with(res, RouteError::MissingAuthState) && after.auth_states()
            == before.auth_states(),
        Some(key) => {
            &&& after.auth_states() == before.auth_states().remove(key)
            &&& !before.auth_states().contains_key(key) ==> fails_with(
                res,
                RouteError::UnknownAuthState,
            )
            &&& before.auth_states().contains_key(key) ==> match assertion_result(
                before.relying_party().id(),
                before.relying_party().origin_text(),
                credential,
                before.auth_states()[key],
            ) {
                None => fails_with(res, RouteError::AuthenticationFailed),
                Some(o) => res is Ok && login_completed(
                    before.passkeys(),
                    after.passkeys(),
                    before.sessions(),
                    after.sessions(),
                    res->Ok_0,
                    o.0,
                    o.1,
                ),
            }
        },
    }
}

/// Ends a WebAuthn login: takes out the pending state named by the state
/// cookie, checks the assertion in `credential` (the browser's
/// `PublicKeyCredential`, as JSON) against it, brings the counters of the
/// matching passkeys up to date, and opens a session for their owner.
pub fn webauthn_login_finish(
    auth: Option<&mut AuthState>,
    cookie_header: Option<&str>,
    credential: &[u8],
) -> (res: Result<LoginFinish, RouteError>)
    ensures
        auth is None ==> fails_with(res, RouteError::AuthNotConfigured),
        auth matches Some(a) ==> login_finish_outcome(
            *a,
            *final(a),
            opt_view(cookie_header),
            credential@,
            res,
        ),
{
    match auth {
        Some(a) => finish_login(a, cookie_header, credential),
        None => Err(RouteError::AuthNotConfigured),
    }
}

/// `webauthn_login_finish` once the state is known to be set up.
fn finish_login(a: &mut AuthState, cookie_header: Option<&str>, credential: &[u8]) -> (res: Result<
    LoginFinish,
    RouteError,
>)
    ensures
        login_finish_outcome(*old(a), *final(a), opt_view(cookie_header), credential@, res),
{
    proof {
        reveal_strlit("orbien_wa_state");
        assert(WA_STATE_COOKIE_NAME@ =~= wa_state_cookie_name());
    }
    let state_key = match extract_cookie(cookie_header, WA_STATE_COOKIE_NAME) {
        Some(k) => k,
        None => return Err(RouteError::MissingAuthState),
    };
    let saved = match a.take_auth_state(state_key.as_str()) {
        Some(s) => s,
        None => return Err(RouteError::UnknownAuthState),
    };
    let outcome = finish_authentication(a.party(), credential, saved.as_slice());
    complete_login(a, outcome)
}

/// Completes a WebAuthn login once the assertion has been checked, given
/// the outcome of the check: `None` when it failed, or the authenticated
/// credential id with the JSON of the check's result. A failed check is
/// answered `AuthenticationFailed` and changes nothing. Otherwise every
/// passkey with that credential id is refreshed from the result, and a
/// session is opened for the owner of the last of them (`admin` when there
/// is none).
pub fn complete_login(a: &mut AuthState, outcome: Option<(Vec<u8>, Vec<u8>)>) -> (res: Result<
    LoginFinish,
    RouteError,
>)
    ensures
        final(a).reg_states() == old(a).reg_states(),
        final(a).auth_states() == old(a).auth_states(),
        match outcome {
            None => {
                &&& fails_with(res, RouteError::AuthenticationFailed)
                &&& final(a).sessions() == old(a).sessions()
                &&& final(a).passkeys() == old(a).passkeys()
            },
            Some(o) => {
                &&& res is Ok
                &&& login_completed(
                    old(a).passkeys(),
                    final(a).passkeys(),
                    old(a).sessions(),
                    final(a).sessions(),
                    res->Ok_0,
                    o.0@,
                    o.1@,
                )
                &&& exists|token: Seq<char>|
                    #[trigger] session_opened(
                        old(a).sessions(),
                        final(a).sessions(),
                        res->Ok_0.username@,
                        res->Ok_0.session_cookie@,
                        token,
                        final(a).clock(),
                    )
            },
        },
        old(a).clock() <= final(a).clock(),
{
    match outcome {
        None => Err(RouteError::AuthenticationFailed),
        Some((cred, result)) => {
            let holders = a.credential_holders(cred.as_slice());
            let ghost start = a.passkeys();
            let ghost sess0 = a.sessions();
            a.refresh_credential(cred.as_slice(), result.as_slice());
            let username = login_username(&holders);
            let token = a.create_session(username.as_str());
            proof {
                lemma_tokens_header_safe(token@);
            }
            let session = session_cookie(token.as_str(), false);
            let clear = wa_state_clear_cookie();
            let ghost tok = token@;
            let res = LoginFinish { username, session_cookie: session, clear_state_cookie: clear };
            proof {
                let keys = choose|keys: Seq<Seq<char>>|
                    enumerates_keys(keys, start) && holders@.map_values(
                        |h: (String, PasskeyRecord)| (h.0@, h.1@),
                    ) == pairs_with_cred(passkey_pairs(start, keys), cred@);
                assert(enumerates_keys(keys, start) && res.username@ == login_name(
                    pairs_with_cred(passkey_pairs(start, keys), cred@),
                ));
                assert(session_opened(sess0, a.sessions(), res.username@, res.session_cookie@, tok, a.clock()));
            }
            Ok(res)
        },
    }
}

} // verus!
