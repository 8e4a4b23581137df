//! The authentication state shared by the dashboard handlers: login
//! sessions keyed by token, registered passkeys per user, and the pending
//! WebAuthn registration and authentication states.
//!
//! Each store is a `DashMap`. Its contents are named by a spec function
//! (`session_table`, `passkey_table`, `pending_table`), and every method
//! states its effect on those contents.

use vstd::prelude::*;
use dashmap::DashMap;
use std::time::Duration;
use std::time::Instant;
use webauthn_rs::Webauthn;
use crate::ceremony::{refresh_passkey, refreshed_passkey};
use crate::token::{is_session_token, random_token};
use crate::relying_party::{
    RelyingParty, build_relying_party, parse_origin, rp_id_fits, url_domain, url_parses,
    webauthn_builder,
};

verus! {

// ---------------------------------------------------------------------------
// Outside types and calls
// ---------------------------------------------------------------------------

#[verifier::external_type_specification]
#[verifier::external_body]
#[verifier::reject_recursive_types(K)]
#[verifier::reject_recursive_types(V)]
#[verifier::reject_recursive_types(S)]
pub struct ExDashMap<K, V, S>(DashMap<K, V, S>);

#[verifier::external_type_specification]
#[verifier::external_body]
pub struct ExInstant(Instant);

/// Trusted: `Instant::now` reads the monotonic clock. Nothing is claimed of
/// the reading.
pub assume_specification[ Instant::now ]() -> Instant;

/// Trusted: `Instant::elapsed`, the time since the instant (saturating at
/// zero). Nothing is claimed of it.
pub assume_specification[ Instant::elapsed ](this: &Instant) -> Duration;

/// Trusted: `Duration::as_nanos`, the whole duration in nanoseconds. Nothing
/// is claimed of it, as the duration is opaque here.
pub assume_specification[ Duration::as_nanos ](this: &Duration) -> u128;


// ---------------------------------------------------------------------------
// Records and their views
// ---------------------------------------------------------------------------

/// A login session: who logged in, and when (nanoseconds on the state's
/// monotonic clock).
pub struct Session {
    pub username: String,
    pub created: u128,
}

/// A registered passkey: its credential id, by which it is found again, and
/// its serialised form, which the library carries without reading.
pub struct PasskeyRecord {
    pub cred_id: Vec<u8>,
    pub data: Vec<u8>,
}

/// The view of a session: username and creation time.
pub type SessionView = (Seq<char>, u128);

/// The view of a passkey record: credential id and serialised passkey.
pub type PasskeyView = (Seq<u8>, Seq<u8>);

impl View for PasskeyRecord {
    type V = PasskeyView;

    open spec fn view(&self) -> PasskeyView {
        (self.cred_id@, self.data@)
    }
}

/// The characters of an optional string.
pub open spec fn opt_string_view(o: Option<String>) -> Option<Seq<char>> {
    match o {
        Some(s) => Some(s@),
        None => None,
    }
}

/// The bytes of an optional byte vector.
pub open spec fn opt_bytes_view(o: Option<Vec<u8>>) -> Option<Seq<u8>> {
    match o {
        Some(v) => Some(v@),
        None => None,
    }
}

/// Views of a list of passkey records.
pub open spec fn records_view(v: Seq<PasskeyRecord>) -> Seq<PasskeyView> {
    v.map_values(|r: PasskeyRecord| r@)
}

/// Name for the contents of the session map: token to session.
pub uninterp spec fn session_table(m: DashMap<String, Session>) -> Map<Seq<char>, SessionView>;

/// Name for the contents of the passkey map: username to passkey list.
pub uninterp spec fn passkey_table(m: DashMap<String, Vec<PasskeyRecord>>) -> Map<
    Seq<char>,
    Seq<PasskeyView>,
>;

/// Name for the contents of a map of pending WebAuthn states: key to the
/// serialised state.
pub uninterp spec fn pending_table(m: DashMap<String, Vec<u8>>) -> Map<Seq<char>, Seq<u8>>;

// ---------------------------------------------------------------------------
// Wrappers of the DashMap methods
// ---------------------------------------------------------------------------

/// Trusted: `DashMap::new` is empty.
#[verifier::external_body]
fn sessions_new() -> (res: DashMap<String, Session>)
    ensures
        session_table(res) =~= Map::empty(),
{
    DashMap::new()
}

/// Trusted: `DashMap::insert` maps `key` to `value`, replacing any earlier value.
#[verifier::external_body]
fn sessions_insert(m: &mut DashMap<String, Session>, key: String, value: Session)
    ensures
        session_table(*final(m)) == session_table(*old(m)).insert(
            key@,
            (value.username@, value.created),
        ),
{
    m.insert(key, value);
}

/// Trusted: `DashMap::get` finds the value under `key`; it is handed out
/// as a field-by-field copy.
#[verifier::external_body]
fn sessions_get(m: &DashMap<String, Session>, key: &str) -> (res: Option<Session>)
    ensures
        res is Some <==> session_table(*m).contains_key(key@),
        res matches Some(s) ==> session_table(*m)[key@] == (s.username@, s.created),
{
    m.get(key).map(|r| Session { username: r.username.clone(), created: r.created })
}

/// Trusted: `DashMap::remove` takes `key` out of the map.
#[verifier::external_body]
fn sessions_remove(m: &mut DashMap<String, Session>, key: &str)
    ensures
        session_table(*final(m)) == session_table(*old(m)).remove(key@),
{
    m.remove(key);
}

/// Trusted: `DashMap::retain` keeps exactly the entries for which the
/// closure, here `session_is_live`, returns true.
#[verifier::external_body]
fn sessions_retain_live(m: &mut DashMap<String, Session>, now: u128)
    ensures
        session_table(*final(m)) == live_sessions(session_table(*old(m)), now),
{
    m.retain(|_, s| session_is_live(s, now));
}

/// Trusted: `DashMap::new` is empty.
#[verifier::external_body]
fn passkeys_new() -> (res: DashMap<String, Vec<PasskeyRecord>>)
    ensures
        passkey_table(res) =~= Map::empty(),
{
    DashMap::new()
}

/// Trusted: `DashMap::insert` maps `key` to `value`, replacing any earlier value.
#[verifier::external_body]
fn passkeys_insert(m: &mut DashMap<String, Vec<PasskeyRecord>>, key: String, value: Vec<
    PasskeyRecord,
>)
    ensures
        passkey_table(*final(m)) == passkey_table(*old(m)).insert(key@, records_view(value@)),
{
    m.insert(key, value);
}

/// Trusted: `DashMap::get` finds the list under `key`; it is handed out as a
/// copy, record by record and field by field.
#[verifier::external_body]
fn passkeys_get(m: &DashMap<String, Vec<PasskeyRecord>>, key: &str) -> (res: Option<
    Vec<PasskeyRecord>,
>)
    ensures
        res is Some <==> passkey_table(*m).contains_key(key@),
        res matches Some(v) ==> passkey_table(*m)[key@] == records_view(v@),
{
    m.get(key).map(|r| r.iter().map(|p| PasskeyRecord { cred_id: p.cred_id.clone(), data: p.data.clone() }).collect())
}

/// Trusted: `DashMap::iter` visits every entry once, in an order that the
/// crate leaves open; each entry is handed out as a copy, record by record
/// and field by field.
#[verifier::external_body]
fn passkeys_entries(m: &DashMap<String, Vec<PasskeyRecord>>) -> (res: Vec<
    (String, Vec<PasskeyRecord>),
>)
    ensures
        enumerates_keys(res@.map_values(|e: (String, Vec<PasskeyRecord>)| e.0@), passkey_table(*m)),
        forall|i: int|
            0 <= i < res@.len() ==> passkey_table(*m)[(#[trigger] res@[i]).0@] == records_view(
                res@[i].1@,
            ),
{
    m.iter()
        .map(|e| {
            let list = e.iter().map(|p| PasskeyRecord { cred_id: p.cred_id.clone(), data: p.data.clone() }).collect();
            (e.key().clone(), list)
        })
        .collect()
}

/// Trusted: `DashMap::new` is empty.
#[verifier::external_body]
fn pending_new() -> (res: DashMap<String, Vec<u8>>)
    ensures
        pending_table(res) =~= Map::empty(),
{
    DashMap::new()
}

/// Trusted: `DashMap::insert` maps `key` to `value`, replacing any earlier value.
#[verifier::external_body]
fn pending_insert(m: &mut DashMap<String, Vec<u8>>, key: String, value: Vec<u8>)
    ensures
        pending_table(*final(m)) == pending_table(*old(m)).insert(key@, value@),
{
    m.insert(key, value);
}

/// Trusted: `DashMap::remove` takes `key` out of the map and hands out the
/// value it held.
#[verifier::external_body]
fn pending_remove(m: &mut DashMap<String, Vec<u8>>, key: &str) -> (res: Option<Vec<u8>>)
    ensures
        pending_table(*final(m)) == pending_table(*old(m)).remove(key@),
        res is Some <==> pending_table(*old(m)).contains_key(key@),
        res matches Some(v) ==> v@ == pending_table(*old(m))[key@],
{
    m.remove(key).map(|(_, v)| v)
}

// ---------------------------------------------------------------------------
// Session semantics
// ---------------------------------------------------------------------------

/// Lifetime of a session in nanoseconds (8 hours).
pub open spec fn session_ttl_nanos() -> int {
    28_800_000_000_000
}

/// A session created at `created` has expired at `now`: more than the
/// lifetime has passed.
pub open spec fn session_expired(created: u128, now: u128) -> bool {
    now > created + session_ttl_nanos()
}

/// The sessions of `t` that have not expired at `now`.
pub open spec fn live_sessions(t: Map<Seq<char>, SessionView>, now: u128) -> Map<
    Seq<char>,
    SessionView,
> {
    Map::new(|k: Seq<char>| t.contains_key(k) && !session_expired(t[k].1, now), |k: Seq<char>| t[k])
}

/// Sessions after one is recorded under `token` for `username` at `now`:
/// the new session is added, then expired ones are dropped.
pub open spec fn spec_insert_session(
    t: Map<Seq<char>, SessionView>,
    token: Seq<char>,
    username: Seq<char>,
    now: u128,
) -> Map<Seq<char>, SessionView> {
    live_sessions(t.insert(token, (username, now)), now)
}

/// Validating `token` at `now`: the username of a live session; an expired
/// session is dropped; an unknown token changes nothing.
pub open spec fn spec_validate(t: Map<Seq<char>, SessionView>, token: Seq<char>, now: u128) -> (
    Option<Seq<char>>,
    Map<Seq<char>, SessionView>,
) {
    if !t.contains_key(token) {
        (None, t)
    } else if session_expired(t[token].1, now) {
        (None, t.remove(token))
    } else {
        (Some(t[token].0), t)
    }
}

/// Whether `s` has not expired at `now`.
pub fn session_is_live(s: &Session, now: u128) -> (res: bool)
    ensures
        res == !session_expired(s.created, now),
{
    // now > created + ttl, without overflow
    !(now > s.created && now - s.created > 28_800_000_000_000u128)
}

// ---------------------------------------------------------------------------
// Passkey semantics
// ---------------------------------------------------------------------------

/// `keys` lists every key of `t` exactly once.
pub open spec fn enumerates_keys<V>(keys: Seq<Seq<char>>, t: Map<Seq<char>, V>) -> bool {
    &&& keys.no_duplicates()
    &&& forall|i: int| 0 <= i < keys.len() ==> t.contains_key(#[trigger] keys[i])
    &&& forall|k: Seq<char>| t.contains_key(k) ==> keys.contains(k)
}

/// The passkeys of `username`, none when the user has none.
pub open spec fn user_passkeys(t: Map<Seq<char>, Seq<PasskeyView>>, username: Seq<char>) -> Seq<
    PasskeyView,
> {
    if t.contains_key(username) {
        t[username]
    } else {
        Seq::empty()
    }
}

/// The (username, passkey) pairs of `t`, users in the order of `keys`, each
/// user's passkeys in their stored order.
pub open spec fn passkey_pairs(t: Map<Seq<char>, Seq<PasskeyView>>, keys: Seq<Seq<char>>) -> Seq<
    (Seq<char>, PasskeyView),
>
    decreases keys.len(),
{
    if keys.len() == 0 {
        Seq::empty()
    } else {
        let k = keys.last();
        passkey_pairs(t, keys.drop_last()) + t[k].map_values(|p: PasskeyView| (k, p))
    }
}

/// The pairs of `pairs` whose passkey has credential id `cred_id`, in order.
pub open spec fn pairs_with_cred(pairs: Seq<(Seq<char>, PasskeyView)>, cred_id: Seq<u8>) -> Seq<
    (Seq<char>, PasskeyView),
>
    decreases pairs.len(),
{
    if pairs.len() == 0 {
        Seq::empty()
    } else {
        let rest = pairs_with_cred(pairs.drop_last(), cred_id);
        if pairs.last().1.0 == cred_id {
            rest.push(pairs.last())
        } else {
            rest
        }
    }
}

/// `list` with every passkey whose credential id is that of `updated`
/// replaced by `updated`.
pub open spec fn replace_by_cred(list: Seq<PasskeyView>, updated: PasskeyView) -> Seq<PasskeyView> {
    list.map_values(|p: PasskeyView| if p.0 == updated.0 { updated } else { p })
}

/// What a stored passkey becomes when credential `cred` is authenticated
/// with the result whose JSON is `result`: a passkey with that credential id
/// takes the refreshed JSON (`refreshed_passkey`) when there is one, and
/// keeps its data otherwise; any other passkey stays as it is.
pub open spec fn refreshed_record(p: PasskeyView, cred: Seq<u8>, result: Seq<u8>) -> PasskeyView {
    if p.0 == cred {
        match refreshed_passkey(p.1, result) {
            Some(d) => (p.0, d),
            None => p,
        }
    } else {
        p
    }
}

/// `t2` is `t1` with every passkey refreshed for credential `cred` and
/// result `result` (`refreshed_record`), and no user added or removed.
pub open spec fn refreshed_table(
    t1: Map<Seq<char>, Seq<PasskeyView>>,
    t2: Map<Seq<char>, Seq<PasskeyView>>,
    cred: Seq<u8>,
    result: Seq<u8>,
) -> bool {
    &&& t1.dom() == t2.dom()
    &&& forall|k: Seq<char>| #[trigger] t1.contains_key(k) ==> t2[k] == refreshed_records(
        t1[k],
        cred,
        result,
    )
}

/// Every passkey of `l` refreshed for credential `cred` and result
/// `result`, in order.
pub open spec fn refreshed_records(l: Seq<PasskeyView>, cred: Seq<u8>, result: Seq<u8>) -> Seq<
    PasskeyView,
> {
    l.map_values(|p: PasskeyView| refreshed_record(p, cred, result))
}

// ---------------------------------------------------------------------------
// The state
// ---------------------------------------------------------------------------

/// Why the state could not be set up.
#[derive(Debug, PartialEq, Eq)]
pub enum AuthInitError {
    /// The relying-party origin is not a URL; the parser's message.
    InvalidOrigin(String),
    /// The relying-party id is not an effective domain of the origin; the
    /// builder's message.
    InvalidRelyingParty(String),
}

/// The authentication state: sessions, passkeys, pending WebAuthn states,
/// the clock that session times are read on, and the relying party.
pub struct AuthState {
    /// token -> session
    sessions: DashMap<String, Session>,
    /// username -> passkeys
    passkeys: DashMap<String, Vec<PasskeyRecord>>,
    /// pending registration states keyed by username
    reg_states: DashMap<String, Vec<u8>>,
    /// pending authentication states keyed by a per-request token
    auth_states: DashMap<String, Vec<u8>>,
    /// origin of the monotonic clock that session times are read on
    epoch: Instant,
    /// the latest reading of that clock, in nanoseconds; it never goes back
    clock: u128,
    party: RelyingParty,
}

impl AuthState {
    /// The sessions, by token.
    pub closed spec fn sessions(&self) -> Map<Seq<char>, SessionView> {
        session_table(self.sessions)
    }

    /// The passkeys, by username.
    pub closed spec fn passkeys(&self) -> Map<Seq<char>, Seq<PasskeyView>> {
        passkey_table(self.passkeys)
    }

    /// The pending registration states, by username.
    pub closed spec fn reg_states(&self) -> Map<Seq<char>, Seq<u8>> {
        pending_table(self.reg_states)
    }

    /// The pending authentication states, by key.
    pub closed spec fn auth_states(&self) -> Map<Seq<char>, Seq<u8>> {
        pending_table(self.auth_states)
    }

    /// The relying party the state was set up with.
    pub closed spec fn relying_party(&self) -> RelyingParty {
        self.party
    }

    /// The latest reading of the state's clock (nanoseconds since the state
    /// was set up). Readings never go back.
    pub closed spec fn clock(&self) -> u128 {
        self.clock
    }

    /// Sets up an empty state for relying party `rp_id` at origin `rp_origin`.
    pub fn new(rp_id: &str, rp_origin: &str) -> (res: Result<AuthState, AuthInitError>)
        ensures
            res is Ok <==> url_parses(rp_origin@) && rp_id_fits(rp_id@, url_domain(rp_origin@)),
            res matches Err(e) ==> (e is InvalidOrigin <==> !url_parses(rp_origin@)),
            res matches Ok(s) ==> {
                &&& s.relying_party().id() == rp_id@
                &&& s.relying_party().origin_text() == rp_origin@
                &&& s.sessions() =~= Map::empty()
                &&& s.passkeys() =~= Map::empty()
                &&& s.reg_states() =~= Map::empty()
                &&& s.auth_states() =~= Map::empty()
            },
    {
        let origin = match parse_origin(rp_origin) {
            Ok(o) => o,
            Err(msg) => return Err(AuthInitError::InvalidOrigin(msg)),
        };
        let builder = match webauthn_builder(rp_id, &origin) {
            Ok(b) => b,
            Err(msg) => return Err(AuthInitError::InvalidRelyingParty(msg)),
        };
        let party = match build_relying_party(builder) {
            Ok(p) => p,
            Err(_) => return Err(AuthInitError::InvalidRelyingParty(String::new())),
        };
        Ok(AuthState {
            sessions: sessions_new(),
            passkeys: passkeys_new(),
            reg_states: pending_new(),
            auth_states: pending_new(),
            epoch: Instant::now(),
            clock: 0,
            party,
        })
    }

    /// The WebAuthn relying party the ceremonies run against: the one this
    /// state was set up with.
    pub fn webauthn(&self) -> (res: &Webauthn)
        ensures
            *res == self.relying_party().webauthn_spec(),
    {
        self.party.webauthn()
    }

    /// The relying party the state was set up with, with its id and origin.
    pub fn party(&self) -> (res: &RelyingParty)
        ensures
            *res == self.relying_party(),
    {
        &self.party
    }

    /// The state's clock, in nanoseconds since it was set up.
    /// Reads the state's clock: the time since it was set up, in
    /// nanoseconds, and never earlier than the previous reading, which it
    /// becomes.
    fn now_nanos(&mut self) -> (res: u128)
        ensures
            res == final(self).clock(),
            old(self).clock() <= final(self).clock(),
            final(self).sessions() == old(self).sessions(),
            final(self).passkeys() == old(self).passkeys(),
            final(self).reg_states() == old(self).reg_states(),
            final(self).auth_states() == old(self).auth_states(),
    {
        let reading = self.epoch.elapsed().as_nanos();
        if reading > self.clock {
            self.clock = reading;
        }
        self.clock
    }

    // ── session helpers ──────────────────────────────────────────────────

    /// Records a session for `username` under `token` at time `now`, then
    /// drops the sessions that have expired at `now`.
    pub fn insert_session(&mut self, token: &str, username: &str, now: u128)
        ensures
            final(self).clock() == old(self).clock(),
            final(self).sessions() == spec_insert_session(
                old(self).sessions(),
                token@,
                username@,
                now,
            ),
            final(self).passkeys() == old(self).passkeys(),
            final(self).reg_states() == old(self).reg_states(),
            final(self).auth_states() == old(self).auth_states(),
    {
        sessions_insert(
            &mut self.sessions,
            token.to_owned(),
            Session { username: username.to_owned(), created: now },
        );
        self.evict_expired_at(now);
    }

    /// Opens a session for `username` under a fresh random token, which it
    /// returns.
    pub fn create_session(&mut self, username: &str) -> (res: String)
        ensures
            is_session_token(res@),
            exists|now: u128|
                final(self).sessions() == spec_insert_session(
                    old(self).sessions(),
                    res@,
                    username@,
                    now,
                ),
            old(self).clock() <= final(self).clock(),
            final(self).sessions() == spec_insert_session(
                old(self).sessions(),
                res@,
                username@,
                final(self).clock(),
            ),
            final(self).passkeys() == old(self).passkeys(),
            final(self).reg_states() == old(self).reg_states(),
            final(self).auth_states() == old(self).auth_states(),
    {
        let token = random_token();
        let now = self.now_nanos();
        self.insert_session(token.as_str(), username, now);
        token
    }

    /// Checks `token` at time `now`: the username of its session while that
    /// is live; `None` for an unknown token, or for an expired session,
    /// which is then dropped.
    pub fn validate_session_at(&mut self, token: &str, now: u128) -> (res: Option<String>)
        ensures
            final(self).clock() == old(self).clock(),
            (opt_string_view(res), final(self).sessions()) == spec_validate(
                old(self).sessions(),
                token@,
                now,
            ),
            final(self).passkeys() == old(self).passkeys(),
            final(self).reg_states() == old(self).reg_states(),
            final(self).auth_states() == old(self).auth_states(),
    {
        match sessions_get(&self.sessions, token) {
            None => None,
            Some(s) => {
                if !session_is_live(&s, now) {
                    sessions_remove(&mut self.sessions, token);
                    None
                } else {
                    Some(s.username)
                }
            },
        }
    }

    /// Checks `token` now: the username of its session while that is live;
    /// `None` for an unknown token, or for an expired session, which is then
    /// dropped.
    pub fn validate_session(&mut self, token: &str) -> (res: Option<String>)
        ensures
            exists|now: u128|
                (opt_string_view(res), final(self).sessions()) == spec_validate(
                    old(self).sessions(),
                    token@,
                    now,
                ),
            old(self).clock() <= final(self).clock(),
            (opt_string_view(res), final(self).sessions()) == spec_validate(
                old(self).sessions(),
                token@,
                final(self).clock(),
            ),
            final(self).passkeys() == old(self).passkeys(),
            final(self).reg_states() == old(self).reg_states(),
            final(self).auth_states() == old(self).auth_states(),
    {
        let now = self.now_nanos();
        self.validate_session_at(token, now)
    }

    /// Ends the session under `token`, if any.
    pub fn remove_session(&mut self, token: &str)
        ensures
            final(self).clock() == old(self).clock(),
            final(self).sessions() == old(self).sessions().remove(token@),
            final(self).passkeys() == old(self).passkeys(),
            final(self).reg_states() == old(self).reg_states(),
            final(self).auth_states() == old(self).auth_states(),
    {
        sessions_remove(&mut self.sessions, token);
    }

    /// Drops every session that has expired at time `now`.
    pub fn evict_expired_at(&mut self, now: u128)
        ensures
            final(self).clock() == old(self).clock(),
            final(self).sessions() == live_sessions(old(self).sessions(), now),
            final(self).passkeys() == old(self).passkeys(),
            final(self).reg_states() == old(self).reg_states(),
            final(self).auth_states() == old(self).auth_states(),
    {
        sessions_retain_live(&mut self.sessions, now);
    }

    // ── passkey helpers ──────────────────────────────────────────────────

    /// Adds `passkey` at the end of the passkeys of `username`.
    pub fn store_passkey(&mut self, username: &str, passkey: PasskeyRecord)
        ensures
            final(self).clock() == old(self).clock(),
            final(self).passkeys() == old(self).passkeys().insert(
                username@,
                user_passkeys(old(self).passkeys(), username@).push(passkey@),
            ),
            final(self).sessions() == old(self).sessions(),
            final(self).reg_states() == old(self).reg_states(),
            final(self).auth_states() == old(self).auth_states(),
    {
        let mut list = match passkeys_get(&self.passkeys, username) {
            Some(v) => v,
            None => {
                let v: Vec<PasskeyRecord> = Vec::new();
                assert(records_view(v@) =~= Seq::empty());
                v
            },
        };
        let ghost before = list@;
        assert(records_view(before) == user_passkeys(old(self).passkeys(), username@));
        list.push(passkey);
        assert(records_view(list@) =~= records_view(before).push(list@.last()@));
        passkeys_insert(&mut self.passkeys, username.to_owned(), list);
    }

    /// The passkeys of `username`, in the order they were stored (none for
    /// an unknown user).
    pub fn passkeys_for(&self, username: &str) -> (res: Vec<PasskeyRecord>)
        ensures
            records_view(res@) == user_passkeys(self.passkeys(), username@),
    {
        match passkeys_get(&self.passkeys, username) {
            Some(v) => v,
            None => {
                let v: Vec<PasskeyRecord> = Vec::new();
                assert(records_view(v@) =~= Seq::empty());
                v
            },
        }
    }

    /// Every stored passkey: user by user, in an order of the users that the
    /// map leaves open, each user's passkeys in their stored order.
    pub fn all_passkeys(&self) -> (res: Vec<PasskeyRecord>)
        ensures
            exists|keys: Seq<Seq<char>>|
                enumerates_keys(keys, self.passkeys()) && records_view(res@) == passkey_pairs(
                    self.passkeys(),
                    keys,
                ).map_values(|p: (Seq<char>, PasskeyView)| p.1),
    {
        let entries = passkeys_entries(&self.passkeys);
        let ghost t = self.passkeys();
        let ghost keys = entries@.map_values(|e: (String, Vec<PasskeyRecord>)| e.0@);
        let mut out: Vec<PasskeyRecord> = Vec::new();
        let mut i: usize = 0;
        while i < entries.len()
            invariant
                0 <= i <= entries.len(),
                t == self.passkeys(),
                keys == entries@.map_values(|e: (String, Vec<PasskeyRecord>)| e.0@),
                forall|j: int|
                    0 <= j < entries@.len() ==> t[(#[trigger] entries@[j]).0@] == records_view(
                        entries@[j].1@,
                    ),
                records_view(out@) == passkey_pairs(t, keys.take(i as int)).map_values(
                    |p: (Seq<char>, PasskeyView)| p.1,
                ),
            decreases entries.len() - i,
        {
            let list = &entries[i].1;
            let ghost prefix = records_view(out@);
            let mut j: usize = 0;
            while j < list.len()
                invariant
                    0 <= j <= list.len(),
                    records_view(out@) == prefix + records_view(list@.take(j as int)),
                decreases list.len() - j,
            {
                let ghost old_out = out@;
                out.push(list[j].copy());
                assert(records_view(out@) =~= records_view(old_out).push(list@[j as int]@));
                assert(records_view(list@.take(j + 1)) =~= records_view(list@.take(j as int)).push(
                    list@[j as int]@,
                ));
                assert(records_view(out@) =~= prefix + records_view(list@.take(j + 1)));
                j = j + 1;
            }
            proof {
                assert(list@.take(list@.len() as int) =~= list@);
                assert(keys.take(i + 1).drop_last() =~= keys.take(i as int));
                assert(keys.take(i + 1).last() == entries@[i as int].0@);
                let k = entries@[i as int].0@;
                assert(t[k] == records_view(list@));
                assert(records_view(out@) =~= passkey_pairs(t, keys.take(i + 1)).map_values(
                    |p: (Seq<char>, PasskeyView)| p.1,
                ));
            }
            i = i + 1;
        }
        assert(keys.take(entries@.len() as int) =~= keys);
        out
    }

    /// Replaces every passkey of `username` whose credential id is that of
    /// `updated` by `updated`; nothing changes for an unknown user.
    pub fn update_passkey(&mut self, username: &str, updated: &PasskeyRecord)
        ensures
            final(self).clock() == old(self).clock(),
            final(self).passkeys() == if old(self).passkeys().contains_key(username@) {
                old(self).passkeys().insert(
                    username@,
                    replace_by_cred(old(self).passkeys()[username@], updated@),
                )
            } else {
                old(self).passkeys()
            },
            final(self).sessions() == old(self).sessions(),
            final(self).reg_states() == old(self).reg_states(),
            final(self).auth_states() == old(self).auth_states(),
    {
        let list = match passkeys_get(&self.passkeys, username) {
            Some(v) => v,
            None => return,
        };
        let mut out: Vec<PasskeyRecord> = Vec::new();
        let mut i: usize = 0;
        while i < list.len()
            invariant
                0 <= i <= list.len(),
                records_view(out@) == replace_by_cred(records_view(list@.take(i as int)), updated@),
            decreases list.len() - i,
        {
            let ghost old_out = out@;
            let ghost item = list@[i as int]@;
            if bytes_equal(&list[i].cred_id, &updated.cred_id) {
                out.push(updated.copy());
            } else {
                out.push(list[i].copy());
            }
            assert(records_view(out@) =~= records_view(old_out).push(
                if item.0 == updated@.0 { updated@ } else { item },
            ));
            assert(records_view(list@.take(i + 1)) =~= records_view(list@.take(i as int)).push(list@[i as int]@));
            assert(records_view(out@) =~= replace_by_cred(records_view(list@.take(i + 1)), updated@));
            i = i + 1;
        }
        assert(list@.take(list@.len() as int) =~= list@);
        passkeys_insert(&mut self.passkeys, username.to_owned(), out);
    }

    /// Brings every stored passkey with credential id `cred_id` up to date
    /// with the authentication result whose JSON is `result`, each from its
    /// own stored value (`refreshed_record`); the other passkeys, and the
    /// users, stay as they are.
    pub fn refresh_credential(&mut self, cred_id: &[u8], result: &[u8])
        ensures
            final(self).clock() == old(self).clock(),
            refreshed_table(old(self).passkeys(), final(self).passkeys(), cred_id@, result@),
            final(self).sessions() == old(self).sessions(),
            final(self).reg_states() == old(self).reg_states(),
            final(self).auth_states() == old(self).auth_states(),
    {
        let entries = passkeys_entries(&self.passkeys);
        let ghost t = self.passkeys();
        let ghost keys = entries@.map_values(|e: (String, Vec<PasskeyRecord>)| e.0@);
        let mut i: usize = 0;
        while i < entries.len()
            invariant
                0 <= i <= entries.len(),
                t == old(self).passkeys(),
                keys == entries@.map_values(|e: (String, Vec<PasskeyRecord>)| e.0@),
                enumerates_keys(keys, t),
                forall|j: int|
                    0 <= j < entries@.len() ==> t[(#[trigger] entries@[j]).0@] == records_view(
                        entries@[j].1@,
                    ),
                self.passkeys().dom() == t.dom(),
                forall|j: int|
                    0 <= j < i ==> self.passkeys()[#[trigger] keys[j]] == refreshed_records(
                        t[keys[j]],
                        cred_id@,
                        result@,
                    ),
                forall|k: Seq<char>|
                    t.contains_key(k) && !keys.take(i as int).contains(k) ==> #[trigger] self.passkeys()[k]
                        == t[k],
                self.sessions() == old(self).sessions(),
                self.reg_states() == old(self).reg_states(),
                self.auth_states() == old(self).auth_states(),
                self.clock() == old(self).clock(),
            decreases entries.len() - i,
        {
            let user = &entries[i].0;
            let list = &entries[i].1;
            let mut out: Vec<PasskeyRecord> = Vec::new();
            let mut j: usize = 0;
            while j < list.len()
                invariant
                    0 <= j <= list.len(),
                    records_view(out@) == refreshed_records(
                        records_view(list@.take(j as int)),
                        cred_id@,
                        result@,
                    ),
                decreases list.len() - j,
            {
                let ghost before = records_view(out@);
                let rec = &list[j];
                let next = if bytes_equal(&rec.cred_id, cred_id) {
                    match refresh_passkey(rec.data.as_slice(), result) {
                        Some(data) => PasskeyRecord { cred_id: copy_bytes(&rec.cred_id), data },
                        None => rec.copy(),
                    }
                } else {
                    rec.copy()
                };
                assert(next@ == refreshed_record(rec@, cred_id@, result@));
                out.push(next);
                assert(records_view(out@) =~= before.push(next@));
                assert(records_view(list@.take(j + 1)) =~= records_view(list@.take(j as int)).push(
                    list@[j as int]@,
                ));
                assert(refreshed_records(records_view(list@.take(j + 1)), cred_id@, result@)
                    =~= refreshed_records(records_view(list@.take(j as int)), cred_id@, result@).push(
                    refreshed_record(list@[j as int]@, cred_id@, result@),
                ));
                j = j + 1;
            }
            assert(list@.take(list@.len() as int) =~= list@);
            let ghost u = user@;
            proof {
                assert(keys[i as int] == u);
                assert(t.contains_key(u));
                assert(t[u] == records_view(list@));
            }
            let ghost prev = self.passkeys();
            passkeys_insert(&mut self.passkeys, user.clone(), out);
            proof {
                assert(self.passkeys().dom() =~= prev.dom());
                assert forall|jj: int| 0 <= jj < i + 1 implies self.passkeys()[#[trigger] keys[jj]]
                    == refreshed_records(t[keys[jj]], cred_id@, result@) by {
                    if jj < i {
                        assert(keys[jj] != keys[i as int]);
                    }
                }
                assert forall|k: Seq<char>|
                    t.contains_key(k) && !keys.take(i + 1).contains(k) implies #[trigger] self.passkeys()[k]
                        == t[k] by {
                    assert(keys.take(i + 1)[i as int] == u);
                    assert(k != u);
                    if keys.take(i as int).contains(k) {
                        let w = choose|w: int| 0 <= w < keys.take(i as int).len() && keys.take(i as int)[w] == k;
                        assert(keys.take(i + 1)[w] == k);
                    }
                }
            }
            i = i + 1;
        }
        proof {
            assert forall|k: Seq<char>| #[trigger] t.contains_key(k) implies self.passkeys()[k]
                == refreshed_records(t[k], cred_id@, result@) by {
                assert(keys.contains(k));
                let w = choose|w: int| 0 <= w < keys.len() && keys[w] == k;
                assert(self.passkeys()[keys[w]] == refreshed_records(t[keys[w]], cred_id@, result@));
            }
        }
    }

    /// Every (username, passkey) pair whose passkey has credential id
    /// `cred_id`: users in an order that the map leaves open, each user's
    /// passkeys in their stored order.
    pub fn credential_holders(&self, cred_id: &[u8]) -> (res: Vec<(String, PasskeyRecord)>)
        ensures
            exists|keys: Seq<Seq<char>>|
                enumerates_keys(keys, self.passkeys()) && res@.map_values(
                    |h: (String, PasskeyRecord)| (h.0@, h.1@),
                ) == pairs_with_cred(passkey_pairs(self.passkeys(), keys), cred_id@),
    {
        let entries = passkeys_entries(&self.passkeys);
        let ghost t = self.passkeys();
        let ghost keys = entries@.map_values(|e: (String, Vec<PasskeyRecord>)| e.0@);
        let mut out: Vec<(String, PasskeyRecord)> = Vec::new();
        let mut i: usize = 0;
        while i < entries.len()
            invariant
                0 <= i <= entries.len(),
                t == self.passkeys(),
                keys == entries@.map_values(|e: (String, Vec<PasskeyRecord>)| e.0@),
                forall|j: int|
                    0 <= j < entries@.len() ==> t[(#[trigger] entries@[j]).0@] == records_view(
                        entries@[j].1@,
                    ),
                out@.map_values(|h: (String, PasskeyRecord)| (h.0@, h.1@)) == pairs_with_cred(
                    passkey_pairs(t, keys.take(i as int)),
                    cred_id@,
                ),
            decreases entries.len() - i,
        {
            let user = &entries[i].0;
            let list = &entries[i].1;
            let ghost k = user@;
            let ghost base = passkey_pairs(t, keys.take(i as int));
            let mut j: usize = 0;
            while j < list.len()
                invariant
                    0 <= j <= list.len(),
                    k == user@,
                    out@.map_values(|h: (String, PasskeyRecord)| (h.0@, h.1@)) == pairs_with_cred(
                        base + records_view(list@.take(j as int)).map_values(
                            |p: PasskeyView| (k, p),
                        ),
                        cred_id@,
                    ),
                decreases list.len() - j,
            {
                let ghost before = base + records_view(list@.take(j as int)).map_values(
                    |p: PasskeyView| (k, p),
                );
                let ghost after = base + records_view(list@.take(j + 1)).map_values(
                    |p: PasskeyView| (k, p),
                );
                assert(after.drop_last() =~= before);
                assert(after.last() == (k, list@[j as int]@));
                if bytes_equal(&list[j].cred_id, cred_id) {
                    out.push(
                        (
                            user.clone(),
                            list[j].copy(),
                        ),
                    );
                }
                assert(out@.map_values(|h: (String, PasskeyRecord)| (h.0@, h.1@)) =~= pairs_with_cred(
                    after,
                    cred_id@,
                ));
                j = j + 1;
            }
            proof {
                assert(list@.take(list@.len() as int) =~= list@);
                assert(keys.take(i + 1).drop_last() =~= keys.take(i as int));
                assert(keys.take(i + 1).last() == k);
                assert(t[k] == records_view(list@));
            }
            i = i + 1;
        }
        assert(keys.take(entries@.len() as int) =~= keys);
        out
    }

    // ── pending state helpers ────────────────────────────────────────────

    /// Keeps `state` as the pending registration of `username`, replacing
    /// any earlier one.
    pub fn save_reg_state(&mut self, username: &str, state: Vec<u8>)
        ensures
            final(self).clock() == old(self).clock(),
            final(self).reg_states() == old(self).reg_states().insert(username@, state@),
            final(self).sessions() == old(self).sessions(),
            final(self).passkeys() == old(self).passkeys(),
            final(self).auth_states() == old(self).auth_states(),
    {
        pending_insert(&mut self.reg_states, username.to_owned(), state);
    }

    /// Takes out the pending registration of `username`, if any.
    pub fn take_reg_state(&mut self, username: &str) -> (res: Option<Vec<u8>>)
        ensures
            final(self).clock() == old(self).clock(),
            opt_bytes_view(res) == (if old(self).reg_states().contains_key(username@) {
                Some(old(self).reg_states()[username@])
            } else {
                None
            }),
            final(self).reg_states() == old(self).reg_states().remove(username@),
            final(self).relying_party() == old(self).relying_party(),
            final(self).sessions() == old(self).sessions(),
            final(self).passkeys() == old(self).passkeys(),
            final(self).auth_states() == old(self).auth_states(),
    {
        pending_remove(&mut self.reg_states, username)
    }

    /// Keeps `state` as the pending authentication under `key`, replacing
    /// any earlier one.
    pub fn save_auth_state(&mut self, key: &str, state: Vec<u8>)
        ensures
            final(self).clock() == old(self).clock(),
            final(self).auth_states() == old(self).auth_states().insert(key@, state@),
            final(self).sessions() == old(self).sessions(),
            final(self).passkeys() == old(self).passkeys(),
            final(self).reg_states() == old(self).reg_states(),
    {
        pending_insert(&mut self.auth_states, key.to_owned(), state);
    }

    /// Takes out the pending authentication under `key`, if any.
    pub fn take_auth_state(&mut self, key: &str) -> (res: Option<Vec<u8>>)
        ensures
            final(self).clock() == old(self).clock(),
            opt_bytes_view(res) == (if old(self).auth_states().contains_key(key@) {
                Some(old(self).auth_states()[key@])
            } else {
                None
            }),
            final(self).auth_states() == old(self).auth_states().remove(key@),
            final(self).relying_party() == old(self).relying_party(),
            final(self).sessions() == old(self).sessions(),
            final(self).passkeys() == old(self).passkeys(),
            final(self).reg_states() == old(self).reg_states(),
    {
        pending_remove(&mut self.auth_states, key)
    }
}

/// A copy of `v`.
fn copy_bytes(v: &Vec<u8>) -> (res: Vec<u8>)
    ensures
        res@ == v@,
{
    let r = v.clone();
    assert(r@ =~= v@);
    r
}

impl PasskeyRecord {
    /// A copy of this record.
    pub fn copy(&self) -> (res: PasskeyRecord)
        ensures
            res@ == self@,
    {
        PasskeyRecord { cred_id: copy_bytes(&self.cred_id), data: copy_bytes(&self.data) }
    }
}

/// Whether two byte strings are equal.
pub fn bytes_equal(a: &Vec<u8>, b: &[u8]) -> (res: bool)
    ensures
        res == (a@ == b@),
{
    if a.len() != b.len() {
        return false;
    }
    let mut i: usize = 0;
    while i < a.len()
        invariant
            a.len() == b@.len(),
            0 <= i <= a.len(),
            forall|j: int| 0 <= j < i ==> a@[j] == b@[j],
        decreases a.len() - i,
    {
        if a[i] != b[i] {
            return false;
        }
        i = i + 1;
    }
    assert(a@ =~= b@);
    true
}

} // verus!
