# dashboard_auth

The authentication layer of a web dashboard, written in Verus. The
library's own functions in `src/` carry contracts that Verus proves; the
calls into outside crates (`dashmap`, `webauthn-rs`, `url`, `uuid`, `hex`,
`base64`, `rand`, `serde_json`) and a few std functions go through small
wrappers marked `#[verifier::external_body]`, whose contracts are trusted,
not proved.

- Sessions: a random 32-byte token (64 lowercase hex digits) per login,
  kept for 8 hours; expired sessions are dropped when met and whenever a
  new one is opened.
- Cookies: `orbien_session` carries the session token; `orbien_wa_state`
  carries the key of a pending WebAuthn login.
- Access: `/api/v1/auth/*`, `/healthz` and everything outside `/api/` are
  public; other API requests need a live session cookie or, as a fallback,
  matching HTTP Basic credentials (or no credentials configured at all).
- WebAuthn: passkey registration and login through `webauthn-rs`.

## Layout

- `src/text.rs` – whitespace trimming and character search over `Seq<char>`.
- `src/cookie.rs` – reading a cookie out of a `Cookie` header, and the
  `Set-Cookie` values.
- `src/token.rs` – session tokens.
- `src/basic_auth.rs` – the HTTP Basic fallback.
- `src/relying_party.rs` – the relying party (the origin and the id checked
  against its domain) and the WebAuthn ceremony calls, over plain bytes.
- `src/auth_state.rs` – the session, passkey and pending-state stores
  (`DashMap`s whose contents are given by spec functions).
- `src/access.rs` – the access check in front of the API.
- `src/ceremony.rs` – user ids and state keys (`uuid`), the passkey counter
  refresh, and the JSON encoding of pending states.
- `src/routes.rs` – what the `/api/v1/auth/*` handlers compute.
- `src/laws.rs` – properties that relate several operations.
- `app/` – the axum middleware and handlers around the library.
- `tests/` – tests on concrete values.
