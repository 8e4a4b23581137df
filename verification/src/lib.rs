//! Authentication layer of the web dashboard: session store, session and
//! WebAuthn cookies, HTTP Basic-auth fallback and the access check on API requests.

pub mod text;
pub mod cookie;
pub mod token;
pub mod basic_auth;
pub mod relying_party;
pub mod auth_state;
pub mod access;
pub mod routes;
pub mod ceremony;
pub mod laws;
