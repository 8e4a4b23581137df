//! The calls into `uuid`, and the JSON handling of `webauthn-rs` values,
//! that the WebAuthn routes make besides the ceremonies.

use vstd::prelude::*;
use uuid::Uuid;
use webauthn_rs::prelude::{AuthenticationResult, Passkey, PasskeyAuthentication, PasskeyRegistration};

verus! {

#[verifier::external_type_specification]
#[verifier::external_body]
pub struct ExJsonError(serde_json::Error);

/// Name for the 16 bytes of `Uuid::new_v5(&Uuid::NAMESPACE_OID, name)`: a
/// SHA-1 digest of the OID namespace and the UTF-8 bytes of `name`, a
/// function of `name` alone.
pub uninterp spec fn uuid_v5_oid(name: Seq<char>) -> Seq<u8>;

/// Trusted: `Uuid::new_v5` in the OID namespace over the bytes of `name`,
/// handed out as its 16 bytes. They are named by `uuid_v5_oid`, so the
/// same name always gives the same user id; the version nibble (high half
/// of byte 6) is 5 and the variant bits (top of byte 8) are `10`, as
/// `Builder::from_sha1_bytes` sets them.
#[verifier::external_body]
pub(crate) fn uuid_for_name(name: &str) -> (res: [u8; 16])
    ensures
        res@ == uuid_v5_oid(name@),
        res@[6] / 16 == 5,
        res@[8] / 64 == 2,
{
    *Uuid::new_v5(&Uuid::NAMESPACE_OID, name.as_bytes()).as_bytes()
}

/// A random version-4 UUID in its text form: 36 characters, lowercase hex
/// digits and hyphens.
pub open spec fn is_uuid_text(s: Seq<char>) -> bool {
    &&& s.len() == 36
    &&& forall|i: int|
        0 <= i < s.len() ==> ('0' <= #[trigger] s[i] <= '9' || 'a' <= s[i] <= 'f' || s[i] == '-')
}

/// Trusted: `Uuid::new_v4`, written out by its `Display` impl, which prints
/// the hyphenated lowercase form. The value is random.
#[verifier::external_body]
pub(crate) fn new_state_key() -> (res: String)
    ensures
        is_uuid_text(res@),
{
    Uuid::new_v4().to_string()
}

/// Name for what `Passkey::update_credential` makes of the passkey whose
/// JSON is `stored`, given the `AuthenticationResult` whose JSON is
/// `result` (it raises the counter and the backup flags when the credential
/// ids agree): the JSON of the updated passkey, or `None` when either does
/// not deserialise or the passkey does not serialise. A function of the
/// two byte strings alone.
pub uninterp spec fn refreshed_passkey(stored: Seq<u8>, result: Seq<u8>) -> Option<Seq<u8>>;

/// Trusted: `Passkey::update_credential` on a passkey and an authentication
/// result given in their serialised forms; the answer is named by
/// `refreshed_passkey`.
#[verifier::external_body]
pub(crate) fn refresh_passkey(stored: &[u8], result: &[u8]) -> (res: Option<Vec<u8>>)
    ensures
        match res {
            Some(v) => refreshed_passkey(stored@, result@) == Some(v@),
            None => refreshed_passkey(stored@, result@) is None,
        },
{
    let mut passkey: Passkey = serde_json::from_slice(stored).ok()?;
    let result: AuthenticationResult = serde_json::from_slice(result).ok()?;
    passkey.update_credential(&result);
    serde_json::to_vec(&passkey).ok()
}

/// Trusted: `serde_json::to_vec` of a pending registration. It always
/// succeeds: `to_vec` fails only when a `Serialize` impl fails or a map has
/// non-string keys, and the registration state holds neither (derived impls,
/// byte strings written as base64 text, no maps).
#[verifier::external_body]
pub(crate) fn encode_registration(state: &PasskeyRegistration) -> (res: Result<Vec<u8>, serde_json::Error>)
    ensures
        res is Ok,
{
    serde_json::to_vec(state)
}

/// Trusted: `serde_json::to_vec` of a pending authentication.
#[verifier::external_body]
pub(crate) fn encode_authentication(state: &PasskeyAuthentication) -> Result<
    Vec<u8>,
    serde_json::Error,
> {
    serde_json::to_vec(state)
}

} // verus!
