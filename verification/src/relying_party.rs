//! The WebAuthn relying party: the origin URL that the ceremonies run for,
//! the relying-party id that must be its domain or a parent of it, and the
//! ceremony calls into `webauthn-rs`.
//!
//! A relying party carries the id and the origin text it was built from.
//! Only the functions of this module build one, and only from those two
//! texts, so what a ceremony answers is a function of the texts and of the
//! plain bytes handed to it; the names below stand for those answers.

use vstd::prelude::*;
use url::Url;
use uuid::Uuid;
use webauthn_rs::prelude::{
    AuthenticationResult, CreationChallengeResponse, CredentialID, Passkey, PasskeyAuthentication,
    PasskeyRegistration, PublicKeyCredential, RegisterPublicKeyCredential,
    RequestChallengeResponse, WebauthnError,
};
use webauthn_rs::Webauthn;
use webauthn_rs::WebauthnBuilder;
use crate::auth_state::{opt_string_view, PasskeyRecord};

verus! {

#[verifier::external_type_specification]
#[verifier::external_body]
pub struct ExUrl(Url);

#[verifier::external_type_specification]
#[verifier::external_body]
pub struct ExWebauthn(Webauthn);

#[verifier::external_type_specification]
#[verifier::external_body]
pub struct ExWebauthnBuilder<'a>(WebauthnBuilder<'a>);

#[verifier::external_type_specification]
#[verifier::external_body]
pub struct ExWebauthnError(WebauthnError);

#[verifier::external_type_specification]
#[verifier::external_body]
pub struct ExPasskeyRegistration(PasskeyRegistration);

#[verifier::external_type_specification]
#[verifier::external_body]
pub struct ExPasskeyAuthentication(PasskeyAuthentication);

#[verifier::external_type_specification]
#[verifier::external_body]
pub struct ExCreationChallengeResponse(CreationChallengeResponse);

#[verifier::external_type_specification]
#[verifier::external_body]
pub struct ExRequestChallengeResponse(RequestChallengeResponse);

// ---------------------------------------------------------------------------
// Names for what the outside calls answer
// ---------------------------------------------------------------------------

/// Name for whether `url::Url::parse` accepts `input`, a function of the
/// input alone.
pub uninterp spec fn url_parses(input: Seq<char>) -> bool;

/// Name for the domain (`Url::domain`) of the URL that `url::Url::parse`
/// makes of `input`: `None` when its host is an IP address or there is none.
/// A function of the input alone.
pub uninterp spec fn url_domain(input: Seq<char>) -> Option<Seq<char>>;

/// Name for whether `serde_json::from_slice` reads a `Passkey` out of
/// `data`, a function of the bytes alone.
pub uninterp spec fn passkey_parses(data: Seq<u8>) -> bool;

/// Name for what `Webauthn::finish_passkey_registration` answers, for the
/// relying party built from `rp_id` and `rp_origin`, on the credential whose
/// JSON is `credential` and the pending state whose JSON is `state`: `None`
/// when either does not deserialise, the attestation does not check, or the
/// passkey does not serialise; otherwise the new passkey's credential id and
/// its JSON. A function of these four values alone.
pub uninterp spec fn registration_result(
    rp_id: Seq<char>,
    rp_origin: Seq<char>,
    credential: Seq<u8>,
    state: Seq<u8>,
) -> Option<(Seq<u8>, Seq<u8>)>;

/// Name for what `Webauthn::finish_passkey_authentication` answers, for the
/// relying party built from `rp_id` and `rp_origin`, on the credential whose
/// JSON is `credential` and the pending state whose JSON is `state`: `None`
/// when either does not deserialise, the assertion does not check, or the
/// result does not serialise; otherwise the authenticated credential id and
/// the JSON of the `AuthenticationResult`. A function of these four values
/// alone.
pub uninterp spec fn assertion_result(
    rp_id: Seq<char>,
    rp_origin: Seq<char>,
    credential: Seq<u8>,
    state: Seq<u8>,
) -> Option<(Seq<u8>, Seq<u8>)>;

// ---------------------------------------------------------------------------
// The relying party
// ---------------------------------------------------------------------------

/// A parsed origin URL, with its text and the domain of its host. Only
/// `parse_origin` makes one.
pub struct Origin {
    url: Url,
    text: String,
    domain: Option<String>,
}

impl Origin {
    /// The text the origin was parsed from.
    pub closed spec fn text_view(&self) -> Seq<char> {
        self.text@
    }

    /// The domain of the origin's host, if it has one.
    pub closed spec fn domain_view(&self) -> Option<Seq<char>> {
        opt_string_view(self.domain)
    }
}

/// A relying-party builder for id `rp_id` at an origin. Only
/// `webauthn_builder` makes one.
pub struct PartyBuilder<'a> {
    builder: WebauthnBuilder<'a>,
    rp_id: String,
    rp_origin: String,
}

impl<'a> PartyBuilder<'a> {
    /// The relying-party id.
    pub closed spec fn id(&self) -> Seq<char> {
        self.rp_id@
    }

    /// The origin's text.
    pub closed spec fn origin_text(&self) -> Seq<char> {
        self.rp_origin@
    }
}

/// A WebAuthn relying party, with the id and origin text it was built from
/// (by `WebauthnBuilder::new` on the parsed origin, then `build`). Only
/// `build_relying_party` makes one.
pub struct RelyingParty {
    webauthn: Webauthn,
    rp_id: String,
    rp_origin: String,
}

impl RelyingParty {
    /// The relying-party id.
    pub closed spec fn id(&self) -> Seq<char> {
        self.rp_id@
    }

    /// The origin's text.
    pub closed spec fn origin_text(&self) -> Seq<char> {
        self.rp_origin@
    }

    /// The `Webauthn` instance.
    pub closed spec fn webauthn_spec(&self) -> Webauthn {
        self.webauthn
    }

    /// The `Webauthn` instance.
    pub fn webauthn(&self) -> (res: &Webauthn)
        ensures
            *res == self.webauthn_spec(),
    {
        &self.webauthn
    }
}

/// `rp_id` may serve an origin with domain `domain`: the domain is `rp_id`
/// itself, or ends with `.` followed by `rp_id` (so `myexample.com` does not
/// fit `example.com`). An origin without a domain fits no id.
pub open spec fn rp_id_fits(rp_id: Seq<char>, domain: Option<Seq<char>>) -> bool {
    match domain {
        Some(d) => d == rp_id || seq!['.'].add(rp_id).is_suffix_of(d),
        None => false,
    }
}

/// Trusted: `url::Url::parse`, which succeeds exactly when `url_parses`
/// holds of the input. The URL is handed out with its text and its
/// `domain()`, named by `url_domain`; a failure is handed out as the
/// error's text, of which nothing is claimed.
#[verifier::external_body]
pub(crate) fn parse_origin(input: &str) -> (res: Result<Origin, String>)
    ensures
        res is Ok <==> url_parses(input@),
        res matches Ok(o) ==> o.domain_view() == url_domain(input@) && o.text_view() == input@,
{
    match Url::parse(input) {
        Ok(url) => {
            let domain = url.domain().map(|d| d.to_owned());
            Ok(Origin { url, text: input.to_owned(), domain })
        },
        Err(e) => Err(e.to_string()),
    }
}

/// Trusted: `WebauthnBuilder::new`, which accepts exactly the relying-party
/// ids that fit the origin's domain (`rp_id_fits`). A refusal is handed out
/// as the error's text, of which nothing is claimed.
#[verifier::external_body]
pub(crate) fn webauthn_builder<'a>(rp_id: &'a str, origin: &'a Origin) -> (res: Result<
    PartyBuilder<'a>,
    String,
>)
    ensures
        res is Ok <==> rp_id_fits(rp_id@, origin.domain_view()),
        res matches Ok(b) ==> b.id() == rp_id@ && b.origin_text() == origin.text_view(),
{
    match WebauthnBuilder::new(rp_id, &origin.url) {
        Ok(builder) => Ok(PartyBuilder { builder, rp_id: rp_id.to_owned(), rp_origin: origin.text.clone() }),
        Err(e) => Err(e.to_string()),
    }
}

/// Trusted: `WebauthnBuilder::build`, which in this version of the crate
/// always returns `Ok`.
#[verifier::external_body]
pub(crate) fn build_relying_party(builder: PartyBuilder) -> (res: Result<RelyingParty, WebauthnError>)
    ensures
        res matches Ok(p) ==> p.id() == builder.id() && p.origin_text() == builder.origin_text(),
        res is Ok,
{
    let PartyBuilder { builder, rp_id, rp_origin } = builder;
    builder.build().map(|webauthn| RelyingParty { webauthn, rp_id, rp_origin })
}

// ---------------------------------------------------------------------------
// Ceremonies
// ---------------------------------------------------------------------------

/// What a passkey registration asks the browser for: the user's id and
/// names, and the credentials the user has already registered.
pub struct RegistrationRequest {
    pub user_id: [u8; 16],
    pub user_name: String,
    pub display_name: String,
    pub exclude: Vec<Vec<u8>>,
}

/// Trusted: `Webauthn::start_passkey_registration`, with the user id and the
/// credential ids to exclude given as bytes. It fails exactly when the user
/// name or the display name is empty (the 16-byte user id never is); its
/// challenge is random, and nothing else is stated.
#[verifier::external_body]
pub(crate) fn start_registration(party: &RelyingParty, request: &RegistrationRequest) -> (res: Result<
    (CreationChallengeResponse, PasskeyRegistration),
    WebauthnError,
>)
    ensures
        res is Err <==> (request.user_name@.len() == 0 || request.display_name@.len() == 0),
{
    let user_id = Uuid::from_bytes(request.user_id);
    let exclude: Vec<CredentialID> = request.exclude.iter().map(|c| CredentialID::from(c.clone())).collect();
    party.webauthn.start_passkey_registration(user_id, &request.user_name, &request.display_name, Some(exclude))
}

/// Trusted: `Webauthn::finish_passkey_registration`, which checks the
/// attestation in `credential` (its JSON) against the pending state (its
/// JSON). The answer is named by `registration_result`: the new passkey's
/// credential id (`Passkey::cred_id`) and its JSON.
#[verifier::external_body]
pub(crate) fn finish_registration(party: &RelyingParty, credential: &[u8], state: &[u8]) -> (res:
    Option<PasskeyRecord>)
    ensures
        opt_record_view(res) == registration_result(
            party.id(),
            party.origin_text(),
            credential@,
            state@,
        ),
{
    let credential: RegisterPublicKeyCredential = serde_json::from_slice(credential).ok()?;
    let state: PasskeyRegistration = serde_json::from_slice(state).ok()?;
    let passkey: Passkey = party.webauthn.finish_passkey_registration(&credential, &state).ok()?;
    let data = serde_json::to_vec(&passkey).ok()?;
    Some(PasskeyRecord { cred_id: passkey.cred_id().as_ref().to_vec(), data })
}

/// Trusted: `Webauthn::start_passkey_authentication` over the passkeys held
/// in `records`, in their serialised form. With the policy it fixes
/// (`Required`) the call itself never fails, so the answer is `Some`
/// exactly when every record deserialises (`passkey_parses`). Its challenge
/// is random; nothing else is stated.
#[verifier::external_body]
pub(crate) fn start_authentication(party: &RelyingParty, records: &Vec<PasskeyRecord>) -> (res:
    Option<(RequestChallengeResponse, PasskeyAuthentication)>)
    ensures
        res is Some <==> forall|i: int|
            0 <= i < records@.len() ==> passkey_parses(#[trigger] records@[i].data@),
{
    let passkeys: Vec<Passkey> = records
        .iter()
        .map(|r| serde_json::from_slice(&r.data))
        .collect::<Result<Vec<Passkey>, serde_json::Error>>()
        .ok()?;
    party.webauthn.start_passkey_authentication(&passkeys).ok()
}

/// Trusted: `Webauthn::finish_passkey_authentication`, which checks the
/// assertion in `credential` (its JSON) against the pending state (its
/// JSON). The answer is named by `assertion_result`: the authenticated
/// credential id (`AuthenticationResult::cred_id`) and the result's JSON.
#[verifier::external_body]
pub(crate) fn finish_authentication(party: &RelyingParty, credential: &[u8], state: &[u8]) -> (res:
    Option<(Vec<u8>, Vec<u8>)>)
    ensures
        opt_pair_view(res) == assertion_result(
            party.id(),
            party.origin_text(),
            credential@,
            state@,
        ),
{
    let credential: PublicKeyCredential = serde_json::from_slice(credential).ok()?;
    let state: PasskeyAuthentication = serde_json::from_slice(state).ok()?;
    let result: AuthenticationResult = party.webauthn.finish_passkey_authentication(&credential, &state).ok()?;
    let json = serde_json::to_vec(&result).ok()?;
    Some((result.cred_id().as_ref().to_vec(), json))
}

/// The views of an optional record.
pub open spec fn opt_record_view(o: Option<PasskeyRecord>) -> Option<(Seq<u8>, Seq<u8>)> {
    match o {
        Some(r) => Some(r@),
        None => None,
    }
}

/// The views of an optional pair of byte strings.
pub open spec fn opt_pair_view(o: Option<(Vec<u8>, Vec<u8>)>) -> Option<(Seq<u8>, Seq<u8>)> {
    match o {
        Some(p) => Some((p.0@, p.1@)),
        None => None,
    }
}

} // verus!
