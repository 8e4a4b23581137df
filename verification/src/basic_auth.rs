//! HTTP Basic authentication, the fallback for clients without a session
//! cookie.

use vstd::prelude::*;
use vstd::utf8::{decode_utf8, valid_utf8, encode_utf8};
use vstd::string::StringSliceAdditionalSpecFns;
use base64::DecodeError;
use base64::Engine;
use crate::text::{chars_of, find_char, find_char_from, lemma_find_char_bounds, opt_view, range_equals, range_starts_with, string_of_range, trim, trim_range};

verus! {

#[verifier::external_type_specification]
#[verifier::external_body]
pub struct ExDecodeError(DecodeError);

/// Name for what `STANDARD.decode` (standard alphabet, padded) of the
/// `base64` crate returns on `input`: the decoded bytes, or `None` when
/// `input` is not valid Base64.
pub uninterp spec fn base64_standard_decode(input: Seq<u8>) -> Option<Seq<u8>>;

/// Trusted: `base64::engine::general_purpose::STANDARD.decode`, a function of
/// its input alone; `Ok` carries the decoded bytes.
#[verifier::external_body]
fn decode_base64_standard(input: &[u8]) -> (res: Result<Vec<u8>, DecodeError>)
    ensures
        match res {
            Ok(v) => base64_standard_decode(input@) == Some(v@),
            Err(_) => base64_standard_decode(input@) is None,
        },
{
    base64::engine::general_purpose::STANDARD.decode(input)
}

/// Trusted: `String::from_utf8` succeeds exactly on valid UTF-8 and then
/// holds the characters that the bytes encode.
#[verifier::external_body]
fn string_from_utf8(bytes: Vec<u8>) -> (res: Option<String>)
    ensures
        res is Some <==> valid_utf8(bytes@),
        res matches Some(s) ==> s@ == decode_utf8(bytes@),
{
    String::from_utf8(bytes).ok()
}

/// Whether Basic authentication is configured: a user or a password is set.
pub fn needs_basic_auth(user: &str, password: &str) -> (res: bool)
    ensures
        res == (user@.len() != 0 || password@.len() != 0),
{
    !user.is_empty() || !password.is_empty()
}

/// The credentials part of an `Authorization` value in the `Basic` scheme
/// (written `Basic ` or `basic `), or `None` for another scheme.
pub open spec fn basic_scheme_payload(h: Seq<char>) -> Option<Seq<char>> {
    if seq!['B', 'a', 's', 'i', 'c', ' '].is_prefix_of(h) || seq![
        'b',
        'a',
        's',
        'i',
        'c',
        ' ',
    ].is_prefix_of(h) {
        Some(h.skip(6))
    } else {
        None
    }
}

/// Decoded Basic credentials `user:password` match the configured pair: the
/// bytes are UTF-8, hold a `:`, and what stands before the first `:` is
/// `user` and what follows it is `password`.
pub open spec fn credentials_match(decoded: Seq<u8>, user: Seq<char>, password: Seq<char>) -> bool {
    &&& valid_utf8(decoded)
    &&& {
        let s = decode_utf8(decoded);
        let i = find_char(s, ':');
        &&& i < s.len()
        &&& s.take(i) == user
        &&& s.skip(i + 1) == password
    }
}

/// An `Authorization` header (`None` when absent or not visible ASCII)
/// carries Basic credentials that match `user` and `password`.
pub open spec fn basic_auth_accepts(
    header: Option<Seq<char>>,
    user: Seq<char>,
    password: Seq<char>,
) -> bool {
    match header {
        None => false,
        Some(h) => match basic_scheme_payload(h) {
            None => false,
            Some(p) => match base64_standard_decode(encode_utf8(trim(p))) {
                None => false,
                Some(raw) => credentials_match(raw, user, password),
            },
        },
    }
}

/// Checks the bytes that a Basic `Authorization` value decodes to against
/// the configured `user` and `password`.
pub fn check_decoded_credentials(decoded: Vec<u8>, user: &str, password: &str) -> (res: bool)
    ensures
        res == credentials_match(decoded@, user@, password@),
{
    let ghost raw = decoded@;
    let s = match string_from_utf8(decoded) {
        Some(s) => s,
        None => return false,
    };
    let v = chars_of(s.as_str());
    let i = find_char_from(&v, 0, ':');
    assert(v@.subrange(0, v@.len() as int) =~= v@);
    if i == v.len() {
        return false;
    }
    let u = chars_of(user);
    let p = chars_of(password);
    proof {
        lemma_find_char_bounds(v@, ':');
    }
    assert(v@.take(i as int) =~= v@.subrange(0, i as int));
    assert(v@.skip(i + 1) =~= v@.subrange(i + 1, v@.len() as int));
    range_equals(&v, 0, i, &u) && range_equals(&v, i + 1, v.len(), &p)
}

/// Whether the request's `Authorization` header (`None` when absent or not
/// visible ASCII) carries Basic credentials equal to `user` and `password`.
pub fn basic_auth_ok(user: &str, password: &str, authorization: Option<&str>) -> (res: bool)
    ensures
        res == basic_auth_accepts(opt_view(authorization), user@, password@),
{
    let h = match authorization {
        Some(h) => h,
        None => return false,
    };
    let v = chars_of(h);
    let upper = vec!['B', 'a', 's', 'i', 'c', ' '];
    let lower = vec!['b', 'a', 's', 'i', 'c', ' '];
    assert(v@.subrange(0, v@.len() as int) =~= v@);
    if !range_starts_with(&v, 0, v.len(), &upper) && !range_starts_with(&v, 0, v.len(), &lower) {
        return false;
    }
    assert(basic_scheme_payload(v@) == Some(v@.subrange(6, v@.len() as int)));
    let (a, b) = trim_range(&v, 6, v.len());
    let t = string_of_range(&v, a, b);
    let bytes = t.as_str().as_bytes();
    match decode_base64_standard(bytes) {
        Ok(raw) => check_decoded_credentials(raw, user, password),
        Err(_) => false,
    }
}

} // verus!
