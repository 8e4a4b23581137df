//! Session tokens: 32 random bytes written as 64 lowercase hex digits.

use vstd::prelude::*;

verus! {

/// The lowercase hex digits, by value.
pub open spec fn hex_alphabet() -> Seq<char> {
    seq!['0', '1', '2', '3', '4', '5', '6', '7', '8', '9', 'a', 'b', 'c', 'd', 'e', 'f']
}

/// A lowercase hex digit.
pub open spec fn is_lower_hex_digit(c: char) -> bool {
    ('0' <= c <= '9') || ('a' <= c <= 'f')
}

/// `bytes` in lowercase hex, two digits per byte, high nibble first.
pub open spec fn hex_lower(bytes: Seq<u8>) -> Seq<char>
    decreases bytes.len(),
{
    if bytes.len() == 0 {
        Seq::empty()
    } else {
        seq![hex_alphabet()[(bytes[0] / 16) as int], hex_alphabet()[(bytes[0] % 16) as int]]
            + hex_lower(bytes.drop_first())
    }
}

/// What a session token looks like: 64 lowercase hex digits that encode 32 bytes.
pub open spec fn is_session_token(t: Seq<char>) -> bool {
    &&& t.len() == 64
    &&& forall|i: int| 0 <= i < t.len() ==> is_lower_hex_digit(#[trigger] t[i])
    &&& exists|b: Seq<u8>| b.len() == 32 && t == hex_lower(b)
}

/// Lowercase hex has two digits per byte, all of them lowercase hex digits.
pub proof fn lemma_hex_lower_shape(bytes: Seq<u8>)
    ensures
        hex_lower(bytes).len() == 2 * bytes.len(),
        forall|i: int| 0 <= i < hex_lower(bytes).len() ==> is_lower_hex_digit(#[trigger] hex_lower(bytes)[i]),
    decreases bytes.len(),
{
    if bytes.len() > 0 {
        lemma_hex_lower_shape(bytes.drop_first());
        let head = seq![hex_alphabet()[(bytes[0] / 16) as int], hex_alphabet()[(bytes[0] % 16) as int]];
        let tail = hex_lower(bytes.drop_first());
        assert(hex_lower(bytes) == head + tail);
        assert forall|i: int| 0 <= i < hex_lower(bytes).len() implies is_lower_hex_digit(#[trigger] hex_lower(bytes)[i]) by {
            if i < 2 {
                let n: int = if i == 0 { (bytes[0] / 16) as int } else { (bytes[0] % 16) as int };
                assert(0 <= n < 16);
                assert(hex_lower(bytes)[i] == hex_alphabet()[n]);
            } else {
                assert(hex_lower(bytes)[i] == tail[i - 2]);
            }
        }
    }
}

/// Trusted: `hex::encode` writes each byte as two lowercase hex digits, high
/// nibble first (the crate's documentation and its `HEX_CHARS_LOWER` table).
#[verifier::external_body]
fn hex_encode(bytes: &[u8; 32]) -> (res: String)
    ensures
        res@ == hex_lower(bytes@),
{
    hex::encode(bytes)
}

/// Trusted: `rand::random` draws 32 bytes from the thread-local generator.
/// Nothing is claimed of the bytes.
#[verifier::external_body]
fn random_bytes() -> [u8; 32] {
    rand::random()
}

/// A fresh session token: 32 random bytes in lowercase hex.
pub fn random_token() -> (res: String)
    ensures
        is_session_token(res@),
{
    let bytes = random_bytes();
    let res = hex_encode(&bytes);
    proof {
        lemma_hex_lower_shape(bytes@);
    }
    res
}

} // verus!
