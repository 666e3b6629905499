//! PKCE material: the verifier/challenge pair that binds the authorization
//! code to this client, and the CSRF state nonce.
//!
//! The challenge is the base64url-encoded (unpadded) SHA-256 digest of the
//! verifier's bytes.  The digest itself comes from an outside crate and is
//! only named here; the base64url encoding is specified exactly, so the
//! derivation `verifier -> challenge` is a function of the verifier alone.

use vstd::prelude::*;
use vstd::string::StringSliceAdditionalSpecFns;

use sha2::Digest;

verus! {

/// The SHA-256 digest of a byte sequence, named; stated facts about it live
/// on the trusted items that apply it.
pub uninterp spec fn sha256_of(bytes: Seq<u8>) -> Seq<u8>;

/// The base64url alphabet, by 6-bit value.
pub open spec fn b64url_char(v: int) -> char
    recommends
        0 <= v < 64,
{
    seq![
        'A', 'B', 'C', 'D', 'E', 'F', 'G', 'H', 'I', 'J', 'K', 'L', 'M', 'N', 'O', 'P', 'Q', 'R',
        'S', 'T', 'U', 'V', 'W', 'X', 'Y', 'Z', 'a', 'b', 'c', 'd', 'e', 'f', 'g', 'h', 'i', 'j',
        'k', 'l', 'm', 'n', 'o', 'p', 'q', 'r', 's', 't', 'u', 'v', 'w', 'x', 'y', 'z', '0', '1',
        '2', '3', '4', '5', '6', '7', '8', '9', '-', '_',
    ][v]
}

/// Unpadded base64url of a byte sequence, three input bytes to four output
/// characters, with two- and three-character tails.
pub open spec fn b64url_chars(bs: Seq<u8>) -> Seq<char>
    decreases bs.len(),
{
    if bs.len() == 0 {
        Seq::empty()
    } else if bs.len() == 1 {
        let x = bs[0] as int;
        seq![b64url_char(x / 4), b64url_char((x % 4) * 16)]
    } else if bs.len() == 2 {
        let x = bs[0] as int;
        let y = bs[1] as int;
        seq![b64url_char(x / 4), b64url_char((x % 4) * 16 + y / 16), b64url_char((y % 16) * 4)]
    } else {
        let x = bs[0] as int;
        let y = bs[1] as int;
        let z = bs[2] as int;
        seq![
            b64url_char(x / 4),
            b64url_char((x % 4) * 16 + y / 16),
            b64url_char((y % 16) * 4 + z / 64),
            b64url_char(z % 64),
        ] + b64url_chars(bs.skip(3))
    }
}

/// What the challenge is, given the verifier's bytes.
pub open spec fn pkce_challenge_of(verifier_bytes: Seq<u8>) -> Seq<char> {
    b64url_chars(sha256_of(verifier_bytes))
}

/// ASCII characters read as bytes.
pub open spec fn bytes_of_chars(s: Seq<char>) -> Seq<u8> {
    s.map(|i: int, c: char| c as u8)
}

/// A character of the base64url alphabet.
pub open spec fn is_b64url_char(c: char) -> bool {
    ('A' <= c && c <= 'Z') || ('a' <= c && c <= 'z') || ('0' <= c && c <= '9') || c == '-' || c
        == '_'
}

/// Relies on sha2's `Sha256::digest`: 32 bytes, a function of the input
/// bytes alone, the same on every machine.
#[verifier::external_body]
fn sha256(bytes: &[u8]) -> (r: Vec<u8>)
    ensures
        r@ == sha256_of(bytes@),
        r@.len() == 32,
{
    sha2::Sha256::digest(bytes).to_vec()
}

/// Relies on the base64 crate's `URL_SAFE_NO_PAD` engine: standard base64url
/// without padding, as `b64url_chars` spells out.
#[verifier::external_body]
pub(crate) fn b64url_nopad(bytes: &[u8]) -> (r: String)
    ensures
        r@ == b64url_chars(bytes@),
{
    base64::Engine::encode(&base64::engine::general_purpose::URL_SAFE_NO_PAD, bytes)
}

/// Derives the S256 challenge for a verifier.  Deterministic: the result
/// depends on the verifier's bytes alone.
pub fn challenge_s256(verifier: &str) -> (r: String)
    ensures
        r@ == pkce_challenge_of(verifier.spec_bytes()),
{
    let digest = sha256(verifier.as_bytes());
    b64url_nopad(digest.as_slice())
}

/// Relies on oauth2's `PkceCodeChallenge::new_random_sha256`: 32 fresh random
/// bytes, base64url-encoded into a 43-character verifier from the base64url
/// alphabet, with the challenge computed as the base64url-encoded SHA-256
/// digest of the verifier's bytes.  Returns `(verifier, challenge)`.
#[verifier::external_body]
pub(crate) fn new_random_pkce() -> (r: (String, String))
    ensures
        r.0@.len() == 43,
        forall|i: int| 0 <= i < r.0@.len() ==> is_b64url_char(#[trigger] r.0@[i]),
        r.1@ == pkce_challenge_of(bytes_of_chars(r.0@)),
{
    let (challenge, verifier) = oauth2::PkceCodeChallenge::new_random_sha256();
    (verifier.secret().to_string(), challenge.as_str().to_string())
}

/// Relies on oauth2's `CsrfToken::new_random`: 16 fresh random bytes,
/// base64url-encoded into 22 characters from the base64url alphabet.
#[verifier::external_body]
pub(crate) fn new_random_state() -> (r: String)
    ensures
        r@.len() == 22,
        forall|i: int| 0 <= i < r@.len() ==> is_b64url_char(#[trigger] r@[i]),
{
    oauth2::CsrfToken::new_random().secret().to_string()
}

} // verus!
