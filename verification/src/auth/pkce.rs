//! PKCE (RFC 7636) with the S256 challenge method.

use vstd::prelude::*;
use vstd::utf8::encode_utf8;
use crate::encoding::{base64url_encode, base64url_encoded, sha256, sha256_digest};
use crate::entropy::random_bytes_32;

verus! {

/// `BASE64URL(SHA256(ASCII(verifier)))`, the S256 code challenge of a verifier.
pub open spec fn s256_challenge(verifier: Seq<char>) -> Seq<char> {
    base64url_encoded(sha256(encode_utf8(verifier)))
}

/// A PKCE code verifier and its S256 challenge.
#[derive(Debug, Clone)]
pub struct PkcePair {
    pub verifier: String,
    pub challenge: String,
}

impl PkcePair {
    /// The pair for a given verifier.
    pub fn from_verifier(verifier: String) -> (p: PkcePair)
        ensures
            p.verifier@ == verifier@,
            p.challenge@ == s256_challenge(verifier@),
    {
        let digest = sha256_digest(verifier.as_str().as_bytes());
        let challenge = base64url_encode(digest.as_slice());
        PkcePair { verifier, challenge }
    }

    /// A fresh pair: the verifier is 32 random bytes in base64url (43 characters).
    pub fn new() -> (p: PkcePair)
        ensures
            p.challenge@ == s256_challenge(p.verifier@),
            exists|b: Seq<u8>| b.len() == 32 && p.verifier@ == base64url_encoded(b),
    {
        let bytes = random_bytes_32();
        let verifier = base64url_encode(bytes.as_slice());
        PkcePair::from_verifier(verifier)
    }
}

} // verus!
