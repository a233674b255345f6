//! Keys, signatures and the values that come from chance or the clock.

use vstd::prelude::*;
use p256::ecdsa::signature::Signer;
use rand::RngCore;

verus! {

/// The affine `(x, y)` coordinates of the P-256 public key of a secret scalar,
/// or `None` when the bytes are not a valid secret scalar.
pub uninterp spec fn p256_public_point(secret: Seq<u8>) -> Option<(Seq<u8>, Seq<u8>)>;

/// The ES256 (ECDSA P-256, SHA-256, RFC 6979) signature `r || s` of a message,
/// or `None` when the secret is not valid or signing fails.
pub uninterp spec fn es256_signature(secret: Seq<u8>, message: Seq<u8>) -> Option<Seq<u8>>;

/// Calls `p256::ecdsa::SigningKey::random(&mut OsRng)` and reads the secret
/// bytes and the uncompressed public point of the new key.
/// Claims that the coordinates returned are `p256_public_point` of the secret
/// returned, and that the secret (`to_bytes`) and each coordinate are 32
/// bytes, the field size of P-256; nothing more is claimed of the secret,
/// which is random.
#[verifier::external_body]
pub(crate) fn generate_p256_key() -> (r: (Vec<u8>, Vec<u8>, Vec<u8>))
    ensures
        p256_public_point(r.0@) == Some((r.1@, r.2@)),
        r.0@.len() == 32,
        r.1@.len() == 32,
        r.2@.len() == 32,
{
    let key = p256::ecdsa::SigningKey::random(&mut rand::rngs::OsRng);
    let point = key.verifying_key().to_encoded_point(false);
    (key.to_bytes().to_vec(), point.x().expect("x").to_vec(), point.y().expect("y").to_vec())
}

/// Rebuilds the key with `SigningKey::from_slice` and signs with
/// `Signer::try_sign`, returning `Signature::to_bytes`.
/// Claims that the outcome is `es256_signature` of the arguments, and that a
/// signature is 64 bytes (`r` and `s`, 32 bytes each). Signing is not claimed
/// to succeed: `sign_prehashed` refuses a zero `r` or `s`.
#[verifier::external_body]
pub(crate) fn es256_sign(secret: &[u8], message: &[u8]) -> (r: Option<Vec<u8>>)
    ensures
        match r {
            Some(sig) => es256_signature(secret@, message@) == Some(sig@) && sig@.len() == 64,
            None => es256_signature(secret@, message@) is None,
        },
{
    let key = p256::ecdsa::SigningKey::from_slice(secret).ok()?;
    let sig: p256::ecdsa::Signature = key.try_sign(message).ok()?;
    Some(sig.to_bytes().to_vec())
}

/// Fills 32 bytes from `rand::rngs::OsRng`. Claims only the length.
#[verifier::external_body]
pub(crate) fn random_bytes_32() -> (r: Vec<u8>)
    ensures
        r@.len() == 32,
{
    let mut b = [0u8; 32];
    rand::rngs::OsRng.fill_bytes(&mut b);
    b.to_vec()
}

/// A lower-case hexadecimal digit.
pub open spec fn is_lower_hex_digit(c: char) -> bool {
    ('0' <= c && c <= '9') || ('a' <= c && c <= 'f')
}

/// The hyphenated lower-case text of a version-4 UUID (RFC 9562): 36
/// characters, hyphens after the 8th, 12th, 16th and 20th hex digit, the
/// version digit `4`, and a variant digit among `8`, `9`, `a`, `b`.
pub open spec fn is_uuid_v4_text(s: Seq<char>) -> bool {
    &&& s.len() == 36
    &&& forall|i: int| #![trigger s[i]] 0 <= i < 36 ==> if i == 8 || i == 13 || i == 18 || i == 23 {
        s[i] == '-'
    } else {
        is_lower_hex_digit(s[i])
    }
    &&& s[14] == '4'
    &&& (s[19] == '8' || s[19] == '9' || s[19] == 'a' || s[19] == 'b')
}

/// Calls `uuid::Uuid::new_v4` and renders it with `to_string`.
/// Claims only the form of the text: `new_v4` sets the version and variant
/// bits, and `Display` writes the hyphenated lower-case form. Which UUID
/// comes is random and not claimed.
#[verifier::external_body]
pub(crate) fn random_uuid() -> (r: String)
    ensures
        is_uuid_v4_text(r@),
{
    uuid::Uuid::new_v4().to_string()
}

/// Seconds since the Unix epoch from `SystemTime::now().duration_since(UNIX_EPOCH)`,
/// or the error's text when the clock is before the epoch.
/// Nothing is claimed of the result, which depends on the clock.
#[verifier::external_body]
pub(crate) fn unix_time_secs() -> (r: Result<u64, String>) {
    std::time::SystemTime::now()
        .duration_since(std::time::UNIX_EPOCH)
        .map(|d| d.as_secs())
        .map_err(|e| e.to_string())
}

} // verus!
