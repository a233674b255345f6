//! DPoP (RFC 9449) proofs signed with a per-session ES256 key.

use vstd::prelude::*;
use vstd::utf8::encode_utf8;
use crate::encoding::{
    base64url_encode, base64url_encoded, is_base64url_char, json_integer, json_integer_literal,
    json_string, json_string_literal, sha256, sha256_digest,
};
use crate::entropy::{
    es256_sign, es256_signature, generate_p256_key, is_uuid_v4_text, p256_public_point, random_uuid,
    unix_time_secs,
};
use crate::error::SolidSyncError;
use crate::text::{has_char, join_with, lemma_split_join, split_char};

verus! {

/// The public JSON Web Key of a DPoP key (`kty`, `crv`, `x`, `y`).
#[derive(Debug, Clone)]
pub struct Jwk {
    pub kty: String,
    pub crv: String,
    pub x: String,
    pub y: String,
}

/// The JWK that publishes the P-256 public key of a secret scalar: its
/// coordinates are 32 bytes each, 43 characters of base64url.
pub open spec fn is_jwk_of(jwk: Jwk, secret: Seq<u8>) -> bool {
    &&& jwk.kty@ == "EC"@
    &&& jwk.crv@ == "P-256"@
    &&& p256_public_point(secret) matches Some(pt) && jwk.x@ == base64url_encoded(pt.0)
        && jwk.y@ == base64url_encoded(pt.1) && pt.0.len() == 32 && pt.1.len() == 32
    &&& jwk.x@.len() == 43
    &&& jwk.y@.len() == 43
}

/// ES256 (P-256) signing key used for DPoP proofs, with the public JWK that
/// goes into the `jwk` JOSE header of every proof.
///
/// One key is generated per session and reused for every resource request.
pub struct DpopKey {
    secret: Vec<u8>,
    jwk: Jwk,
}

impl DpopKey {
    /// The key is a 32-byte scalar, and its JWK publishes the key's own
    /// public point.
    #[verifier::type_invariant]
    spec fn key_matches_jwk(self) -> bool {
        &&& self.secret@.len() == 32
        &&& is_jwk_of(self.jwk, self.secret@)
    }

    /// The public JWK of this key.
    pub closed spec fn public_jwk(self) -> Jwk {
        self.jwk
    }

    /// The secret scalar of this key.
    pub closed spec fn secret_scalar(self) -> Seq<u8> {
        self.secret@
    }

    /// A fresh random key.
    pub fn new() -> (k: DpopKey)
        ensures
            is_jwk_of(k.public_jwk(), k.secret_scalar()),
            k.secret_scalar().len() == 32,
    {
        let (secret, x, y) = generate_p256_key();
        let jwk = Jwk {
            kty: "EC".to_owned(),
            crv: "P-256".to_owned(),
            x: base64url_encode(x.as_slice()),
            y: base64url_encode(y.as_slice()),
        };
        DpopKey { secret, jwk }
    }

    /// The public JWK, for the `jwk` header.
    pub fn jwk(&self) -> (j: &Jwk)
        ensures
            *j == self.public_jwk(),
            is_jwk_of(*j, self.secret_scalar()),
            self.secret_scalar().len() == 32,
    {
        proof {
            use_type_invariant(self);
        }
        &self.jwk
    }

    /// Builds a DPoP proof JWT, stamped with the current time and a fresh `jti`.
    ///
    /// * `htm` — the HTTP method, upper-case ("GET", "POST", ...).
    /// * `htu` — the full request URL (minus query/fragment per RFC 9449).
    /// * `access_token` — when bound to an existing access token, the `ath`
    ///   claim (SHA-256 hash of the token) is included. `None` for the initial
    ///   token request.
    /// * `nonce` — server-supplied DPoP nonce, if the provider requested one.
    ///
    /// Fails with `Crypto` when the clock reads before the Unix epoch, or when
    /// the signature cannot be made, which is reported rather than a panic.
    pub fn proof_jwt(&self, htm: &str, htu: &str, access_token: Option<&str>, nonce: Option<&str>) -> (r:
        Result<String, SolidSyncError>)
        ensures
            match r {
                Ok(t) => exists|iat: i64, jti: Seq<char>|
                    is_uuid_v4_text(jti) && dpop_proof(self.public_jwk(), self.secret_scalar(), iat, jti, htm@, htu@, opt_str(access_token), opt_str(nonce))
                        == Some(t@),
                Err(SolidSyncError::Crypto(_)) => true,
                Err(_) => false,
            },
            r matches Ok(t) ==> is_dpop_jwt_of(t@, self.public_jwk(), self.secret_scalar()),
    {
        let clock = unix_time_secs();
        let jti = random_uuid();
        self.proof_jwt_from_clock(clock, jti.as_str(), htm, htu, access_token, nonce)
    }

    /// Builds a DPoP proof JWT from a reading of the clock in seconds since
    /// the Unix epoch: a failed reading is a `Crypto` error with its text;
    /// otherwise the proof is stamped with the reading as `iat`.
    pub fn proof_jwt_from_clock(
        &self,
        clock: Result<u64, String>,
        jti: &str,
        htm: &str,
        htu: &str,
        access_token: Option<&str>,
        nonce: Option<&str>,
    ) -> (r: Result<String, SolidSyncError>)
        ensures
            match clock {
                Err(m) => r matches Err(SolidSyncError::Crypto(e)) && e@ == m@,
                Ok(n) => match dpop_proof(self.public_jwk(), self.secret_scalar(), n as i64, jti@, htm@, htu@, opt_str(access_token), opt_str(nonce)) {
                    Some(t) => r matches Ok(s) && s@ == t,
                    None => r matches Err(SolidSyncError::Crypto(m)) && m@ == "signature operation failed"@,
                },
            },
            r matches Ok(t) ==> is_dpop_jwt_of(t@, self.public_jwk(), self.secret_scalar()),
    {
        match clock {
            Ok(n) => self.proof_jwt_at(n as i64, jti, htm, htu, access_token, nonce),
            Err(m) => Err(SolidSyncError::Crypto(m)),
        }
    }

    /// Builds a DPoP proof JWT with the given issue time and identifier.
    pub fn proof_jwt_at(
        &self,
        iat: i64,
        jti: &str,
        htm: &str,
        htu: &str,
        access_token: Option<&str>,
        nonce: Option<&str>,
    ) -> (r: Result<String, SolidSyncError>)
        ensures
            match dpop_proof(self.public_jwk(), self.secret_scalar(), iat, jti@, htm@, htu@, opt_str(access_token), opt_str(nonce)) {
                Some(t) => r matches Ok(s) && s@ == t,
                None => r matches Err(SolidSyncError::Crypto(m)) && m@ == "signature operation failed"@,
            },
            r matches Ok(t) ==> is_dpop_jwt_of(t@, self.public_jwk(), self.secret_scalar()),
    {
        let header = header_json(&self.jwk);
        let ath = match access_token {
            Some(tok) => Some(access_token_hash(tok)),
            None => None,
        };
        let claims = claims_json(iat, jti, htm, htu, ath, nonce);
        let header_part = base64url_encode(header.as_str().as_bytes());
        let claims_part = base64url_encode(claims.as_str().as_bytes());
        let mut signing_input = header_part.clone();
        signing_input.append(".");
        signing_input.append(claims_part.as_str());
        match es256_sign(self.secret.as_slice(), signing_input.as_str().as_bytes()) {
            Some(sig) => {
                let sig_part = base64url_encode(sig.as_slice());
                let mut jwt = signing_input;
                jwt.append(".");
                jwt.append(sig_part.as_str());
                proof {
                    lemma_three_segments(header_part@, claims_part@, sig_part@);
                    reveal_strlit("{\"alg\":\"ES256\",\"jwk\":{\"crv\":");
                    reveal_strlit("{");
                    lemma_utf8_nonempty(header@);
                    lemma_utf8_nonempty(claims@);
                    assert(split_char(jwt@, '.')[2] == base64url_encoded(sig@));
                }
                Ok(jwt)
            },
            None => Err(SolidSyncError::Crypto("signature operation failed".to_owned())),
        }
    }
}

/// The view of an optional string slice.
pub open spec fn opt_str(o: Option<&str>) -> Option<Seq<char>> {
    match o {
        Some(s) => Some(s@),
        None => None,
    }
}

/// The JOSE header of a proof: `{"alg":"ES256","jwk":{...},"typ":"dpop+jwt"}`,
/// members in the order serde_json's sorted maps give.
pub open spec fn dpop_header_json(jwk: Jwk) -> Seq<char> {
    "{\"alg\":\"ES256\",\"jwk\":{\"crv\":"@ + json_string_literal(jwk.crv@) + ",\"kty\":"@
        + json_string_literal(jwk.kty@) + ",\"x\":"@ + json_string_literal(jwk.x@) + ",\"y\":"@
        + json_string_literal(jwk.y@) + "},\"typ\":\"dpop+jwt\"}"@
}

/// The `ath` claim for an access token: base64url of its SHA-256 hash.
pub open spec fn access_token_hash_of(token: Seq<char>) -> Seq<char> {
    base64url_encoded(sha256(encode_utf8(token)))
}

/// The claims of a proof, members in sorted order; `ath` and `nonce` only when given.
pub open spec fn dpop_claims_json(
    iat: i64,
    jti: Seq<char>,
    htm: Seq<char>,
    htu: Seq<char>,
    ath: Option<Seq<char>>,
    nonce: Option<Seq<char>>,
) -> Seq<char> {
    let ath_part = match ath {
        Some(a) => "\"ath\":"@ + json_string_literal(a) + ","@,
        None => Seq::empty(),
    };
    let nonce_part = match nonce {
        Some(n) => ",\"nonce\":"@ + json_string_literal(n),
        None => Seq::empty(),
    };
    "{"@ + ath_part + "\"htm\":"@ + json_string_literal(htm) + ",\"htu\":"@ + json_string_literal(htu)
        + ",\"iat\":"@ + json_integer_literal(iat) + ",\"jti\":"@ + json_string_literal(jti)
        + nonce_part + "}"@
}

/// `base64url(header) . base64url(claims)`, the text that is signed.
pub open spec fn dpop_signing_input(header: Seq<char>, claims: Seq<char>) -> Seq<char> {
    base64url_encoded(encode_utf8(header)) + "."@ + base64url_encoded(encode_utf8(claims))
}

/// The proof JWT made with key `(jwk, secret)`, or `None` when signing fails.
pub open spec fn dpop_proof(
    jwk: Jwk,
    secret: Seq<u8>,
    iat: i64,
    jti: Seq<char>,
    htm: Seq<char>,
    htu: Seq<char>,
    access_token: Option<Seq<char>>,
    nonce: Option<Seq<char>>,
) -> Option<Seq<char>> {
    let ath = match access_token {
        Some(t) => Some(access_token_hash_of(t)),
        None => None,
    };
    let input = dpop_signing_input(dpop_header_json(jwk), dpop_claims_json(iat, jti, htm, htu, ath, nonce));
    match es256_signature(secret, encode_utf8(input)) {
        Some(sig) => Some(input + "."@ + base64url_encoded(sig)),
        None => None,
    }
}

fn append_json_member(out: &mut String, prefix: &str, value: &str)
    ensures
        final(out)@ == old(out)@ + prefix@ + json_string_literal(value@),
{
    out.append(prefix);
    out.append(json_string(value).as_str());
}

fn header_json(jwk: &Jwk) -> (s: String)
    ensures
        s@ == dpop_header_json(*jwk),
{
    let mut s = "{\"alg\":\"ES256\",\"jwk\":{\"crv\":".to_owned();
    s.append(json_string(jwk.crv.as_str()).as_str());
    append_json_member(&mut s, ",\"kty\":", jwk.kty.as_str());
    append_json_member(&mut s, ",\"x\":", jwk.x.as_str());
    append_json_member(&mut s, ",\"y\":", jwk.y.as_str());
    s.append("},\"typ\":\"dpop+jwt\"}");
    s
}

fn access_token_hash(token: &str) -> (s: String)
    ensures
        s@ == access_token_hash_of(token@),
{
    let digest = sha256_digest(token.as_bytes());
    base64url_encode(digest.as_slice())
}

fn claims_json(
    iat: i64,
    jti: &str,
    htm: &str,
    htu: &str,
    ath: Option<String>,
    nonce: Option<&str>,
) -> (s: String)
    ensures
        s@ == dpop_claims_json(
            iat,
            jti@,
            htm@,
            htu@,
            match ath {
                Some(a) => Some(a@),
                None => None,
            },
            opt_str(nonce),
        ),
{
    let mut s = "{".to_owned();
    match &ath {
        Some(a) => {
            append_json_member(&mut s, "\"ath\":", a.as_str());
            s.append(",");
        },
        None => {},
    }
    append_json_member(&mut s, "\"htm\":", htm);
    append_json_member(&mut s, ",\"htu\":", htu);
    s.append(",\"iat\":");
    s.append(json_integer(iat).as_str());
    append_json_member(&mut s, ",\"jti\":", jti);
    match nonce {
        Some(n) => append_json_member(&mut s, ",\"nonce\":", n),
        None => {},
    }
    s.append("}");
    s
}

/// The shape of a proof JWT made with key `(jwk, secret)`: three non-empty
/// base64url segments joined by dots, the first the encoded JOSE header for
/// `jwk`, the last the 86-character encoding of a 64-byte ES256 signature of
/// the first two with their dot.
pub open spec fn is_dpop_jwt_of(t: Seq<char>, jwk: Jwk, secret: Seq<u8>) -> bool {
    let parts = split_char(t, '.');
    &&& parts.len() == 3
    &&& parts[0] == base64url_encoded(encode_utf8(dpop_header_json(jwk)))
    &&& forall|i: int| 0 <= i < 3 ==> is_base64url_text(#[trigger] parts[i]) && parts[i].len() > 0
    &&& parts[2].len() == 86
    &&& exists|sig: Seq<u8>|
        sig.len() == 64 && parts[2] == base64url_encoded(sig) && es256_signature(
            secret,
            encode_utf8(parts[0] + "."@ + parts[1]),
        ) == Some(sig)
}

/// The UTF-8 encoding of a non-empty text is not empty.
proof fn lemma_utf8_nonempty(s: Seq<char>)
    requires
        s.len() > 0,
    ensures
        encode_utf8(s).len() > 0,
{
}

/// A text made only of URL-safe base64 characters.
pub open spec fn is_base64url_text(s: Seq<char>) -> bool {
    forall|i: int| 0 <= i < s.len() ==> is_base64url_char(#[trigger] s[i])
}

/// Three base64url segments joined with dots split back into those segments.
pub proof fn lemma_three_segments(a: Seq<char>, b: Seq<char>, c: Seq<char>)
    requires
        is_base64url_text(a),
        is_base64url_text(b),
        is_base64url_text(c),
    ensures
        split_char(a + "."@ + b + "."@ + c, '.') == seq![a, b, c],
{
    reveal_strlit(".");
    let parts = seq![a, b, c];
    assert forall|i: int| 0 <= i < parts.len() implies !has_char(#[trigger] parts[i], '.') by {
        let p = parts[i];
        if has_char(p, '.') {
            let j = choose|j: int| 0 <= j < p.len() && p[j] == '.';
            assert(is_base64url_char(p[j]));
        }
    }
    lemma_split_join(parts, '.');
    assert(parts.drop_last().drop_last() =~= seq![a]);
    assert(parts.drop_last() =~= seq![a, b]);
    assert(join_with(seq![a], '.') == a);
    assert(seq![a, b].drop_last() =~= seq![a]);
    assert(join_with(seq![a, b], '.') == a.push('.') + b);
    assert(join_with(parts, '.') == (a.push('.') + b).push('.') + c);
    assert("."@ =~= seq!['.']);
    assert(join_with(parts, '.') =~= a + "."@ + b + "."@ + c);
}

} // verus!
