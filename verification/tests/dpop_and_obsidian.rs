use p256::ecdsa::signature::Verifier;
use solidsync::auth::dpop::DpopKey;
use solidsync::connectors::obsidian::{
    check_get_note_response, check_list_root_response, check_status_response, configured,
    configured_summary, connection_summary, encode_path, listed_files, ObsidianClient, ObsidianConfig,
    ObsidianStatus, VaultListing,
};
use base64::Engine;
use sha2::Digest;

fn base64url_decode(s: &str) -> Option<Vec<u8>> {
    base64::engine::general_purpose::URL_SAFE_NO_PAD.decode(s).ok()
}

fn base64url_encode(b: &[u8]) -> String {
    base64::engine::general_purpose::URL_SAFE_NO_PAD.encode(b)
}

fn sha256_digest(b: &[u8]) -> Vec<u8> {
    sha2::Sha256::digest(b).to_vec()
}
use solidsync::error::SolidSyncError;

fn decode_json(segment: &str) -> serde_json::Value {
    serde_json::from_slice(&base64url_decode(segment).unwrap()).unwrap()
}

fn verify_signature(key: &DpopKey, jwt: &str) {
    let jwk = key.jwk();
    let mut sec1 = vec![4u8];
    sec1.extend(base64url_decode(&jwk.x).unwrap());
    sec1.extend(base64url_decode(&jwk.y).unwrap());
    let vk = p256::ecdsa::VerifyingKey::from_sec1_bytes(&sec1).unwrap();
    let (input, sig) = jwt.rsplit_once('.').unwrap();
    let sig = p256::ecdsa::Signature::from_slice(&base64url_decode(sig).unwrap()).unwrap();
    vk.verify(input.as_bytes(), &sig).unwrap();
}

#[test]
fn dpop_proof_structure() {
    let key = DpopKey::new();
    let jwk = key.jwk();
    assert_eq!(jwk.kty, "EC");
    assert_eq!(jwk.crv, "P-256");
    let jwt = key.proof_jwt_at(1_700_000_000, "jti-1", "POST", "https://idp.example/token", None, None).unwrap();
    let parts: Vec<&str> = jwt.split('.').collect();
    assert_eq!(parts.len(), 3);
    let header = decode_json(parts[0]);
    assert_eq!(
        String::from_utf8(base64url_decode(parts[0]).unwrap()).unwrap(),
        format!(
            "{{\"alg\":\"ES256\",\"jwk\":{{\"crv\":\"P-256\",\"kty\":\"EC\",\"x\":\"{}\",\"y\":\"{}\"}},\"typ\":\"dpop+jwt\"}}",
            jwk.x, jwk.y
        )
    );
    assert_eq!(header["typ"], "dpop+jwt");
    let claims = String::from_utf8(base64url_decode(parts[1]).unwrap()).unwrap();
    assert_eq!(
        claims,
        "{\"htm\":\"POST\",\"htu\":\"https://idp.example/token\",\"iat\":1700000000,\"jti\":\"jti-1\"}"
    );
    verify_signature(&key, &jwt);
}

#[test]
fn dpop_proof_with_token_and_nonce() {
    let key = DpopKey::new();
    let jwt = key.proof_jwt_at(5, "j", "GET", "https://pod.example/r", Some("tok"), Some("n\"1")).unwrap();
    let parts: Vec<&str> = jwt.split('.').collect();
    let claims = decode_json(parts[1]);
    assert_eq!(claims["ath"], base64url_encode(&sha256_digest(b"tok")));
    assert_eq!(claims["nonce"], "n\"1");
    assert_eq!(claims["iat"], 5);
    let text = String::from_utf8(base64url_decode(parts[1]).unwrap()).unwrap();
    assert!(text.starts_with("{\"ath\":"));
    assert!(text.ends_with(",\"nonce\":\"n\\\"1\"}"));
    verify_signature(&key, &jwt);
}

#[test]
fn dpop_proof_now_uses_the_same_key() {
    let key = DpopKey::new();
    let a = key.proof_jwt("GET", "https://x", None, None).unwrap();
    let b = key.proof_jwt("GET", "https://x", None, None).unwrap();
    assert_eq!(a.split('.').next(), b.split('.').next());
    let ca = decode_json(a.split('.').nth(1).unwrap());
    let cb = decode_json(b.split('.').nth(1).unwrap());
    assert_ne!(ca["jti"], cb["jti"]);
    verify_signature(&key, &a);
}

fn cfg(base: &str, insecure: bool) -> ObsidianConfig {
    ObsidianConfig { base_url: base.into(), api_key: "key".into(), accept_invalid_certs: insecure }
}

#[test]
fn loopback_guard() {
    assert!(ObsidianClient::new(cfg("https://127.0.0.1:27124", true)).is_ok());
    assert!(ObsidianClient::new(cfg("https://localhost:27124", true)).is_ok());
    assert!(ObsidianClient::new(cfg("https://vault.example", false)).is_ok());
    let refused = SolidSyncError::Other("accept_invalid_certs is only allowed for loopback addresses".into());
    assert_eq!(ObsidianClient::new(cfg("https://vault.example", true)).unwrap_err(), refused);
    assert!(ObsidianClient::new(cfg("https://[::1]:27124", true)).is_ok());
    assert_eq!(ObsidianClient::new(cfg("https://[::2]:27124", true)).unwrap_err(), refused);
    assert_eq!(ObsidianClient::new(cfg("127.0.0.1:27124", false)).unwrap_err().message(), "URL parse error: relative URL without a base");
    assert_eq!(ObsidianClient::new(cfg("nope", true)).unwrap_err(), SolidSyncError::Url("relative URL without a base".into()));
}

#[test]
fn urls_and_headers() {
    let c = ObsidianClient::new(cfg("http://127.0.0.1:27123", false)).unwrap();
    assert_eq!(c.base, "http://127.0.0.1:27123/");
    assert_eq!(c.status_url().unwrap(), "http://127.0.0.1:27123/");
    assert_eq!(c.list_root_url().unwrap(), "http://127.0.0.1:27123/vault/");
    assert_eq!(c.note_url("Folder A/Note é.md").unwrap(), "http://127.0.0.1:27123/vault/Folder%20A/Note%20%C3%A9%2Emd");
    assert_eq!(c.authorization_header(), Some("Bearer key".to_string()));
    let bad = ObsidianClient::new(ObsidianConfig { base_url: "http://127.0.0.1".into(), api_key: "a\nb".into(), accept_invalid_certs: false }).unwrap();
    assert_eq!(bad.authorization_header(), None);
    let nested = ObsidianClient::new(cfg("https://127.0.0.1:27124/api/", true)).unwrap();
    assert_eq!(nested.url("//vault/").unwrap(), "https://127.0.0.1:27124/api/vault/");
}

#[test]
fn base_path_is_kept() {
    let c = ObsidianClient::new(cfg("http://127.0.0.1:27123/obs", false)).unwrap();
    assert_eq!(c.base, "http://127.0.0.1:27123/obs/");
    assert_eq!(c.url("/vault/").unwrap(), "http://127.0.0.1:27123/obs/vault/");
    assert_eq!(c.note_url("n.md").unwrap(), "http://127.0.0.1:27123/obs/vault/n%2Emd");
    let q = ObsidianClient::new(cfg("http://127.0.0.1:27123/a/b?x=1", false)).unwrap();
    assert_eq!(q.base, "http://127.0.0.1:27123/a/b/?x=1");
}

#[test]
fn encode_path_keeps_separators() {
    assert_eq!(encode_path("a b/c?d"), "a%20b/c%3Fd");
    assert_eq!(encode_path("/x//y/"), "/x//y/");
    assert_eq!(encode_path(""), "");
    for p in ["a/b c/é", "//", "x"] {
        let e = encode_path(p);
        assert_eq!(e.split('/').count(), p.split('/').count());
        assert!(e.chars().all(|c| c.is_ascii_alphanumeric() || c == '%' || c == '/'));
    }
}

#[test]
fn obsidian_status_checks() {
    assert!(check_status_response(200, "{}").is_ok());
    assert_eq!(
        check_status_response(401, "denied").unwrap_err(),
        SolidSyncError::Other("Obsidian status check failed (401 Unauthorized): denied".into())
    );
    assert_eq!(
        check_list_root_response(500, "x").unwrap_err(),
        SolidSyncError::Other("Obsidian list root failed (500 Internal Server Error): x".into())
    );
    assert_eq!(
        check_get_note_response(404, "").unwrap_err(),
        SolidSyncError::Other("Obsidian get_note failed (404 Not Found): ".into())
    );
    assert!(check_get_note_response(204, "").is_ok());
}

#[test]
fn obsidian_configuration_outcomes() {
    let c = cfg("https://127.0.0.1:27124", true);
    let st = ObsidianStatus { authenticated: true, service: "Obsidian Local REST API".into(), versions: "{\"self\":\"3.0\"}".into() };
    let sum = configured_summary(&c, st.clone()).unwrap();
    assert_eq!(sum.base_url, "https://127.0.0.1:27124");
    assert!(sum.authenticated);
    assert_eq!(sum.service, "Obsidian Local REST API");
    assert_eq!(sum.versions, "{\"self\":\"3.0\"}");
    let denied = ObsidianStatus { authenticated: false, ..st };
    assert_eq!(
        configured_summary(&c, denied.clone()).unwrap_err(),
        SolidSyncError::Other("Obsidian plugin reached but API key is not accepted (authenticated=false)".into())
    );
    assert!(!connection_summary(&c, denied).authenticated);
    assert_eq!(configured::<u8>(None).unwrap_err(), SolidSyncError::Other("Obsidian is not configured".into()));
    assert_eq!(configured(Some(3)).unwrap(), 3);
    assert_eq!(listed_files(VaultListing { files: vec!["a.md".into()] }), vec!["a.md".to_string()]);
}

fn is_uuid_v4_text(s: &str) -> bool {
    let c: Vec<char> = s.chars().collect();
    c.len() == 36
        && (0..36).all(|i| if [8, 13, 18, 23].contains(&i) { c[i] == '-' } else { c[i].is_ascii_digit() || ('a'..='f').contains(&c[i]) })
        && c[14] == '4'
        && ['8', '9', 'a', 'b'].contains(&c[19])
}

#[test]
fn dpop_key_and_proof_lengths() {
    let key = DpopKey::new();
    assert_eq!(key.jwk().x.len(), 43);
    assert_eq!(key.jwk().y.len(), 43);
    assert_eq!(base64url_decode(&key.jwk().x).unwrap().len(), 32);
    let jwt = key.proof_jwt("GET", "https://x", Some("t"), None).unwrap();
    let parts: Vec<&str> = jwt.split('.').collect();
    assert_eq!(parts.len(), 3);
    assert!(parts.iter().all(|p| !p.is_empty()));
    assert_eq!(parts[2].len(), 86);
    assert_eq!(base64url_decode(parts[2]).unwrap().len(), 64);
    let claims = decode_json(parts[1]);
    assert!(is_uuid_v4_text(claims["jti"].as_str().unwrap()));
}

#[test]
fn dpop_claims_escape_control_characters() {
    let key = DpopKey::new();
    let jwt = key.proof_jwt_at(-7, "a\u{1}b", "GET", "https://x/\\", None, None).unwrap();
    let text = String::from_utf8(base64url_decode(jwt.split('.').nth(1).unwrap()).unwrap()).unwrap();
    assert_eq!(text, "{\"htm\":\"GET\",\"htu\":\"https://x/\\\\\",\"iat\":-7,\"jti\":\"a\\u0001b\"}");
}

#[test]
fn encoded_path_decodes_back() {
    for path in ["Folder A/Note é.md", "a%2F/b", "", "x//y", "Ω/∑ 1"] {
        let encoded = encode_path(path);
        let segs: Vec<&str> = path.split('/').collect();
        let enc: Vec<&str> = encoded.split('/').collect();
        assert_eq!(segs.len(), enc.len());
        for (e, p) in enc.iter().zip(segs.iter()) {
            let decoded = percent_encoding::percent_decode_str(e).decode_utf8().unwrap();
            assert_eq!(&decoded, p);
            let b = e.as_bytes();
            let mut i = 0;
            while i < b.len() {
                if b[i] == b'%' {
                    assert!(b[i + 1].is_ascii_hexdigit() && !b[i + 1].is_ascii_lowercase());
                    assert!(b[i + 2].is_ascii_hexdigit() && !b[i + 2].is_ascii_lowercase());
                    i += 3;
                } else {
                    assert!(b[i].is_ascii_alphanumeric());
                    i += 1;
                }
            }
        }
    }
}

#[test]
fn dpop_proof_from_clock_reading() {
    let key = DpopKey::new();
    assert_eq!(
        key.proof_jwt_from_clock(Err("clock before epoch".into()), "j", "GET", "https://x", None, None).unwrap_err(),
        SolidSyncError::Crypto("clock before epoch".into())
    );
    let a = key.proof_jwt_from_clock(Ok(1_700_000_000), "j", "GET", "https://x", None, Some("n")).unwrap();
    let b = key.proof_jwt_at(1_700_000_000, "j", "GET", "https://x", None, Some("n")).unwrap();
    assert_eq!(a, b);
    assert_eq!(decode_json(a.split('.').nth(1).unwrap())["iat"], 1_700_000_000i64);
}

#[test]
fn note_paths_stay_in_the_vault() {
    let c = ObsidianClient::new(cfg("https://127.0.0.1:27124", true)).unwrap();
    let refused = SolidSyncError::Other("note path must not have `.` or `..` segments".into());
    assert_eq!(c.note_url("../x").unwrap_err(), refused);
    assert_eq!(c.note_url("a/./b").unwrap_err(), refused);
    assert_eq!(c.note_url("..").unwrap_err(), refused);
    assert_eq!(c.note_url("a/..").unwrap_err(), refused);
    assert_eq!(c.note_url("a..b/.c").unwrap(), "https://127.0.0.1:27124/vault/a%2E%2Eb/%2Ec");
    assert_eq!(c.note_url(".../x").unwrap(), "https://127.0.0.1:27124/vault/%2E%2E%2E/x");
}
