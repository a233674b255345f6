use base64::Engine;
use solidsync::auth::pkce::PkcePair;
use solidsync::commands::{expiry_computable, extract_webid_from_id_token, obtained_at_from, obtained_at_now};
use solidsync::connectors::obsidian::{check_status_response, encode_path, ObsidianClient, ObsidianConfig};
use solidsync::error::SolidSyncError;
use solidsync::httpmsg::status_is_success;
use solidsync::text::{
    chars_of, is_whitespace_char, join_on, prefix_before, same_text, split_on, starts_with, string_of,
    trim, trim_end_matching, trim_start_matching,
};

#[test]
fn whitespace_matches_std_for_every_char() {
    for code in 0u32..=0x10FFFF {
        if let Some(c) = char::from_u32(code) {
            assert_eq!(is_whitespace_char(c), c.is_whitespace(), "char {code:#x}");
        }
    }
}

#[test]
fn trim_matches_std() {
    for s in ["", "  ", " a ", "\u{3000}x y\u{2028}", "abc", "\t\nq\r", "é "] {
        assert_eq!(trim(s), s.trim());
    }
}

#[test]
fn trim_matching_characters() {
    assert_eq!(trim_end_matching("https://a.org///", '/'), "https://a.org");
    assert_eq!(trim_end_matching("///", '/'), "");
    assert_eq!(trim_start_matching("//vault/x", '/'), "vault/x");
    assert_eq!(trim_start_matching("vault", '/'), "vault");
}

#[test]
fn prefixes_and_equality() {
    assert!(starts_with("https://x", "https://"));
    assert!(!starts_with("http", "https://"));
    assert!(starts_with("abc", ""));
    assert_eq!(prefix_before("a#b#c", '#'), "a");
    assert_eq!(prefix_before("abc", '#'), "abc");
    assert!(same_text("état", "état"));
    assert!(!same_text("a", "b"));
    assert!(!same_text("a", "ab"));
}

#[test]
fn split_and_join_match_std() {
    for s in ["", "a", "a/b", "/a//b/", "é/ü"] {
        let parts = split_on(s, '/');
        let expected: Vec<String> = s.split('/').map(|p| p.to_string()).collect();
        assert_eq!(parts, expected);
        assert_eq!(join_on(&parts, '/'), s);
    }
}

#[test]
fn chars_round_trip() {
    let v = chars_of("hé!");
    assert_eq!(v, vec!['h', 'é', '!']);
    assert_eq!(string_of(&v), "hé!");
}

fn b64(bytes: &[u8]) -> String {
    base64::engine::general_purpose::URL_SAFE_NO_PAD.encode(bytes)
}

#[test]
fn base64url_and_sha256_through_pkce() {
    // The S256 challenge is base64url (no padding) of the SHA-256 digest.
    let p = PkcePair::from_verifier("abc".into());
    assert_eq!(p.challenge, "ungWv48Bz-pBQUDeXa4iI7ADYaOWF3qctBD_YfIAFa0");
    assert!(!p.challenge.contains('='));
}

#[test]
fn base64url_decoding_through_id_tokens() {
    let payload = b64(br#"{"webid":"https://me"}"#);
    assert_eq!(extract_webid_from_id_token(&format!("h.{payload}.s")), Some("https://me".into()));
    // Padding is refused by the no-padding engine.
    assert_eq!(extract_webid_from_id_token(&format!("h.{payload}=.s")), None);
    assert_eq!(extract_webid_from_id_token("h.!!.s"), None);
    // Not an object, or a member that is not a string.
    assert_eq!(extract_webid_from_id_token(&format!("h.{}.s", b64(b"[1,2]"))), None);
    assert_eq!(extract_webid_from_id_token(&format!("h.{}.s", b64(br#"{"webid":5}"#))), None);
}

#[test]
fn percent_encoding_is_non_alphanumeric() {
    assert_eq!(encode_path("foo bar?"), "foo%20bar%3F");
    assert_eq!(encode_path("aZ09-_.~"), "aZ09%2D%5F%2E%7E");
    assert_eq!(encode_path("é"), "%C3%A9");
}

#[test]
fn http_status_and_headers() {
    assert!(status_is_success(200));
    assert!(status_is_success(299));
    assert!(!status_is_success(300));
    assert!(!status_is_success(199));
    assert_eq!(
        check_status_response(599, "").unwrap_err(),
        SolidSyncError::Other("Obsidian status check failed (599 <unknown status code>): ".into())
    );
    let with_key = |k: &str| {
        ObsidianClient::new(ObsidianConfig { base_url: "http://127.0.0.1".into(), api_key: k.into(), accept_invalid_certs: false })
            .unwrap()
            .authorization_header()
    };
    assert_eq!(with_key("abc\tdef"), Some("Bearer abc\tdef".into()));
    assert_eq!(with_key("é"), Some("Bearer é".into()));
    assert_eq!(with_key("a\nb"), None);
    assert_eq!(with_key("\u{7f}"), None);
}

#[test]
fn expiry_overflow_is_detected() {
    assert!(expiry_computable(0, None));
    assert!(expiry_computable(1_000, Some(3_600)));
    assert!(!expiry_computable(i64::MAX, Some(1)));
    assert!(expiry_computable(i64::MAX, Some(u64::MAX)));
}

#[test]
fn error_messages() {
    assert_eq!(SolidSyncError::Http("boom".into()).message(), "HTTP error: boom");
    assert_eq!(SolidSyncError::Url("empty host".into()).message(), "URL parse error: empty host");
    assert_eq!(SolidSyncError::Json("x".into()).message(), "JSON error: x");
    assert_eq!(SolidSyncError::Discovery("x".into()).message(), "OIDC discovery failed: x");
    assert_eq!(SolidSyncError::Registration("x".into()).message(), "Client registration failed: x");
    assert_eq!(SolidSyncError::Token("x".into()).message(), "Token exchange failed: x");
    assert_eq!(SolidSyncError::FlowState("x".into()).message(), "Auth flow state error: x");
    assert_eq!(SolidSyncError::Crypto("x".into()).message(), "Crypto error: x");
    assert_eq!(SolidSyncError::Other("plain".into()).message(), "plain");
}

#[test]
fn obtained_at_readings() {
    assert_eq!(obtained_at_from(Ok(1_700_000_000)), 1_700_000_000);
    assert_eq!(obtained_at_from(Err("before epoch".into())), 0);
    assert!(obtained_at_now() > 1_600_000_000);
}
