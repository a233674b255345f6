use solidsync::auth::discovery::{
    check_discovery_status, check_registration_status, discovery_url, registration_endpoint,
    registration_request, OidcConfiguration, RegisteredClient,
};
use solidsync::auth::dpop::DpopKey;
use solidsync::auth::pkce::PkcePair;
use solidsync::auth::state::{AuthState, PendingFlow};
use solidsync::commands::{
    authorization_url, callback_params, check_token_status, complete_login, current_session,
    extract_webid_from_id_token, logout, normalize_issuer, parse_callback, select_webid, start_login,
    start_login_with, take_flow, token_request, token_request_with_proof, TokenResponse, REDIRECT_URI,
    SCOPES,
};
use base64::Engine;
use sha2::Digest;
use solidsync::error::SolidSyncError;

fn config() -> OidcConfiguration {
    OidcConfiguration {
        issuer: "https://idp.example".into(),
        authorization_endpoint: "https://idp.example/authorize".into(),
        token_endpoint: "https://idp.example/token".into(),
        registration_endpoint: Some("https://idp.example/register".into()),
        jwks_uri: None,
        scopes_supported: vec![],
        response_types_supported: vec![],
        grant_types_supported: vec![],
        code_challenge_methods_supported: vec!["S256".into()],
        dpop_signing_alg_values_supported: vec!["ES256".into()],
    }
}

fn client() -> RegisteredClient {
    RegisteredClient {
        client_id: "client-1".into(),
        client_secret: None,
        client_id_issued_at: None,
        client_secret_expires_at: None,
        redirect_uris: vec![REDIRECT_URI.into()],
        registration_access_token: None,
        registration_client_uri: None,
    }
}

fn flow(issuer: &str) -> PendingFlow {
    PendingFlow {
        issuer: issuer.into(),
        config: config(),
        client: client(),
        pkce: PkcePair::from_verifier("verifier".into()),
        dpop: DpopKey::new(),
        redirect_uri: REDIRECT_URI.into(),
    }
}

fn id_token(claims: &str) -> String {
    format!("eyJhbGciOiJub25lIn0.{}.sig", base64::engine::general_purpose::URL_SAFE_NO_PAD.encode(claims.as_bytes()))
}

#[test]
fn normalize_issuer_examples() {
    assert_eq!(normalize_issuer("  solidcommunity.net/ ").unwrap(), "https://solidcommunity.net");
    assert_eq!(normalize_issuer("http://localhost:3000/").unwrap(), "http://localhost:3000");
    assert_eq!(normalize_issuer("https://idp.example/a/b//").unwrap(), "https://idp.example/a/b");
    assert_eq!(normalize_issuer("https://idp.example/x#frag").unwrap(), "https://idp.example/x");
    assert_eq!(normalize_issuer("https://idp.example/x/#f").unwrap(), "https://idp.example/x");
    assert_eq!(normalize_issuer("https://example.org/#x").unwrap(), "https://example.org");
    assert_eq!(
        normalize_issuer("   ").unwrap_err(),
        SolidSyncError::FlowState("issuer must not be empty".into())
    );
    assert_eq!(normalize_issuer("https://").unwrap_err(), SolidSyncError::Url("empty host".into()));
}

#[test]
fn normalized_issuer_has_no_fragment() {
    for raw in ["a.example/#x", "https://b.example/p/?q#y", "c.example"] {
        let n = normalize_issuer(raw).unwrap();
        assert!(!n.contains('#'));
        assert!(!n.ends_with('/'));
        assert_eq!(normalize_issuer(&n).unwrap(), n);
    }
}

#[test]
fn discovery_url_examples() {
    assert_eq!(
        discovery_url("https://solidcommunity.net").unwrap(),
        "https://solidcommunity.net/.well-known/openid-configuration"
    );
    assert_eq!(
        discovery_url("https://idp.example/tenant/").unwrap(),
        "https://idp.example/tenant/.well-known/openid-configuration"
    );
    assert_eq!(discovery_url("not a url").unwrap_err(), SolidSyncError::Url("relative URL without a base".into()));
}

#[test]
fn discovery_and_registration_status() {
    assert!(check_discovery_status("https://x/.well-known/openid-configuration", 200).is_ok());
    assert_eq!(
        check_discovery_status("https://x/w", 404).unwrap_err(),
        SolidSyncError::Discovery("https://x/w returned 404 Not Found".into())
    );
    assert!(check_registration_status(201, "").is_ok());
    assert_eq!(
        check_registration_status(400, "bad").unwrap_err(),
        SolidSyncError::Registration("400 Bad Request: bad".into())
    );
    assert_eq!(
        check_token_status(401, "nope").unwrap_err(),
        SolidSyncError::Token("401 Unauthorized: nope".into())
    );
}

#[test]
fn registration_needs_an_endpoint() {
    assert_eq!(registration_endpoint(&config()).unwrap(), "https://idp.example/register");
    let mut c = config();
    c.registration_endpoint = None;
    assert_eq!(
        registration_endpoint(&c).unwrap_err(),
        SolidSyncError::Registration(
            "provider does not advertise a registration_endpoint — Dynamic Client Registration is required".into()
        )
    );
}

#[test]
fn registration_request_fields() {
    let r = registration_request(REDIRECT_URI);
    assert_eq!(r.client_name, "SolidSync");
    assert_eq!(r.redirect_uris, vec![REDIRECT_URI.to_string()]);
    assert_eq!(r.grant_types, vec!["authorization_code".to_string(), "refresh_token".to_string()]);
    assert_eq!(r.response_types, vec!["code".to_string()]);
    assert_eq!(r.application_type, "native");
    assert_eq!(r.token_endpoint_auth_method, "none");
    assert_eq!(r.scope, SCOPES);
    assert!(r.dpop_bound_access_tokens);
}

#[test]
fn pkce_rfc7636_vector() {
    let p = PkcePair::from_verifier("dBjftJeZ4CVP-mB92K27uhbUJU1p1r_wW1gFWFOEjXk".into());
    assert_eq!(p.challenge, "E9Melhoa2OwvFrEMTJguCHaoeK1t8URWbuGJSstw-cM");
    let fresh = PkcePair::new();
    assert_eq!(fresh.verifier.len(), 43);
    assert_eq!(PkcePair::from_verifier(fresh.verifier.clone()).challenge, fresh.challenge);
}

#[test]
fn authorization_url_example() {
    let u = authorization_url("https://idp.example/authorize", "client 1", "st", "ch").unwrap();
    assert_eq!(
        u,
        "https://idp.example/authorize?response_type=code&client_id=client+1&redirect_uri=org.solidsync.app%3A%2F%2Fauth%2Fcallback&scope=openid+profile+offline_access+webid&state=st&code_challenge=ch&code_challenge_method=S256"
    );
    assert_eq!(authorization_url("nope", "c", "s", "x").unwrap_err(), SolidSyncError::Url("relative URL without a base".into()));
}

#[test]
fn webid_extraction() {
    assert_eq!(
        extract_webid_from_id_token(&id_token(r#"{"webid":"https://me.example/card#me","sub":"x"}"#)),
        Some("https://me.example/card#me".into())
    );
    assert_eq!(
        extract_webid_from_id_token(&id_token(r#"{"sub":"https://me.example/card#me"}"#)),
        Some("https://me.example/card#me".into())
    );
    assert_eq!(extract_webid_from_id_token(&id_token(r#"{"sub":"user-42"}"#)), None);
    assert_eq!(
        extract_webid_from_id_token(&id_token(r#"{"webid":7,"sub":"https://s"}"#)),
        Some("https://s".into())
    );
    assert_eq!(extract_webid_from_id_token(&id_token("not json")), None);
    assert_eq!(extract_webid_from_id_token("a.b"), None);
    assert_eq!(extract_webid_from_id_token("a.b.c.d"), None);
    assert_eq!(extract_webid_from_id_token("a.!!!.c"), None);
}

#[test]
fn webid_selection() {
    assert_eq!(select_webid(Some("w".into()), Some("https://s".into())), Some("w".into()));
    assert_eq!(select_webid(None, Some("https://s".into())), Some("https://s".into()));
    assert_eq!(select_webid(None, Some("http".into())), Some("http".into()));
    assert_eq!(select_webid(None, Some("htt".into())), None);
    assert_eq!(select_webid(None, None), None);
}

#[test]
fn callback_parsing() {
    let ok = parse_callback("org.solidsync.app://auth/callback?code=abc&state=xyz").unwrap();
    assert_eq!((ok.code.as_str(), ok.state.as_str()), ("abc", "xyz"));
    let last = parse_callback("org.solidsync.app://auth/callback?code=a&code=b&state=s").unwrap();
    assert_eq!(last.code, "b");
    assert_eq!(
        parse_callback("org.solidsync.app://auth/callback?error=access_denied&error_description=no%20way&code=a&state=s").unwrap_err(),
        SolidSyncError::Token("access_denied: no way".into())
    );
    assert_eq!(
        parse_callback("org.solidsync.app://auth/callback?error=access_denied").unwrap_err(),
        SolidSyncError::Token("access_denied".into())
    );
    assert_eq!(
        parse_callback("org.solidsync.app://auth/callback?state=s").unwrap_err(),
        SolidSyncError::FlowState("callback missing `code`".into())
    );
    assert_eq!(
        parse_callback("org.solidsync.app://auth/callback?code=c").unwrap_err(),
        SolidSyncError::FlowState("callback missing `state`".into())
    );
    assert_eq!(parse_callback("no scheme").unwrap_err(), SolidSyncError::Url("relative URL without a base".into()));
    let pairs = vec![("state".to_string(), "s".to_string()), ("code".to_string(), "c".to_string())];
    let p = callback_params(&pairs).unwrap();
    assert_eq!((p.code.as_str(), p.state.as_str()), ("c", "s"));
}

#[test]
fn pending_flow_is_single_use() {
    let mut auth = AuthState::new();
    auth.insert_pending("s1".into(), flow("https://one"));
    auth.insert_pending("s2".into(), flow("https://two"));
    assert!(auth.has_pending("s1"));
    let f = take_flow(&mut auth, "s1").unwrap();
    assert_eq!(f.issuer, "https://one");
    assert!(!auth.has_pending("s1"));
    assert!(auth.has_pending("s2"));
    assert_eq!(
        take_flow(&mut auth, "s1").err().unwrap(),
        SolidSyncError::FlowState("unknown `state` — no pending login matches this callback".into())
    );
    auth.insert_pending("s2".into(), flow("https://replaced"));
    assert_eq!(auth.take_pending("s2").unwrap().issuer, "https://replaced");
    assert!(auth.take_pending("s2").is_none());
}

#[test]
fn start_login_records_the_flow() {
    let mut auth = AuthState::default();
    let resp = start_login(&mut auth, "https://idp.example".into(), config(), client()).unwrap();
    assert!(auth.has_pending(&resp.state));
    let f = auth.take_pending(&resp.state).unwrap();
    assert_eq!(f.redirect_uri, REDIRECT_URI);
    let expected = authorization_url("https://idp.example/authorize", "client-1", &resp.state, &f.pkce.challenge).unwrap();
    assert_eq!(resp.auth_url, expected);
    assert_eq!(PkcePair::from_verifier(f.pkce.verifier.clone()).challenge, f.pkce.challenge);
    let mut bad = config();
    bad.authorization_endpoint = "relative".into();
    assert!(start_login(&mut auth, "x".into(), bad, client()).is_err());
    assert!(current_session(&auth).is_none());
}

#[test]
fn token_request_form() {
    let f = flow("https://idp.example");
    let req = token_request(&f, "the-code").unwrap();
    assert_eq!(req.endpoint, "https://idp.example/token");
    let form: Vec<(&str, &str)> = req.form.iter().map(|(k, v)| (k.as_str(), v.as_str())).collect();
    assert_eq!(
        form,
        vec![
            ("grant_type", "authorization_code"),
            ("code", "the-code"),
            ("code_verifier", "verifier"),
            ("client_id", "client-1"),
            ("redirect_uri", REDIRECT_URI),
        ]
    );
    assert_eq!(req.dpop_proof.split('.').count(), 3);
}

#[test]
fn complete_login_and_logout() {
    let mut auth = AuthState::new();
    auth.insert_pending("other".into(), flow("https://other"));
    let tr = TokenResponse {
        access_token: "at".into(),
        token_type: "DPoP".into(),
        refresh_token: Some("rt".into()),
        id_token: Some(id_token(r#"{"webid":"https://me.example/#me"}"#)),
        expires_in: Some(3600),
        scope: Some("openid webid".into()),
    };
    let sum = complete_login(&mut auth, flow("https://idp.example"), tr, 1_000);
    assert_eq!(sum.webid.as_deref(), Some("https://me.example/#me"));
    assert_eq!(sum.issuer, "https://idp.example");
    assert_eq!(sum.client_id, "client-1");
    assert_eq!(sum.expires_at, Some(4_600));
    assert_eq!(sum.scope.as_deref(), Some("openid webid"));
    let active = auth.active().unwrap();
    assert_eq!(active.tokens.access_token, "at");
    assert_eq!(active.tokens.expires_at, Some(4_600));
    let again = current_session(&auth).unwrap();
    assert_eq!(again.expires_at, Some(4_600));
    assert!(auth.has_pending("other"));
    logout(&mut auth);
    assert!(current_session(&auth).is_none());
    assert!(!auth.has_pending("other"));
}

#[test]
fn complete_login_without_expiry_or_id_token() {
    let mut auth = AuthState::new();
    let tr = TokenResponse {
        access_token: "at".into(),
        token_type: "DPoP".into(),
        refresh_token: None,
        id_token: None,
        expires_in: None,
        scope: None,
    };
    let sum = complete_login(&mut auth, flow("https://idp.example"), tr, 5);
    assert_eq!(sum.webid, None);
    assert_eq!(sum.expires_at, None);
}

#[test]
fn token_request_matches_the_authorization_request() {
    let mut auth = AuthState::new();
    let resp = start_login(&mut auth, "https://idp.example".into(), config(), client()).unwrap();
    let url = url::Url::parse(&resp.auth_url).unwrap();
    let query: std::collections::HashMap<String, String> = url.query_pairs().into_owned().collect();
    let pending = take_flow(&mut auth, &resp.state).ok().unwrap();
    let req = token_request(&pending, "c").unwrap();
    let form: std::collections::HashMap<String, String> = req.form.iter().cloned().collect();
    let challenge = base64::engine::general_purpose::URL_SAFE_NO_PAD
        .encode(sha2::Sha256::digest(form["code_verifier"].as_bytes()));
    assert_eq!(query["code_challenge"], challenge);
    assert_eq!(query["code_challenge_method"], "S256");
    assert_eq!(query["client_id"], form["client_id"]);
    assert_eq!(query["redirect_uri"], form["redirect_uri"]);
    assert_eq!(query["state"], resp.state);
    assert_eq!(query["scope"], SCOPES);
}

#[test]
fn start_login_with_given_material() {
    let mut auth = AuthState::new();
    let pkce = PkcePair::from_verifier("v".into());
    let challenge = pkce.challenge.clone();
    let resp = start_login_with(&mut auth, "https://i".into(), config(), client(), pkce, DpopKey::new(), "st-1".into()).unwrap();
    assert_eq!(resp.state, "st-1");
    assert_eq!(resp.auth_url, authorization_url("https://idp.example/authorize", "client-1", "st-1", &challenge).unwrap());
    let f = auth.take_pending("st-1").unwrap();
    assert_eq!(f.issuer, "https://i");
    assert_eq!(f.pkce.verifier, "v");
    let mut bad = config();
    bad.authorization_endpoint = "no".into();
    let err = start_login_with(&mut auth, "i".into(), bad, client(), PkcePair::from_verifier("v".into()), DpopKey::new(), "st-2".into());
    assert_eq!(err.err().unwrap(), SolidSyncError::Url("relative URL without a base".into()));
    assert!(!auth.has_pending("st-2"));
}

#[test]
fn token_request_with_a_given_proof() {
    let f = flow("https://idp.example");
    let req = token_request_with_proof(&f, "k", "a.b.c".into());
    assert_eq!(req.dpop_proof, "a.b.c");
    assert_eq!(req.endpoint, "https://idp.example/token");
    assert_eq!(req.form[1], ("code".to_string(), "k".to_string()));
    assert_eq!(req.form[2], ("code_verifier".to_string(), "verifier".to_string()));
}

#[test]
fn login_state_is_a_v4_uuid() {
    let mut auth = AuthState::default();
    let resp = start_login(&mut auth, "https://idp.example".into(), config(), client()).unwrap();
    let c: Vec<char> = resp.state.chars().collect();
    assert_eq!(c.len(), 36);
    for i in 0..36 {
        if [8, 13, 18, 23].contains(&i) {
            assert_eq!(c[i], '-');
        } else {
            assert!(c[i].is_ascii_digit() || ('a'..='f').contains(&c[i]));
        }
    }
    assert_eq!(c[14], '4');
    assert!(['8', '9', 'a', 'b'].contains(&c[19]));
}
