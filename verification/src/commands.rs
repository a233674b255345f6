//! The decisions of the login and session commands, apart from their I/O.

use vstd::prelude::*;
use crate::auth::discovery::{
    status_failure, status_failure_text, OidcConfiguration, RegisteredClient,
};
use crate::auth::dpop::{dpop_proof, is_jwk_of, DpopKey};
use crate::auth::pkce::{s256_challenge, PkcePair};
use crate::auth::session::TokenSet;
use crate::auth::state::{ActiveSession, AuthState, PendingFlow};
use crate::encoding::{base64url_decode, base64url_decoded, json_member_str, json_string_member};
use crate::entropy::{is_uuid_v4_text, random_uuid, unix_time_secs};
use crate::error::SolidSyncError;
use crate::httpmsg::{is_success_status, status_is_success};
use crate::text::{
    before_char, has_char, has_prefix, prefix_before, same_text, split_char, split_on, starts_with,
    trim, trim_end_char, trim_end_matching, trim_ws,
};
use crate::weburl::{
    pair_views, parse_url, query_pairs_of, url_append_pairs, url_pairs_appended, url_parse_result,
    url_query_pairs,
};

verus! {

/// The custom-scheme URI the provider redirects to after login.
pub const REDIRECT_URI: &'static str = "org.solidsync.app://auth/callback";

/// The scopes asked for at login.
pub const SCOPES: &'static str = "openid profile offline_access webid";

/// What the frontend is told about the active session.
#[derive(Debug, Clone)]
pub struct SessionSummary {
    pub webid: Option<String>,
    pub issuer: String,
    pub client_id: String,
    pub expires_at: Option<i64>,
    pub scope: Option<String>,
}

/// What the frontend is told when a login starts.
#[derive(Debug, Clone)]
pub struct BeginLoginResponse {
    pub auth_url: String,
    pub state: String,
}

/// The URL an issuer text is read as: itself when it names the `http` or
/// `https` scheme, else the same text under `https://`.
pub open spec fn issuer_candidate(t: Seq<char>) -> Seq<char> {
    if has_prefix(t, "http://"@) || has_prefix(t, "https://"@) {
        t
    } else {
        "https://"@ + t
    }
}

/// An issuer in normal form: the URL's serialization without anything from
/// the first `#` on, and then without trailing slashes.
pub open spec fn normalized_issuer(serialization: Seq<char>) -> Seq<char> {
    trim_end_char(before_char(serialization, '#'), '/')
}

/// The URL an issuer text is read as always names the `http` or `https`
/// scheme: a text that names one is read as it is, and any other text (such
/// as `localhost:3000`) is read after `https://`.
pub proof fn lemma_issuer_candidate_scheme(t: Seq<char>)
    ensures
        has_prefix(issuer_candidate(t), "http://"@) || has_prefix(issuer_candidate(t), "https://"@),
        has_prefix(t, "http://"@) || has_prefix(t, "https://"@) ==> issuer_candidate(t) == t,
        !(has_prefix(t, "http://"@) || has_prefix(t, "https://"@)) ==> issuer_candidate(t) == "https://"@
            + t,
{
    let c = issuer_candidate(t);
    if !(has_prefix(t, "http://"@) || has_prefix(t, "https://"@)) {
        assert(c.take("https://"@.len() as int) =~= "https://"@);
    }
}

/// Normalizes the issuer a user typed: trimmed, given `https://` when it
/// names no scheme, parsed as a URL, without trailing slash or fragment.
pub fn normalize_issuer(raw: &str) -> (r: Result<String, SolidSyncError>)
    ensures
        trim_ws(raw@).len() == 0 ==> (r matches Err(SolidSyncError::FlowState(m)) && m@
            == "issuer must not be empty"@),
        trim_ws(raw@).len() != 0 ==> match url_parse_result(issuer_candidate(trim_ws(raw@))) {
            Err(e) => r matches Err(SolidSyncError::Url(m)) && m@ == e,
            Ok(u) => r matches Ok(s) && s@ == normalized_issuer(u.serialization),
        },
{
    let trimmed = trim(raw);
    if trimmed.as_str().is_empty() {
        return Err(SolidSyncError::FlowState("issuer must not be empty".to_owned()));
    }
    let candidate = if starts_with(trimmed.as_str(), "http://") || starts_with(
        trimmed.as_str(),
        "https://",
    ) {
        trimmed
    } else {
        let mut c = "https://".to_owned();
        c.append(trimmed.as_str());
        c
    };
    let url = match parse_url(candidate.as_str()) {
        Ok(u) => u,
        Err(e) => return Err(SolidSyncError::Url(e)),
    };
    let s = prefix_before(url.serialization.as_str(), '#');
    Ok(trim_end_matching(s.as_str(), '/'))
}

/// The WebID among the claims of an ID token: the `webid` claim, or else the
/// `sub` claim when it is an `http(s)` URL.
pub open spec fn webid_choice(webid: Option<Seq<char>>, sub: Option<Seq<char>>) -> Option<Seq<char>> {
    match webid {
        Some(w) => Some(w),
        None => match sub {
            Some(s) => if has_prefix(s, "http"@) {
                Some(s)
            } else {
                None
            },
            None => None,
        },
    }
}

/// Chooses the WebID from the string-valued `webid` and `sub` claims.
pub fn select_webid(webid: Option<String>, sub: Option<String>) -> (r: Option<String>)
    ensures
        match webid_choice(crate::weburl::opt_view(webid), crate::weburl::opt_view(sub)) {
            Some(w) => r matches Some(x) && x@ == w,
            None => r is None,
        },
{
    match webid {
        Some(w) => Some(w),
        None => match sub {
            Some(s) => if starts_with(s.as_str(), "http") {
                Some(s)
            } else {
                None
            },
            None => None,
        },
    }
}

/// The WebID that an ID token names, read without verifying its signature:
/// the token must have three dot-separated parts, the middle one base64url
/// JSON; the `webid` claim is preferred, then an `http(s)` `sub` claim.
pub open spec fn id_token_webid(token: Seq<char>) -> Option<Seq<char>> {
    let parts = split_char(token, '.');
    if parts.len() != 3 {
        None
    } else {
        match base64url_decoded(parts[1]) {
            None => None,
            Some(payload) => match json_string_member(payload, "webid"@) {
                None => None,
                Some(Some(w)) => Some(w),
                Some(None) => match json_string_member(payload, "sub"@) {
                    None => None,
                    Some(sub) => webid_choice(None, sub),
                },
            },
        }
    }
}

/// Extracts the user's WebID from an ID token without verifying its signature.
///
/// This is a read-only parse: whatever the provider issued is accepted.
pub fn extract_webid_from_id_token(id_token: &str) -> (r: Option<String>)
    ensures
        match id_token_webid(id_token@) {
            Some(w) => r matches Some(x) && x@ == w,
            None => r is None,
        },
{
    let parts = split_on(id_token, '.');
    if parts.len() != 3 {
        return None;
    }
    assert(parts@[1]@ == split_char(id_token@, '.')[1]);
    let payload = match base64url_decode(parts[1].as_str()) {
        Some(p) => p,
        None => return None,
    };
    match json_member_str(payload.as_slice(), "webid") {
        None => None,
        Some(Some(w)) => Some(w),
        Some(None) => match json_member_str(payload.as_slice(), "sub") {
            None => None,
            Some(sub) => select_webid(None, sub),
        },
    }
}

/// The query pairs of the authorization request, in order.
pub open spec fn authorization_pairs(
    client_id: Seq<char>,
    state: Seq<char>,
    challenge: Seq<char>,
) -> Seq<(Seq<char>, Seq<char>)> {
    seq![
        ("response_type"@, "code"@),
        ("client_id"@, client_id),
        ("redirect_uri"@, REDIRECT_URI@),
        ("scope"@, SCOPES@),
        ("state"@, state),
        ("code_challenge"@, challenge),
        ("code_challenge_method"@, "S256"@),
    ]
}

fn pair(k: &str, v: &str) -> (p: (String, String))
    ensures
        p.0@ == k@,
        p.1@ == v@,
{
    (k.to_owned(), v.to_owned())
}

/// The URL that sends the user to the provider's authorization endpoint.
pub fn authorization_url(
    endpoint: &str,
    client_id: &str,
    state: &str,
    challenge: &str,
) -> (r: Result<String, SolidSyncError>)
    ensures
        match url_pairs_appended(endpoint@, authorization_pairs(client_id@, state@, challenge@)) {
            Ok(u) => r matches Ok(s) && s@ == u,
            Err(e) => r matches Err(SolidSyncError::Url(m)) && m@ == e,
        },
{
    let mut pairs: Vec<(String, String)> = Vec::new();
    pairs.push(pair("response_type", "code"));
    pairs.push(pair("client_id", client_id));
    pairs.push(pair("redirect_uri", REDIRECT_URI));
    pairs.push(pair("scope", SCOPES));
    pairs.push(pair("state", state));
    pairs.push(pair("code_challenge", challenge));
    pairs.push(pair("code_challenge_method", "S256"));
    assert(pair_views(pairs@) =~= authorization_pairs(client_id@, state@, challenge@));
    match url_append_pairs(endpoint, &pairs) {
        Ok(u) => Ok(u),
        Err(e) => Err(SolidSyncError::Url(e)),
    }
}

/// Records a login flow with the given PKCE pair, DPoP key and `state`, and
/// gives the authorization URL that starts it. Nothing is recorded when the
/// authorization endpoint is not a URL.
pub fn start_login_with(
    auth: &mut AuthState,
    issuer: String,
    config: OidcConfiguration,
    client: RegisteredClient,
    pkce: PkcePair,
    dpop: DpopKey,
    state: String,
) -> (r: Result<BeginLoginResponse, SolidSyncError>)
    ensures
        final(auth).active_session() == old(auth).active_session(),
        match url_pairs_appended(
            config.authorization_endpoint@,
            authorization_pairs(client.client_id@, state@, pkce.challenge@),
        ) {
            Ok(u) => {
                &&& r matches Ok(resp) && resp.auth_url@ == u && resp.state@ == state@
                &&& final(auth).pending_flows() == old(auth).pending_flows().insert(
                    state@,
                    final(auth).pending_flows()[state@],
                )
                &&& {
                    let flow = final(auth).pending_flows()[state@];
                    &&& flow.issuer == issuer
                    &&& flow.config == config
                    &&& flow.client == client
                    &&& flow.pkce == pkce
                    &&& flow.dpop == dpop
                    &&& flow.redirect_uri@ == REDIRECT_URI@
                }
            },
            Err(e) => {
                &&& r matches Err(SolidSyncError::Url(m)) && m@ == e
                &&& final(auth).pending_flows() == old(auth).pending_flows()
            },
        },
{
    let auth_url = match authorization_url(
        config.authorization_endpoint.as_str(),
        client.client_id.as_str(),
        state.as_str(),
        pkce.challenge.as_str(),
    ) {
        Ok(u) => u,
        Err(e) => return Err(e),
    };
    let key = state.clone();
    let flow = PendingFlow { issuer, config, client, pkce, dpop, redirect_uri: REDIRECT_URI.to_owned() };
    auth.insert_pending(key, flow);
    Ok(BeginLoginResponse { auth_url, state })
}

/// Starts a login once the provider is discovered and the client registered:
/// makes fresh PKCE and DPoP material and a fresh `state`, builds the
/// authorization URL and records the flow under that `state`.
pub fn start_login(
    auth: &mut AuthState,
    issuer: String,
    config: OidcConfiguration,
    client: RegisteredClient,
) -> (r: Result<BeginLoginResponse, SolidSyncError>)
    ensures
        final(auth).active_session() == old(auth).active_session(),
        match r {
            Ok(resp) => {
                &&& is_uuid_v4_text(resp.state@)
                &&& final(auth).pending_flows().dom() == old(auth).pending_flows().dom().insert(resp.state@)
                &&& forall|k: Seq<char>| k != resp.state@ && old(auth).pending_flows().dom().contains(k)
                    ==> final(auth).pending_flows()[k] == old(auth).pending_flows()[k]
                &&& {
                    let flow = final(auth).pending_flows()[resp.state@];
                    &&& flow.issuer == issuer
                    &&& flow.config == config
                    &&& flow.client == client
                    &&& flow.redirect_uri@ == REDIRECT_URI@
                    &&& flow.pkce.challenge@ == s256_challenge(flow.pkce.verifier@)
                    &&& is_jwk_of(flow.dpop.public_jwk(), flow.dpop.secret_scalar())
                    &&& url_pairs_appended(
                        config.authorization_endpoint@,
                        authorization_pairs(client.client_id@, resp.state@, flow.pkce.challenge@),
                    ) == Ok::<Seq<char>, Seq<char>>(resp.auth_url@)
                }
            },
            Err(SolidSyncError::Url(m)) => {
                &&& final(auth).pending_flows() == old(auth).pending_flows()
                &&& exists|state: Seq<char>, verifier: Seq<char>|
                    is_uuid_v4_text(state) && url_pairs_appended(
                        config.authorization_endpoint@,
                        authorization_pairs(client.client_id@, state, s256_challenge(verifier)),
                    ) == Err::<Seq<char>, Seq<char>>(m@)
            },
            Err(_) => false,
        },
{
    let pkce = PkcePair::new();
    let dpop = DpopKey::new();
    let state = random_uuid();
    start_login_with(auth, issuer, config, client, pkce, dpop, state)
}

/// The value of the last pair with the given key.
pub open spec fn last_value(pairs: Seq<(Seq<char>, Seq<char>)>, key: Seq<char>) -> Option<Seq<char>>
    decreases pairs.len(),
{
    if pairs.len() == 0 {
        None
    } else if pairs.last().0 == key {
        Some(pairs.last().1)
    } else {
        last_value(pairs.drop_last(), key)
    }
}

/// The authorization code and `state` a callback carries.
#[derive(Debug, Clone)]
pub struct CallbackParams {
    pub code: String,
    pub state: String,
}

/// The text of an error the provider reports in the callback.
pub open spec fn callback_error_text(error: Seq<char>, description: Option<Seq<char>>) -> Seq<char> {
    match description {
        Some(d) => error + ": "@ + d,
        None => error,
    }
}

/// What the query pairs of a callback URL mean: the provider's `error` (with
/// its `error_description`) first, then a missing `code`, then a missing
/// `state`; each key counts with its last value.
pub open spec fn callback_outcome_is(
    pairs: Seq<(Seq<char>, Seq<char>)>,
    r: Result<CallbackParams, SolidSyncError>,
) -> bool {
    match last_value(pairs, "error"@) {
        Some(err) => r matches Err(SolidSyncError::Token(m)) && m@ == callback_error_text(
            err,
            last_value(pairs, "error_description"@),
        ),
        None => match last_value(pairs, "code"@) {
            None => r matches Err(SolidSyncError::FlowState(m)) && m@ == "callback missing `code`"@,
            Some(c) => match last_value(pairs, "state"@) {
                None => r matches Err(SolidSyncError::FlowState(m)) && m@
                    == "callback missing `state`"@,
                Some(st) => r matches Ok(p) && p.code@ == c && p.state@ == st,
            },
        },
    }
}

fn keep_last(slot: &mut Option<String>, value: &String)
    ensures
        *final(slot) matches Some(v) && v@ == value@,
{
    *slot = Some(value.clone());
}

/// Reads the authorization code and `state` from the decoded query pairs of a callback.
pub fn callback_params(pairs: &Vec<(String, String)>) -> (r: Result<CallbackParams, SolidSyncError>)
    ensures
        callback_outcome_is(pair_views(pairs@), r),
{
    let ghost p = pair_views(pairs@);
    let mut code: Option<String> = None;
    let mut state: Option<String> = None;
    let mut oauth_error: Option<String> = None;
    let mut oauth_error_desc: Option<String> = None;
    for i in 0..pairs.len()
        invariant
            p == pair_views(pairs@),
            crate::weburl::opt_view(code) == last_value(p.take(i as int), "code"@),
            crate::weburl::opt_view(state) == last_value(p.take(i as int), "state"@),
            crate::weburl::opt_view(oauth_error) == last_value(p.take(i as int), "error"@),
            crate::weburl::opt_view(oauth_error_desc) == last_value(p.take(i as int), "error_description"@),
    {
        proof {
            reveal_strlit("code");
            reveal_strlit("state");
            reveal_strlit("error");
            reveal_strlit("error_description");
            assert("state"@ != "error"@) by {
                assert("state"@[0] != "error"@[0]);
            }
            assert("code"@[0] != "state"@[0] && "code"@[0] != "error"@[0] && "code"@[0]
                != "error_description"@[0] && "state"@[0] != "error_description"@[0]);
            assert("error"@.len() != "error_description"@.len());
        }
        let k = pairs[i].0.as_str();
        let v = &pairs[i].1;
        assert(p.take(i + 1).drop_last() == p.take(i as int));
        assert(p.take(i + 1).last() == (k@, v@));
        if same_text(k, "code") {
            keep_last(&mut code, v);
        } else if same_text(k, "state") {
            keep_last(&mut state, v);
        } else if same_text(k, "error") {
            keep_last(&mut oauth_error, v);
        } else if same_text(k, "error_description") {
            keep_last(&mut oauth_error_desc, v);
        }
    }
    assert(p.take(pairs@.len() as int) == p);
    if let Some(err) = oauth_error {
        return Err(
            SolidSyncError::Token(
                match oauth_error_desc {
                    Some(d) => {
                        let mut m = err;
                        m.append(": ");
                        m.append(d.as_str());
                        m
                    },
                    None => err,
                },
            ),
        );
    }
    let code = match code {
        Some(c) => c,
        None => return Err(SolidSyncError::FlowState("callback missing `code`".to_owned())),
    };
    let state = match state {
        Some(s) => s,
        None => return Err(SolidSyncError::FlowState("callback missing `state`".to_owned())),
    };
    Ok(CallbackParams { code, state })
}

/// Reads the authorization code and `state` from a callback URL
/// (`...://auth/callback?code=...&state=...`).
pub fn parse_callback(url: &str) -> (r: Result<CallbackParams, SolidSyncError>)
    ensures
        match url_query_pairs(url@) {
            Err(e) => r matches Err(SolidSyncError::Url(m)) && m@ == e,
            Ok(pairs) => callback_outcome_is(pairs, r),
        },
{
    match query_pairs_of(url) {
        Ok(pairs) => callback_params(&pairs),
        Err(e) => Err(SolidSyncError::Url(e)),
    }
}

/// The message given when a callback's `state` matches no pending login.
pub open spec fn unknown_state_text() -> Seq<char> {
    "unknown `state` — no pending login matches this callback"@
}

/// Removes the login flow that a callback's `state` refers to.
pub fn take_flow(auth: &mut AuthState, state: &str) -> (r: Result<PendingFlow, SolidSyncError>)
    ensures
        final(auth).pending_flows() == old(auth).pending_flows().remove(state@),
        final(auth).pending_flows().len() == if old(auth).pending_flows().dom().contains(state@) {
            old(auth).pending_flows().len() - 1
        } else {
            old(auth).pending_flows().len() as int
        },
        final(auth).active_session() == old(auth).active_session(),
        match r {
            Ok(f) => old(auth).pending_flows().dom().contains(state@) && old(auth).pending_flows()[state@] == f,
            Err(e) => !old(auth).pending_flows().dom().contains(state@) && (e matches SolidSyncError::FlowState(m) && m@ == unknown_state_text()),
        },
{
    match auth.take_pending(state) {
        Some(f) => Ok(f),
        None => Err(
            SolidSyncError::FlowState(
                "unknown `state` — no pending login matches this callback".to_owned(),
            ),
        ),
    }
}

/// The token request that redeems an authorization code.
#[derive(Debug, Clone)]
pub struct TokenRequest {
    pub endpoint: String,
    /// The `DPoP` header.
    pub dpop_proof: String,
    /// The form body, in order.
    pub form: Vec<(String, String)>,
}

/// The form fields of the authorization-code grant.
pub open spec fn token_form_pairs(
    code: Seq<char>,
    verifier: Seq<char>,
    client_id: Seq<char>,
    redirect_uri: Seq<char>,
) -> Seq<(Seq<char>, Seq<char>)> {
    seq![
        ("grant_type"@, "authorization_code"@),
        ("code"@, code),
        ("code_verifier"@, verifier),
        ("client_id"@, client_id),
        ("redirect_uri"@, redirect_uri),
    ]
}

/// The request that exchanges the code for tokens, carrying the given DPoP proof.
pub fn token_request_with_proof(pending: &PendingFlow, code: &str, dpop_proof: String) -> (req: TokenRequest)
    ensures
        req.endpoint@ == pending.config.token_endpoint@,
        req.dpop_proof == dpop_proof,
        pair_views(req.form@) == token_form_pairs(
            code@,
            pending.pkce.verifier@,
            pending.client.client_id@,
            pending.redirect_uri@,
        ),
{
    let mut form: Vec<(String, String)> = Vec::new();
    form.push(pair("grant_type", "authorization_code"));
    form.push(pair("code", code));
    form.push(pair("code_verifier", pending.pkce.verifier.as_str()));
    form.push(pair("client_id", pending.client.client_id.as_str()));
    form.push(pair("redirect_uri", pending.redirect_uri.as_str()));
    assert(pair_views(form@) =~= token_form_pairs(
        code@,
        pending.pkce.verifier@,
        pending.client.client_id@,
        pending.redirect_uri@,
    ));
    TokenRequest { endpoint: pending.config.token_endpoint.clone(), dpop_proof, form }
}

/// The request that exchanges the code for DPoP-bound tokens, with a fresh
/// proof for `POST` on the token endpoint.
pub fn token_request(pending: &PendingFlow, code: &str) -> (r: Result<TokenRequest, SolidSyncError>)
    ensures
        match r {
            Ok(req) => {
                &&& req.endpoint@ == pending.config.token_endpoint@
                &&& pair_views(req.form@) == token_form_pairs(
                    code@,
                    pending.pkce.verifier@,
                    pending.client.client_id@,
                    pending.redirect_uri@,
                )
                &&& exists|iat: i64, jti: Seq<char>|
                    dpop_proof(pending.dpop.public_jwk(), pending.dpop.secret_scalar(), iat, jti, "POST"@, pending.config.token_endpoint@, None, None)
                        == Some(req.dpop_proof@)
            },
            Err(e) => e is Crypto,
        },
{
    match pending.dpop.proof_jwt("POST", pending.config.token_endpoint.as_str(), None, None) {
        Ok(p) => Ok(token_request_with_proof(pending, code, p)),
        Err(e) => Err(e),
    }
}

/// The two legs of a login agree, for a flow as `start_login` records it:
/// the token request repeats the `client_id` and `redirect_uri` of the
/// authorization request, and its `code_verifier` is the one whose S256
/// challenge the authorization request carried.
pub proof fn lemma_token_request_matches_authorization(flow: PendingFlow, code: Seq<char>, state: Seq<char>)
    requires
        flow.pkce.challenge@ == s256_challenge(flow.pkce.verifier@),
        flow.redirect_uri@ == REDIRECT_URI@,
    ensures
        ({
            let form = token_form_pairs(code, flow.pkce.verifier@, flow.client.client_id@, flow.redirect_uri@);
            let authz = authorization_pairs(flow.client.client_id@, state, flow.pkce.challenge@);
            &&& form[2].0 == "code_verifier"@ && authz[5].0 == "code_challenge"@
            &&& s256_challenge(form[2].1) == authz[5].1
            &&& form[3].0 == "client_id"@ && authz[1].0 == "client_id"@ && form[3].1 == authz[1].1
            &&& form[4].0 == "redirect_uri"@ && authz[2].0 == "redirect_uri"@ && form[4].1 == authz[2].1
        }),
{
}

/// Judges the status of the token response: success for 2xx, a `Token`
/// error with the status and the body otherwise.
pub fn check_token_status(code: u16, body: &str) -> (r: Result<(), SolidSyncError>)
    requires
        100 <= code <= 999,
    ensures
        is_success_status(code) ==> r is Ok,
        !is_success_status(code) ==> (r matches Err(SolidSyncError::Token(m)) && m@
            == status_failure_text(code, body@)),
{
    if status_is_success(code) {
        Ok(())
    } else {
        Err(SolidSyncError::Token(status_failure(code, body)))
    }
}

/// A successful answer of the token endpoint.
#[derive(Debug, Clone)]
pub struct TokenResponse {
    pub access_token: String,
    pub token_type: String,
    pub refresh_token: Option<String>,
    pub id_token: Option<String>,
    pub expires_in: Option<u64>,
    pub scope: Option<String>,
}

/// When the access token expires: the time it was obtained plus its lifetime.
pub open spec fn expiry(obtained_at: i64, expires_in: Option<u64>) -> Option<i64> {
    match expires_in {
        Some(s) => Some((obtained_at + (s as i64)) as i64),
        None => None,
    }
}

/// Whether the expiry of a token can be computed without overflow.
pub open spec fn expiry_fits(obtained_at: i64, expires_in: Option<u64>) -> bool {
    match expires_in {
        Some(s) => i64::MIN <= obtained_at + (s as i64) <= i64::MAX,
        None => true,
    }
}

/// Whether the expiry of a token can be computed without overflow.
pub fn expiry_computable(obtained_at: i64, expires_in: Option<u64>) -> (b: bool)
    ensures
        b == expiry_fits(obtained_at, expires_in),
{
    match expires_in {
        Some(s) => obtained_at.checked_add(s as i64).is_some(),
        None => true,
    }
}

/// The WebID named by an optional ID token.
pub open spec fn webid_of_token(id_token: Option<String>) -> Option<Seq<char>> {
    match id_token {
        Some(t) => id_token_webid(t@),
        None => None,
    }
}

/// The WebID a login records is read from the ID token's claims: for a token
/// of three dot-separated parts whose middle part decodes to a JSON payload,
/// a string `webid` claim is the WebID; without one, a string `sub` claim
/// that starts with `http` is; otherwise there is none. A token of another
/// shape, a payload that does not decode or is not JSON, or no ID token at
/// all gives none. `extract_webid_from_id_token` reads the same.
pub proof fn lemma_webid_from_claims(t: String)
    ensures
        webid_of_token(None) is None,
        webid_of_token(Some(t)) == id_token_webid(t@),
        split_char(t@, '.').len() != 3 ==> webid_of_token(Some(t)) is None,
        split_char(t@, '.').len() == 3 ==> match base64url_decoded(split_char(t@, '.')[1]) {
            None => webid_of_token(Some(t)) is None,
            Some(payload) => match json_string_member(payload, "webid"@) {
                None => webid_of_token(Some(t)) is None,
                Some(Some(w)) => webid_of_token(Some(t)) == Some(w),
                Some(None) => match json_string_member(payload, "sub"@) {
                    Some(Some(sub)) => if has_prefix(sub, "http"@) {
                        webid_of_token(Some(t)) == Some(sub)
                    } else {
                        webid_of_token(Some(t)) is None
                    },
                    _ => webid_of_token(Some(t)) is None,
                },
            },
        },
{
}

/// The session a token response completes for a flow.
pub open spec fn is_session_for(a: ActiveSession, flow: PendingFlow, tr: TokenResponse, obtained_at: i64) -> bool {
    &&& crate::weburl::opt_view(a.webid) == webid_of_token(tr.id_token)
    &&& a.issuer == flow.issuer
    &&& a.config == flow.config
    &&& a.client == flow.client
    &&& a.dpop == flow.dpop
    &&& a.tokens.access_token == tr.access_token
    &&& a.tokens.token_type == tr.token_type
    &&& a.tokens.refresh_token == tr.refresh_token
    &&& a.tokens.id_token == tr.id_token
    &&& a.tokens.expires_in == tr.expires_in
    &&& a.tokens.scope == tr.scope
    &&& a.tokens.expires_at == expiry(obtained_at, tr.expires_in)
}

/// The summary of a session that the frontend sees.
pub open spec fn is_summary_of(sum: SessionSummary, a: ActiveSession) -> bool {
    &&& crate::weburl::opt_view(sum.webid) == crate::weburl::opt_view(a.webid)
    &&& sum.issuer@ == a.issuer@
    &&& sum.client_id@ == a.client.client_id@
    &&& sum.expires_at == a.tokens.expires_at
    &&& crate::weburl::opt_view(sum.scope) == crate::weburl::opt_view(a.tokens.scope)
}

/// What a completed login reports stays what `current_session` reports while
/// the session stays (taking or recording pending flows leaves it; only
/// another login or a logout changes it): two summaries of one session agree.
pub proof fn lemma_login_summary_persists(
    after_login: AuthState,
    later: AuthState,
    at_login: SessionSummary,
    now: SessionSummary,
)
    requires
        after_login.active_session() matches Some(a) && is_summary_of(at_login, a),
        later.active_session() == after_login.active_session(),
        later.active_session() matches Some(b) && is_summary_of(now, b),
    ensures
        crate::weburl::opt_view(now.webid) == crate::weburl::opt_view(at_login.webid),
        now.issuer@ == at_login.issuer@,
        now.client_id@ == at_login.client_id@,
        now.expires_at == at_login.expires_at,
        crate::weburl::opt_view(now.scope) == crate::weburl::opt_view(at_login.scope),
{
}

fn clone_opt(o: &Option<String>) -> (r: Option<String>)
    ensures
        crate::weburl::opt_view(r) == crate::weburl::opt_view(*o),
{
    match o {
        Some(s) => Some(s.clone()),
        None => None,
    }
}

/// The summary of a session.
pub fn session_summary(a: &ActiveSession) -> (sum: SessionSummary)
    ensures
        is_summary_of(sum, *a),
{
    SessionSummary {
        webid: clone_opt(&a.webid),
        issuer: a.issuer.clone(),
        client_id: a.client.client_id.clone(),
        expires_at: a.tokens.expires_at,
        scope: clone_opt(&a.tokens.scope),
    }
}

/// The summary of the active session, if there is one.
pub fn current_session(auth: &AuthState) -> (r: Option<SessionSummary>)
    ensures
        match auth.active_session() {
            Some(a) => r matches Some(sum) && is_summary_of(sum, a),
            None => r is None,
        },
{
    match auth.active() {
        Some(a) => Some(session_summary(a)),
        None => None,
    }
}

/// The time tokens count as obtained at, from a reading of the clock in
/// seconds since the epoch: the reading itself, or 0 when there was none.
pub fn obtained_at_from(clock: Result<u64, String>) -> (t: i64)
    ensures
        match clock {
            Ok(n) => t == n as i64,
            Err(_) => t == 0,
        },
{
    match clock {
        Ok(n) => n as i64,
        Err(_) => 0,
    }
}

/// The Unix time now, or 0 when the clock is before the epoch.
/// No clause states the value: it is whatever the clock read, and every
/// `i64` is such a reading; `obtained_at_from` states what is made of it.
pub fn obtained_at_now() -> (t: i64) {
    obtained_at_from(unix_time_secs())
}

/// Completes a login with the token endpoint's answer: the flow becomes the
/// active session, with the WebID read from the ID token and the expiry
/// computed from `obtained_at`.
pub fn complete_login(auth: &mut AuthState, flow: PendingFlow, tr: TokenResponse, obtained_at: i64) -> (sum: SessionSummary)
    requires
        expiry_fits(obtained_at, tr.expires_in),
    ensures
        final(auth).pending_flows() == old(auth).pending_flows(),
        final(auth).active_session() matches Some(a) && is_session_for(a, flow, tr, obtained_at)
            && is_summary_of(sum, a),
{
    let webid = match &tr.id_token {
        Some(t) => extract_webid_from_id_token(t.as_str()),
        None => None,
    };
    let expires_at = match tr.expires_in {
        Some(s) => Some(obtained_at + s as i64),
        None => None,
    };
    let tokens = TokenSet {
        access_token: tr.access_token,
        token_type: tr.token_type,
        refresh_token: tr.refresh_token,
        id_token: tr.id_token,
        expires_in: tr.expires_in,
        scope: tr.scope,
        expires_at,
    };
    let session = ActiveSession {
        webid,
        issuer: flow.issuer,
        config: flow.config,
        client: flow.client,
        dpop: flow.dpop,
        tokens,
    };
    let sum = session_summary(&session);
    auth.activate(session);
    sum
}

/// Ends the session and forgets every pending login.
pub fn logout(auth: &mut AuthState)
    ensures
        final(auth).active_session() is None,
        final(auth).pending_flows() == Map::<Seq<char>, PendingFlow>::empty(),
{
    auth.logout();
}

proof fn lemma_before_char(s: Seq<char>, c: char)
    ensures
        !has_char(before_char(s, c), c),
        !has_char(s, c) ==> before_char(s, c) == s,
    decreases s.len(),
{
    if s.len() > 0 {
        lemma_before_char(s.drop_first(), c);
        if s[0] != c {
            let r = before_char(s.drop_first(), c);
            assert(before_char(s, c) == seq![s[0]] + r);
            if has_char(seq![s[0]] + r, c) {
                let i = choose|i: int| 0 <= i < (seq![s[0]] + r).len() && (seq![s[0]] + r)[i] == c;
                if i > 0 {
                    assert(r[i - 1] == c);
                }
            }
            if !has_char(s, c) {
                assert(!has_char(s.drop_first(), c)) by {
                    if has_char(s.drop_first(), c) {
                        let i = choose|i: int| 0 <= i < s.drop_first().len() && s.drop_first()[i] == c;
                        assert(s[i + 1] == c);
                    }
                }
                assert(seq![s[0]] + s.drop_first() =~= s);
            }
        } else {
            assert(s[0] == c);
        }
    }
}

proof fn lemma_trim_end_char(s: Seq<char>, c: char)
    ensures
        trim_end_char(s, c).len() == 0 || trim_end_char(s, c).last() != c,
        trim_end_char(s, c).len() <= s.len(),
        trim_end_char(s, c) == s.take(trim_end_char(s, c).len() as int),
    decreases s.len(),
{
    if s.len() > 0 && s.last() == c {
        lemma_trim_end_char(s.drop_last(), c);
        assert(s.drop_last().take(trim_end_char(s, c).len() as int) =~= s.take(trim_end_char(s, c).len() as int));
    } else {
        assert(s.take(s.len() as int) =~= s);
    }
}

/// A normalized issuer has no fragment and no trailing slash, and
/// normalizing it again changes nothing.
pub proof fn lemma_normalized_issuer_form(serialization: Seq<char>)
    ensures
        !has_char(normalized_issuer(serialization), '#'),
        normalized_issuer(serialization).len() == 0
            || normalized_issuer(serialization).last() != '/',
        normalized_issuer(normalized_issuer(serialization)) == normalized_issuer(serialization),
{
    let b = before_char(serialization, '#');
    let t = trim_end_char(b, '/');
    lemma_before_char(serialization, '#');
    lemma_trim_end_char(b, '/');
    if has_char(t, '#') {
        let i = choose|i: int| 0 <= i < t.len() && t[i] == '#';
        assert(b.take(t.len() as int)[i] == b[i]);
        assert(b[i] == '#');
    }
    lemma_before_char(t, '#');
    if t.len() > 0 {
        assert(trim_end_char(t, '/') == t);
    }
}

} // verus!
