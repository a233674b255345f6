//! OIDC discovery and Dynamic Client Registration, apart from the HTTP exchanges.

use vstd::prelude::*;
use crate::error::SolidSyncError;
use crate::httpmsg::{http_status_text, is_success_status, status_is_success, status_text};
use crate::text::{trim_end_char, trim_end_matching};
use crate::weburl::{parse_url, url_parse_result, url_path_replaced, url_set_path};

verus! {

/// Subset of the OIDC discovery document the library uses.
/// Unknown fields are ignored so any Solid-OIDC provider parses.
#[derive(Debug, Clone)]
pub struct OidcConfiguration {
    pub issuer: String,
    pub authorization_endpoint: String,
    pub token_endpoint: String,
    pub registration_endpoint: Option<String>,
    pub jwks_uri: Option<String>,
    pub scopes_supported: Vec<String>,
    pub response_types_supported: Vec<String>,
    pub grant_types_supported: Vec<String>,
    pub code_challenge_methods_supported: Vec<String>,
    pub dpop_signing_alg_values_supported: Vec<String>,
}

/// What a provider answers to a Dynamic Client Registration request.
#[derive(Debug, Clone)]
pub struct RegisteredClient {
    pub client_id: String,
    pub client_secret: Option<String>,
    pub client_id_issued_at: Option<u64>,
    pub client_secret_expires_at: Option<u64>,
    pub redirect_uris: Vec<String>,
    pub registration_access_token: Option<String>,
    pub registration_client_uri: Option<String>,
}

/// The body of a Dynamic Client Registration request.
#[derive(Debug, Clone)]
pub struct RegistrationRequest {
    pub client_name: String,
    pub redirect_uris: Vec<String>,
    pub grant_types: Vec<String>,
    pub response_types: Vec<String>,
    pub application_type: String,
    pub token_endpoint_auth_method: String,
    pub scope: String,
    pub dpop_bound_access_tokens: bool,
}

/// The path appended to an issuer's path to reach its discovery document.
pub open spec fn well_known_suffix() -> Seq<char> {
    "/.well-known/openid-configuration"@
}

/// The discovery document's URL for an issuer: the issuer's path without
/// trailing slashes, followed by the well-known suffix.
pub open spec fn spec_discovery_url(issuer: Seq<char>) -> Result<Seq<char>, Seq<char>> {
    match url_parse_result(issuer) {
        Err(e) => Err(e),
        Ok(u) => url_path_replaced(u.serialization, trim_end_char(u.path, '/') + well_known_suffix()),
    }
}

/// The discovery document of an issuer sits under the issuer's own path: for
/// an issuer that parses to `u`, its URL is `u` with the path replaced by
/// `u`'s path without trailing slashes followed by
/// `/.well-known/openid-configuration` (so `https://idp.example/tenant` and
/// `https://idp.example/tenant/` both keep `/tenant`); an issuer that does not
/// parse gives the parser's error.
pub proof fn lemma_discovery_url_under_issuer_path(issuer: Seq<char>)
    ensures
        url_parse_result(issuer) matches Ok(u) ==> spec_discovery_url(issuer) == url_path_replaced(
            u.serialization,
            trim_end_char(u.path, '/') + "/.well-known/openid-configuration"@,
        ),
        url_parse_result(issuer) matches Err(e) ==> spec_discovery_url(issuer) == Err::<
            Seq<char>,
            Seq<char>,
        >(e),
{
}

/// The URL of the OIDC discovery document of an issuer.
pub fn discovery_url(issuer: &str) -> (r: Result<String, SolidSyncError>)
    ensures
        match spec_discovery_url(issuer@) {
            Ok(s) => r matches Ok(t) && t@ == s,
            Err(e) => r matches Err(SolidSyncError::Url(m)) && m@ == e,
        },
{
    let base = match parse_url(issuer) {
        Ok(u) => u,
        Err(e) => return Err(SolidSyncError::Url(e)),
    };
    let mut path = trim_end_matching(base.path.as_str(), '/');
    path.append("/.well-known/openid-configuration");
    match url_set_path(base.serialization.as_str(), path.as_str()) {
        Ok(s) => Ok(s),
        Err(e) => Err(SolidSyncError::Url(e)),
    }
}

/// `"{url} returned {status}"`, the text of a failed discovery.
pub open spec fn discovery_failure_text(url: Seq<char>, code: u16) -> Seq<char> {
    url + " returned "@ + http_status_text(code)
}

/// Judges the status of the discovery response fetched from `url`: success
/// for 2xx, a `Discovery` error naming the URL and the status otherwise.
pub fn check_discovery_status(url: &str, code: u16) -> (r: Result<(), SolidSyncError>)
    requires
        100 <= code <= 999,
    ensures
        is_success_status(code) ==> r is Ok,
        !is_success_status(code) ==> (r matches Err(SolidSyncError::Discovery(m)) && m@
            == discovery_failure_text(url@, code)),
{
    if status_is_success(code) {
        Ok(())
    } else {
        let mut m = url.to_owned();
        m.append(" returned ");
        m.append(status_text(code).as_str());
        Err(SolidSyncError::Discovery(m))
    }
}

/// The message given when a provider advertises no registration endpoint.
pub open spec fn missing_registration_text() -> Seq<char> {
    "provider does not advertise a registration_endpoint — Dynamic Client Registration is required"@
}

/// The endpoint to register at, which Dynamic Client Registration requires.
pub fn registration_endpoint(config: &OidcConfiguration) -> (r: Result<String, SolidSyncError>)
    ensures
        match config.registration_endpoint {
            Some(e) => r matches Ok(s) && s@ == e@,
            None => r matches Err(SolidSyncError::Registration(m)) && m@
                == missing_registration_text(),
        },
{
    match &config.registration_endpoint {
        Some(e) => Ok(e.clone()),
        None => Err(
            SolidSyncError::Registration(
                "provider does not advertise a registration_endpoint — Dynamic Client Registration is required".to_owned(),
            ),
        ),
    }
}

/// The scopes the library asks for.
pub open spec fn login_scopes() -> Seq<char> {
    "openid profile offline_access webid"@
}

/// The registration request of a native, public, DPoP-bound client.
pub open spec fn is_registration_request_for(r: RegistrationRequest, redirect_uri: Seq<char>) -> bool {
    &&& r.client_name@ == "SolidSync"@
    &&& r.redirect_uris@.len() == 1 && r.redirect_uris@[0]@ == redirect_uri
    &&& r.grant_types@.len() == 2 && r.grant_types@[0]@ == "authorization_code"@
        && r.grant_types@[1]@ == "refresh_token"@
    &&& r.response_types@.len() == 1 && r.response_types@[0]@ == "code"@
    &&& r.application_type@ == "native"@
    &&& r.token_endpoint_auth_method@ == "none"@
    &&& r.scope@ == login_scopes()
    &&& r.dpop_bound_access_tokens
}

/// The body sent to the registration endpoint.
pub fn registration_request(redirect_uri: &str) -> (r: RegistrationRequest)
    ensures
        is_registration_request_for(r, redirect_uri@),
{
    let mut redirect_uris: Vec<String> = Vec::new();
    redirect_uris.push(redirect_uri.to_owned());
    let mut grant_types: Vec<String> = Vec::new();
    grant_types.push("authorization_code".to_owned());
    grant_types.push("refresh_token".to_owned());
    let mut response_types: Vec<String> = Vec::new();
    response_types.push("code".to_owned());
    RegistrationRequest {
        client_name: "SolidSync".to_owned(),
        redirect_uris,
        grant_types,
        response_types,
        application_type: "native".to_owned(),
        token_endpoint_auth_method: "none".to_owned(),
        scope: "openid profile offline_access webid".to_owned(),
        dpop_bound_access_tokens: true,
    }
}

/// `"{status}: {text}"`, the text of a failed exchange.
pub open spec fn status_failure_text(code: u16, body: Seq<char>) -> Seq<char> {
    http_status_text(code) + ": "@ + body
}

/// `"{status}: {body}"` for a status code and response body.
pub fn status_failure(code: u16, body: &str) -> (m: String)
    requires
        100 <= code <= 999,
    ensures
        m@ == status_failure_text(code, body@),
{
    let mut m = status_text(code);
    m.append(": ");
    m.append(body);
    m
}

/// Judges the status of the registration response: success for 2xx, a
/// `Registration` error with the status and the body otherwise.
pub fn check_registration_status(code: u16, body: &str) -> (r: Result<(), SolidSyncError>)
    requires
        100 <= code <= 999,
    ensures
        is_success_status(code) ==> r is Ok,
        !is_success_status(code) ==> (r matches Err(SolidSyncError::Registration(m)) && m@
            == status_failure_text(code, body@)),
{
    if status_is_success(code) {
        Ok(())
    } else {
        Err(SolidSyncError::Registration(status_failure(code, body)))
    }
}

} // verus!
