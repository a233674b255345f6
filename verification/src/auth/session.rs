//! The tokens of an authenticated session.

use vstd::prelude::*;

verus! {

/// The tokens obtained from the token endpoint.
#[derive(Debug, Clone)]
pub struct TokenSet {
    pub access_token: String,
    pub token_type: String,
    pub refresh_token: Option<String>,
    pub id_token: Option<String>,
    pub expires_in: Option<u64>,
    pub scope: Option<String>,
    /// Unix seconds when `access_token` becomes invalid, computed client-side
    /// from the time the tokens were obtained and `expires_in`.
    pub expires_at: Option<i64>,
}

} // verus!
