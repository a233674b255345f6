//! Errors of the library and their user-facing messages.

use vstd::prelude::*;

verus! {

/// Everything that can go wrong in the library.
#[derive(Clone, Debug, PartialEq, Eq)]
pub enum SolidSyncError {
    /// A transport failure, with the transport's description.
    Http(String),
    /// A URL that could not be parsed, with the parser's description.
    Url(String),
    /// A JSON (de)serialisation failure, with its description.
    Json(String),
    Discovery(String),
    Registration(String),
    Token(String),
    FlowState(String),
    Crypto(String),
    Other(String),
}

/// The message a user sees for an error.
pub open spec fn error_message(e: SolidSyncError) -> Seq<char> {
    match e {
        SolidSyncError::Http(m) => "HTTP error: "@ + m@,
        SolidSyncError::Url(m) => "URL parse error: "@ + m@,
        SolidSyncError::Json(m) => "JSON error: "@ + m@,
        SolidSyncError::Discovery(m) => "OIDC discovery failed: "@ + m@,
        SolidSyncError::Registration(m) => "Client registration failed: "@ + m@,
        SolidSyncError::Token(m) => "Token exchange failed: "@ + m@,
        SolidSyncError::FlowState(m) => "Auth flow state error: "@ + m@,
        SolidSyncError::Crypto(m) => "Crypto error: "@ + m@,
        SolidSyncError::Other(m) => m@,
    }
}

fn prefixed(prefix: &str, m: &str) -> (s: String)
    ensures
        s@ == prefix@ + m@,
{
    let mut s = prefix.to_owned();
    s.append(m);
    s
}

impl SolidSyncError {
    /// The message a user sees for this error.
    pub fn message(&self) -> (s: String)
        ensures
            s@ == error_message(*self),
    {
        match self {
            SolidSyncError::Http(m) => prefixed("HTTP error: ", m.as_str()),
            SolidSyncError::Url(m) => prefixed("URL parse error: ", m.as_str()),
            SolidSyncError::Json(m) => prefixed("JSON error: ", m.as_str()),
            SolidSyncError::Discovery(m) => prefixed("OIDC discovery failed: ", m.as_str()),
            SolidSyncError::Registration(m) => prefixed("Client registration failed: ", m.as_str()),
            SolidSyncError::Token(m) => prefixed("Token exchange failed: ", m.as_str()),
            SolidSyncError::FlowState(m) => prefixed("Auth flow state error: ", m.as_str()),
            SolidSyncError::Crypto(m) => prefixed("Crypto error: ", m.as_str()),
            SolidSyncError::Other(m) => m.clone(),
        }
    }
}

} // verus!
