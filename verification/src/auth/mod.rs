//! Solid-OIDC authentication: discovery, dynamic client registration, PKCE,
//! DPoP and the bookkeeping of login flows and sessions.

pub mod discovery;
pub mod pkce;
pub mod session;
pub mod dpop;
pub mod state;
