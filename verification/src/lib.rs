//! Verified core of the SolidSync desktop bridge: issuer normalisation,
//! Solid-OIDC login bookkeeping, DPoP proof construction and the request
//! shaping of the Obsidian Local REST API connector.

pub mod text;
pub mod error;
pub mod weburl;
pub mod encoding;
pub mod entropy;
pub mod httpmsg;
pub mod auth;
pub mod commands;
pub mod connectors;
