//! Authentication and authorization core for a multi-tenant anticheat API.
//!
//! The library resolves each inbound request to exactly one validated
//! principal — a dashboard user holding a signed session token, or a machine
//! agent holding a structured API key — before any handler logic runs.
//! Secret material is validated once at boot; session tokens are issued and
//! verified against it; API keys are parsed structurally; role checks gate
//! protected routes.

pub mod api_key;
pub mod b64;
pub mod config;
pub mod crypto;
pub mod errors;
pub mod guard;
pub mod handlers;
pub mod middleware;
pub mod models;
pub mod pagination;
pub mod principal;
pub mod roles;
pub mod secrets;
pub mod strutil;
pub mod token;
