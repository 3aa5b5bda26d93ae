//! Credential-issuing authentication and authorization core.
//!
//! The library registers and logs in users against an identity store,
//! issues time-bounded signed bearer tokens, and gates access to
//! protected route prefixes by role.

/// Per-request admission control: token lookup, token check, role check.
pub mod auth_guard;
/// The authentication service and its controller.
pub mod auth_service;
/// Hierarchical path-based role authorization.
pub mod authorizer;
/// The forms and responses the endpoints exchange.
pub mod dto;
/// Pre-registration inserts of unverified accounts.
pub mod insert;
/// Token issuance and validation.
pub mod jwt;
/// Properties that hold across the library's operations, proved from
/// their contracts alone.
pub mod laws;
/// Credential login and token renewal by overwrite.
pub mod login;
/// Request accounting labels.
pub mod metrics;
/// The user row.
pub mod models;
/// Idempotent registration: claim-or-insert, role grant, token issue.
pub mod register;
/// Status codes and response shapes.
pub mod responses;
/// Password hashing for storage and comparison.
pub mod security;
/// The in-memory identity store and its invariants.
pub mod store;
/// String scanning, decimal parsing and rendering.
pub mod strutil;
/// Registration form rules.
pub mod validation;
/// The bare credential-check endpoint.
pub mod verify_login;
