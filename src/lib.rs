//! Authentication, session and multi-factor core of the Deepwell service.
//!
//! Everything that decides is verified here; the caller supplies what can
//! only come from outside (fresh random tokens, the current time, password
//! hash checks) as plain values or closures.

pub mod error;
pub mod session;
pub mod totp;
pub mod mfa;
pub mod auth;
pub mod laws;
pub mod slug;
pub mod seed;
pub mod models;
pub mod render;
