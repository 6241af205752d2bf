//! Authentication and session-management core for a group-fundraising web
//! panel.
//!
//! The library resolves a request's credentials from its authorization and
//! cookie headers, verifies passwords against stored Argon2 hashes, issues
//! and validates session tokens, and enforces expiry and revocation.  The
//! surrounding web application calls in through `User::authenticate` and
//! `login`; everything else (routing, HTML, transport) stays outside.

pub mod auth;
pub mod crypto;
pub mod db;
pub mod forms;
pub mod ids;
pub mod pwd;
pub mod resolver;
pub mod sessions;
pub mod users;
