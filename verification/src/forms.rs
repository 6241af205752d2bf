//! Plain form and query records the surrounding application exchanges
//! with the library's entry points.

use vstd::prelude::*;

verus! {

/// A login form submission: handle and plaintext password.
#[derive(Debug, Clone)]
pub struct LoginForm {
    pub username: String,
    pub password: String,
}

/// The optional login-error message carried in the panel page's query
/// string.
#[derive(Debug, Clone)]
pub struct LoginErrorQuery {
    pub error: Option<String>,
}

} // verus!
