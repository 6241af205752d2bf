//! Password hashing and verification.
//!
//! Passwords are salted and hashed with Argon2 into a self-describing PHC
//! string (algorithm, parameters, salt and digest in one text value);
//! verification parses the stored string and recomputes the digest with the
//! embedded parameters and salt.

use vstd::prelude::*;
use argon2::PasswordHasher;
use argon2::PasswordVerifier;

verus! {

/// Failure of password hashing or verification.  A malformed stored hash is
/// distinguished from a mismatching password, so corrupted storage is never
/// silently reported as a wrong password.
#[derive(Debug, Clone, PartialEq, Eq)]
pub enum PwdError {
    /// The stored hash string is not a valid self-describing hash encoding.
    MalformedHash,
    /// Hashing itself failed (the key-derivation function rejected its
    /// parameters).
    HashingFailed,
}

/// Whether `h` parses as a self-describing password-hash string, as
/// `argon2::PasswordHash::new` decides it.
pub uninterp spec fn phc_valid(h: Seq<char>) -> bool;

/// Whether the plaintext password `p` matches the self-describing hash
/// string `h`: recomputing the digest of `p` with the algorithm, parameters
/// and salt embedded in `h` yields the digest embedded in `h`.  A function
/// of the two strings alone.
pub uninterp spec fn phc_matches(p: Seq<char>, h: Seq<char>) -> bool;

/// The outcome verification owes for a candidate password `c` against a
/// stored hash string `h`: an error exactly when `h` is malformed, else
/// whether `c` matches.
pub open spec fn verify_outcome(c: Seq<char>, h: Seq<char>) -> Result<bool, PwdError> {
    if phc_valid(h) {
        Ok(phc_matches(c, h))
    } else {
        Err(PwdError::MalformedHash)
    }
}

/// Hashes a plaintext password with a fresh random salt.
///
/// Relies on `Argon2::hash_password` and `SaltString::generate` (argon2):
/// the salt carries 128 bits of operating-system randomness, and the
/// returned PHC string embeds algorithm, parameters, salt and digest, so it
/// parses back and verifies against the same password.
#[verifier::external_body]
pub fn hash_password(password: &str) -> (r: Result<String, PwdError>)
    ensures
        r matches Ok(h) ==> phc_valid(h@) && phc_matches(password@, h@),
{
    let argon = argon2::Argon2::default();
    let salt = argon2::password_hash::SaltString::generate(&mut rand::rngs::OsRng);
    match argon.hash_password(password.as_bytes(), &salt) {
        Ok(h) => Ok(h.to_string()),
        Err(_) => Err(PwdError::HashingFailed),
    }
}

/// Verifies a candidate password against a stored hash string, in constant
/// time with respect to the digest comparison.
///
/// Relies on `PasswordHash::new` (parsing decides `phc_valid`) and
/// `Argon2::verify_password` (recomputation decides `phc_matches`), both of
/// argon2.
#[verifier::external_body]
pub fn verify_password(candidate: &str, hash: &str) -> (r: Result<bool, PwdError>)
    ensures
        r == verify_outcome(candidate@, hash@),
{
    let argon = argon2::Argon2::default();
    match argon2::PasswordHash::new(hash) {
        Ok(parsed) => Ok(argon.verify_password(candidate.as_bytes(), &parsed).is_ok()),
        Err(_) => Err(PwdError::MalformedHash),
    }
}

/// Law: a password verifies against a hash freshly produced from it.  What
/// `hash_password` returns for a password satisfies exactly the premises
/// here, and `verify_password` returns exactly `verify_outcome`, so
/// verifying any password against its own fresh hash yields `Ok(true)`.
pub proof fn lemma_verify_of_fresh_hash(p: Seq<char>, h: Seq<char>)
    requires
        phc_valid(h),
        phc_matches(p, h),
    ensures
        verify_outcome(p, h) == Ok::<bool, PwdError>(true),
{
}

} // verus!
