//! Session-token generation: compact, unguessable opaque strings.

use vstd::prelude::*;
use rand::Rng;
use rand::SeedableRng;

verus! {

/// The Crockford base32 encoding of `b`, as `base32::encode` computes it:
/// a case-insensitive, unambiguous alphabet with no padding.
pub uninterp spec fn crockford32_of(b: Seq<u8>) -> Seq<char>;

/// A character of the Crockford base32 alphabet: digits and upper-case
/// letters without I, L, O and U — safe in cookies and headers without
/// escaping.
pub open spec fn is_crockford_char(c: char) -> bool {
    "0123456789ABCDEFGHJKMNPQRSTVWXYZ"@.contains(c)
}

/// Relies on `StdRng::from_entropy` and `Rng::fill` (rand): eight bytes of
/// cryptographically secure randomness seeded from the operating system.
/// Nothing is promised of the values.
#[verifier::external_body]
fn token_bytes() -> (r: Vec<u8>)
    ensures
        r@.len() == 8,
{
    let mut bytes = [0u8; 8];
    rand::rngs::StdRng::from_entropy().fill(&mut bytes);
    bytes.to_vec()
}

/// Relies on `base32::encode` with the Crockford alphabet: the encoding
/// depends on the bytes alone, carries no padding, and yields one character
/// per five bits of input, rounded up.
#[verifier::external_body]
fn crockford32(bytes: &Vec<u8>) -> (r: String)
    ensures
        r@ == crockford32_of(bytes@),
        r@.len() == (bytes@.len() * 8 + 4) / 5,
        forall|i: int| 0 <= i < r@.len() ==> is_crockford_char(r@[i]),
{
    base32::encode(base32::Alphabet::Crockford, bytes)
}

/// Generates a fresh session token: eight bytes (64 bits) of secure
/// randomness, Crockford-base32 encoded into thirteen characters fit for
/// cookies and headers without escaping.
pub fn generate_short_token() -> (r: String)
    ensures
        r@.len() == 13,
        exists|b: Seq<u8>| b.len() == 8 && r@ == crockford32_of(b),
        forall|i: int| 0 <= i < r@.len() ==> is_crockford_char(r@[i]),
{
    let bytes = token_bytes();
    let token = crockford32(&bytes);
    proof {
        assert(bytes@.len() == 8 && token@ == crockford32_of(bytes@));
    }
    token
}

} // verus!
