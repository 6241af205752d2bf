//! Unique identifiers, modeled as their 128-bit values.
//!
//! The persistence layer stores identifiers as canonical hyphenated text;
//! these are the conversions between that text and the plain value the
//! library's own types carry.

use vstd::prelude::*;

verus! {

/// The 128-bit value of the UUID that `s` denotes, if `s` parses as one,
/// as `uuid::Uuid::parse_str` decides it.
pub uninterp spec fn uuid_of(s: Seq<char>) -> Option<u128>;

/// The canonical hyphenated text form of the UUID with value `id`.
pub uninterp spec fn uuid_str_of(id: u128) -> Seq<char>;

/// The Unix seconds embedded in a time-ordered UUID with value `id`, if
/// its version carries a timestamp.
pub uninterp spec fn uuid_unix_secs_of(id: u128) -> Option<i64>;

/// Relies on `uuid::Uuid::parse_str`: parsing depends on the characters
/// alone and fails exactly on text that is not a UUID.
#[verifier::external_body]
pub(crate) fn parse_uuid(s: &str) -> (r: Option<u128>)
    ensures
        r == uuid_of(s@),
{
    match uuid::Uuid::parse_str(s) {
        Ok(u) => Some(u.as_u128()),
        Err(_) => None,
    }
}

/// Relies on `uuid::Uuid`'s display form: the canonical hyphenated text, a
/// function of the value alone; parsing that text yields the value back.
#[verifier::external_body]
pub(crate) fn uuid_to_string(id: u128) -> (r: String)
    ensures
        r@ == uuid_str_of(id),
        uuid_of(r@) == Some(id),
{
    uuid::Uuid::from_u128(id).to_string()
}

/// Relies on `uuid::Uuid::now_v7`: a fresh time-ordered unique identifier,
/// drawn from the clock and operating-system randomness.  Nothing is
/// promised of the value.
#[verifier::external_body]
pub(crate) fn new_time_ordered_id() -> (r: u128) {
    uuid::Uuid::now_v7().as_u128()
}

/// Relies on `uuid::Uuid::get_timestamp`: the embedded instant is derived
/// from the identifier's own bits alone, and is present exactly for the
/// versions that carry one.
#[verifier::external_body]
pub(crate) fn uuid_timestamp_secs(id: u128) -> (r: Option<i64>)
    ensures
        r == uuid_unix_secs_of(id),
{
    uuid::Uuid::from_u128(id).get_timestamp().map(|t| t.to_unix().0 as i64)
}

} // verus!
