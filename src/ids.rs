//! Challenge ids: UUIDs in their text form, and the 128-bit values they stand
//! for.
use vstd::prelude::*;

use crate::error::Error;

verus! {

/// The value of a UUID written as `s`, or `None` where `s` is not a UUID.
pub uninterp spec fn uuid_value_of(s: Seq<char>) -> Option<u128>;

/// Relies on `uuid::Uuid::parse_str` (with `Uuid::as_u128`): reads a UUID in
/// any of the crate's text forms; the result depends on the text alone.
#[verifier::external_body]
pub(crate) fn parse_uuid(s: &str) -> (r: Option<u128>)
    ensures
        r == uuid_value_of(s@),
{
    match uuid::Uuid::parse_str(s) {
        Ok(u) => Some(u.as_u128()),
        Err(_) => None,
    }
}

/// A UUID of version 4 (random), variant RFC 4122: the high nibble of its
/// seventh byte is 4, and the two high bits of its ninth byte are `10`.
pub open spec fn is_v4(v: u128) -> bool {
    (v >> 76u128) & 0xfu128 == 4 && (v >> 62u128) & 0x3u128 == 2
}

/// Relies on `uuid::Uuid::new_v4` and its `Display`: a fresh random UUID of
/// version 4, variant RFC 4122, in the 36-character hyphenated form, which
/// `parse_str` reads back.
#[verifier::external_body]
pub(crate) fn new_uuid_text() -> (r: String)
    ensures
        r@.len() == 36,
        uuid_value_of(r@) is Some,
        is_v4(uuid_value_of(r@)->Some_0),
{
    uuid::Uuid::new_v4().to_string()
}

/// Reads a challenge id given by a client: the value of the UUID it writes,
/// or `ParseUuid` where it is not one.
pub fn parse_challenge_id(id: &str) -> (r: Result<u128, Error>)
    ensures
        match uuid_value_of(id@) {
            Some(key) => r == Ok::<u128, Error>(key),
            None => r matches Err(Error::ParseUuid),
        },
{
    match parse_uuid(id) {
        Some(key) => Ok(key),
        None => Err(Error::ParseUuid),
    }
}

} // verus!
