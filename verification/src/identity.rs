//! Client-identity resolution: the identity a client supplies at connection
//! time is a UUID-formatted string, and the registry keys sessions by its
//! 128-bit value.

use vstd::prelude::*;

verus! {

/// The parameters a client supplies when it opens a connection.
#[derive(Debug)]
pub struct WsConnectionRequest {
    /// The raw identity string; it must parse as a UUID to be admitted.
    pub client_id: String,
}

/// The 128-bit value a UUID-formatted string denotes, or `None` where the
/// string is not one. The result depends on the characters alone.
pub uninterp spec fn uuid_of(s: Seq<char>) -> Option<u128>;

/// Relies on `uuid::Uuid::parse_str` (and `Uuid::as_u128` for the big-endian
/// 128-bit value): parsing is a function of the input characters alone.
#[verifier::external_body]
pub(crate) fn parse_identity(s: &str) -> (r: Option<u128>)
    ensures
        r == uuid_of(s@),
{
    match uuid::Uuid::parse_str(s) {
        Ok(u) => Some(u.as_u128()),
        Err(_) => None,
    }
}

} // verus!
