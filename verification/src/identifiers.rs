//! Identifiers as text. An identifier is a 128-bit number; on the wire it is
//! written as a UUID.

use uuid::Uuid;
use vstd::prelude::*;

verus! {

/// The error of the uuid crate's parser.
#[verifier::external_type_specification]
#[verifier::external_body]
pub struct ExUuidError(uuid::Error);

/// The identifier that `Uuid::parse_str` of the uuid crate reads from a
/// text, as a 128-bit number; `None` where it reads none.
pub uninterp spec fn uuid_parsed(text: Seq<char>) -> Option<u128>;

/// The text that the uuid crate writes for an identifier.
pub uninterp spec fn uuid_text(id: u128) -> Seq<char>;

/// Reads an identifier from a text.
///
/// Trusted: the body calls `Uuid::parse_str` and takes the value of what it
/// returns with `Uuid::as_u128`. The contract gives that value the name
/// [`uuid_parsed`] and claims no more than that the same text always reads
/// the same.
#[verifier::external_body]
pub(crate) fn parse_uuid(text: &str) -> (r: Result<u128, uuid::Error>)
    ensures
        match r {
            Ok(id) => uuid_parsed(text@) == Some(id),
            Err(_) => uuid_parsed(text@) is None,
        },
{
    match Uuid::parse_str(text) {
        Ok(id) => Ok(id.as_u128()),
        Err(e) => Err(e),
    }
}

/// Writes an identifier as text.
///
/// Trusted: the body makes a `Uuid` of the number with `Uuid::from_u128` and
/// calls its `to_string`. The contract gives the text the name
/// [`uuid_text`] and claims no more than that the same identifier is always
/// written the same.
#[verifier::external_body]
pub(crate) fn write_uuid(id: u128) -> (r: String)
    ensures
        r@ == uuid_text(id),
{
    Uuid::from_u128(id).to_string()
}

} // verus!
