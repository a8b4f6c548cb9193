//! UUIDs in text.

use vstd::prelude::*;

verus! {

/// The error of the `uuid` crate, carried through without looking inside.
#[verifier::external_type_specification]
#[verifier::external_body]
pub struct ExUuidError(uuid::Error);

/// The sixteen bytes of the UUID that a text holds, in any of the forms that
/// the `uuid` crate reads.
pub uninterp spec fn uuid_parsed(text: Seq<char>) -> Option<Seq<u8>>;

/// `Uuid::parse_str` of the `uuid` crate: the bytes of the UUID, or an error
/// where the text holds none.
#[verifier::external_body]
pub(crate) fn parse_uuid(text: &str) -> (r: Result<[u8; 16], uuid::Error>)
    ensures
        uuid_parsed(text@) == match r {
            Ok(id) => Some(id@),
            Err(_) => None,
        },
{
    match uuid::Uuid::parse_str(text) {
        Ok(id) => Ok(id.into_bytes()),
        Err(e) => Err(e),
    }
}

} // verus!
