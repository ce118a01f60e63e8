//! Specifications of the GUIDs of the `uuid` crate.

use uuid::Uuid;
use vstd::prelude::*;

verus! {

/// A universally unique identifier.
#[verifier::external_type_specification]
#[verifier::external_body]
pub struct ExUuid(Uuid);

/// What `Uuid::parse_str` makes of a text: the identifier, or the text of the error.
pub uninterp spec fn parsed_guid(text: Seq<char>) -> Result<Uuid, Seq<char>>;

/// `Uuid::parse_str` returns the identifier that the text stands for, or an error if it
/// is not one of the accepted notations. The result depends on the text alone.
#[verifier::external_body]
pub(crate) fn parse_guid(text: &str) -> (result: Result<Uuid, String>)
    ensures
        match result {
            Ok(guid) => parsed_guid(text@) == Ok::<Uuid, Seq<char>>(guid),
            Err(message) => parsed_guid(text@) == Err::<Uuid, Seq<char>>(message@),
        },
{
    Uuid::parse_str(text).map_err(|err| err.to_string())
}

} // verus!
