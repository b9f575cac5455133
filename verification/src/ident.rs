//! Identifiers written as text: UUIDs, read by the `uuid` crate.
use vstd::prelude::*;

verus! {

/// What `uuid::Uuid::parse_str` gives for a text: the UUID as a 128-bit
/// number (`Uuid::as_u128`), or the text of its error.
pub uninterp spec fn uuid_parse(s: Seq<char>) -> Result<u128, Seq<char>>;

/// Parses a UUID with `uuid::Uuid::parse_str` (simple, hyphenated, braced or
/// URN form). The contract claims only that the outcome is the one that
/// `uuid_parse` names for the same text; which texts are accepted is left
/// to the `uuid` crate.
#[verifier::external_body]
pub(crate) fn parse_uuid_text(s: &str) -> (r: Result<u128, String>)
    ensures
        match r {
            Ok(u) => uuid_parse(s@) == Ok::<u128, Seq<char>>(u),
            Err(e) => uuid_parse(s@) == Err::<u128, Seq<char>>(e@),
        },
{
    match uuid::Uuid::parse_str(s) {
        Ok(u) => Ok(u.as_u128()),
        Err(e) => Err(e.to_string()),
    }
}

} // verus!
