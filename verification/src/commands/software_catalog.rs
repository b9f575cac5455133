//! Software catalog commands: the name filter of entity listings.
use vstd::prelude::*;

use crate::text::{contains_text, to_lowercase, unicode_lowercase, contains_seq};

verus! {

/// An entity matches a name filter when it has a name that contains the
/// filter, both taken in lowercase.
pub open spec fn entity_matches_spec(name: Option<Seq<char>>, pattern: Seq<char>) -> bool {
    match name {
        Some(n) => contains_seq(unicode_lowercase(n), unicode_lowercase(pattern)),
        None => false,
    }
}

/// Whether an entity named `name` (if it has a name) passes the filter
/// `pattern`, ignoring case.
pub fn entity_matches(name: Option<&str>, pattern: &str) -> (b: bool)
    ensures
        b == entity_matches_spec(
            match name {
                Some(n) => Some(n@),
                None => None,
            },
            pattern@,
        ),
{
    match name {
        Some(n) => {
            let ln = to_lowercase(n);
            let lp = to_lowercase(pattern);
            contains_text(ln.as_str(), lp.as_str())
        },
        None => false,
    }
}

} // verus!
