//! Users and roles commands: the sort orders of role listings.
use vstd::prelude::*;

use crate::text::{owned, push_text};

verus! {

/// The sort orders of a role listing.
#[derive(Clone, Copy, Debug, PartialEq, Eq, Structural)]
pub enum RolesSort {
    NameAscending,
    NameDescending,
    ModifiedAtAscending,
    ModifiedAtDescending,
    UserCountAscending,
    UserCountDescending,
}

/// The sort order a `--sort` value names.
pub open spec fn roles_sort_of(s: Seq<char>) -> Option<RolesSort> {
    if s == "name"@ {
        Some(RolesSort::NameAscending)
    } else if s == "-name"@ {
        Some(RolesSort::NameDescending)
    } else if s == "modified_at"@ {
        Some(RolesSort::ModifiedAtAscending)
    } else if s == "-modified_at"@ {
        Some(RolesSort::ModifiedAtDescending)
    } else if s == "user_count"@ {
        Some(RolesSort::UserCountAscending)
    } else if s == "-user_count"@ {
        Some(RolesSort::UserCountDescending)
    } else {
        None
    }
}

/// Parses the `--sort` value of `roles list`.
pub fn parse_roles_sort(s: &str) -> (r: Result<RolesSort, String>)
    ensures
        match r {
            Ok(x) => roles_sort_of(s@) == Some(x),
            Err(e) => roles_sort_of(s@).is_none() && e@ == "invalid sort '"@ + s@
                + "': expected one of name, -name, modified_at, -modified_at, user_count, -user_count"@,
        },
{
    if crate::text::text_eq(s, "name") {
        Ok(RolesSort::NameAscending)
    } else if crate::text::text_eq(s, "-name") {
        Ok(RolesSort::NameDescending)
    } else if crate::text::text_eq(s, "modified_at") {
        Ok(RolesSort::ModifiedAtAscending)
    } else if crate::text::text_eq(s, "-modified_at") {
        Ok(RolesSort::ModifiedAtDescending)
    } else if crate::text::text_eq(s, "user_count") {
        Ok(RolesSort::UserCountAscending)
    } else if crate::text::text_eq(s, "-user_count") {
        Ok(RolesSort::UserCountDescending)
    } else {
        let mut e = owned("invalid sort '");
        push_text(&mut e, s);
        push_text(
            &mut e,
            "': expected one of name, -name, modified_at, -modified_at, user_count, -user_count",
        );
        Err(e)
    }
}

} // verus!
