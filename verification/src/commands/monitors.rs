//! Monitor commands: the page-size bound and the metadata of listings.
use vstd::prelude::*;

use crate::formatter::Metadata;
use crate::text::{decimal_int, i64_decimal, owned, push_text};

verus! {

/// A listing takes from 1 to 1000 monitors per page.
pub open spec fn list_limit_spec(limit: i32) -> Result<(), Seq<char>> {
    if 1 <= limit && limit <= 1000 {
        Ok(())
    } else {
        Err("--limit must be between 1 and 1000, got "@ + decimal_int(limit as int))
    }
}

/// Checks the `--limit` of a monitor listing.
pub fn check_list_limit(limit: i32) -> (r: Result<(), String>)
    ensures
        match r {
            Ok(_) => list_limit_spec(limit) == Ok::<(), Seq<char>>(()),
            Err(e) => list_limit_spec(limit) == Err::<(), Seq<char>>(e@),
        },
{
    if 1 <= limit && limit <= 1000 {
        Ok(())
    } else {
        let mut e = owned("--limit must be between 1 and 1000, got ");
        let n = i64_decimal(limit as i64);
        push_text(&mut e, n.as_str());
        Err(e)
    }
}

/// The message shown when a listing finds no monitor.
pub const NO_MONITORS_MESSAGE: &'static str = "No monitors found matching the specified criteria.";

/// The metadata of a monitor listing that found `count` monitors, or none
/// when it found none (the listing then only says so).
pub fn list_metadata(count: usize) -> (r: Option<Metadata>)
    ensures
        match r {
            Some(m) => {
                &&& count > 0
                &&& m.count == Some(count)
                &&& !m.truncated
                &&& m.command matches Some(c) && c@ == "monitors list"@
                &&& m.next_action.is_none()
            },
            None => count == 0,
        },
{
    if count == 0 {
        return None;
    }
    Some(Metadata { count: Some(count), truncated: false, command: Some(owned("monitors list")), next_action: None })
}

/// The metadata of a single monitor.
pub fn get_metadata() -> (m: Metadata)
    ensures
        m.count.is_none(),
        !m.truncated,
        m.command matches Some(c) && c@ == "monitors get"@,
        m.next_action.is_none(),
{
    Metadata { count: None, truncated: false, command: Some(owned("monitors get")), next_action: None }
}

} // verus!
