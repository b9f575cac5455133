//! Organization group commands: UUID arguments and sort orders.
use vstd::prelude::*;

use crate::ident::{parse_uuid_text, uuid_parse};
use crate::text::{owned, push_text, text_eq};

verus! {

/// The UUID that an argument holds, or the error naming the argument.
pub open spec fn uuid_arg_spec(label: Seq<char>, value: Seq<char>) -> Result<u128, Seq<char>> {
    match uuid_parse(value) {
        Ok(u) => Ok(u),
        Err(e) => Err("invalid "@ + label + " '"@ + value + "': "@ + e),
    }
}

/// Parses the UUID argument `value`; `label` names the argument in the error.
pub fn parse_uuid(label: &str, value: &str) -> (r: Result<u128, String>)
    ensures
        match r {
            Ok(u) => uuid_arg_spec(label@, value@) == Ok::<u128, Seq<char>>(u),
            Err(e) => uuid_arg_spec(label@, value@) == Err::<u128, Seq<char>>(e@),
        },
{
    match parse_uuid_text(value) {
        Ok(u) => Ok(u),
        Err(cause) => {
            let mut e = owned("invalid ");
            push_text(&mut e, label);
            push_text(&mut e, " '");
            push_text(&mut e, value);
            push_text(&mut e, "': ");
            push_text(&mut e, cause.as_str());
            Err(e)
        },
    }
}

/// The sort orders of a policy listing.
#[derive(PartialEq, Eq, Structural, Clone, Copy, Debug)]
pub enum OrgGroupPolicySortOption {
    Id,
    IdDesc,
    Name,
    NameDesc,
}

/// The policy sort order that a `--sort` value names, or the error shown.
pub open spec fn policy_sort_spec(s: Seq<char>) -> Result<OrgGroupPolicySortOption, Seq<char>> {
    if s == "id"@ {
        Ok(OrgGroupPolicySortOption::Id)
    } else if s == "-id"@ {
        Ok(OrgGroupPolicySortOption::IdDesc)
    } else if s == "name"@ {
        Ok(OrgGroupPolicySortOption::Name)
    } else if s == "-name"@ {
        Ok(OrgGroupPolicySortOption::NameDesc)
    } else {
        Err("invalid sort '"@ + s + "' — use one of: id, -id, name, -name"@)
    }
}

/// Parses the `--sort` value of a policy listing.
pub fn parse_policy_sort(s: &str) -> (r: Result<OrgGroupPolicySortOption, String>)
    ensures
        match r {
            Ok(x) => policy_sort_spec(s@) == Ok::<OrgGroupPolicySortOption, Seq<char>>(x),
            Err(e) => policy_sort_spec(s@) == Err::<OrgGroupPolicySortOption, Seq<char>>(e@),
        },
{
    if text_eq(s, "id") {
        Ok(OrgGroupPolicySortOption::Id)
    } else if text_eq(s, "-id") {
        Ok(OrgGroupPolicySortOption::IdDesc)
    } else if text_eq(s, "name") {
        Ok(OrgGroupPolicySortOption::Name)
    } else if text_eq(s, "-name") {
        Ok(OrgGroupPolicySortOption::NameDesc)
    } else {
        let mut e = owned("invalid sort '");
        push_text(&mut e, s);
        push_text(&mut e, "' — use one of: id, -id, name, -name");
        Err(e)
    }
}

/// The sort orders of a policy-override listing.
#[derive(PartialEq, Eq, Structural, Clone, Copy, Debug)]
pub enum OrgGroupPolicyOverrideSortOption {
    Id,
    IdDesc,
    OrgUuid,
    OrgUuidDesc,
}

/// The override sort order that a `--sort` value names, or the error shown.
pub open spec fn override_sort_spec(s: Seq<char>) -> Result<OrgGroupPolicyOverrideSortOption, Seq<char>> {
    if s == "id"@ {
        Ok(OrgGroupPolicyOverrideSortOption::Id)
    } else if s == "-id"@ {
        Ok(OrgGroupPolicyOverrideSortOption::IdDesc)
    } else if s == "org_uuid"@ {
        Ok(OrgGroupPolicyOverrideSortOption::OrgUuid)
    } else if s == "-org_uuid"@ {
        Ok(OrgGroupPolicyOverrideSortOption::OrgUuidDesc)
    } else {
        Err("invalid sort '"@ + s + "' — use one of: id, -id, org_uuid, -org_uuid"@)
    }
}

/// Parses the `--sort` value of a policy-override listing.
pub fn parse_override_sort(s: &str) -> (r: Result<OrgGroupPolicyOverrideSortOption, String>)
    ensures
        match r {
            Ok(x) => override_sort_spec(s@) == Ok::<OrgGroupPolicyOverrideSortOption, Seq<char>>(x),
            Err(e) => override_sort_spec(s@) == Err::<OrgGroupPolicyOverrideSortOption, Seq<char>>(e@),
        },
{
    if text_eq(s, "id") {
        Ok(OrgGroupPolicyOverrideSortOption::Id)
    } else if text_eq(s, "-id") {
        Ok(OrgGroupPolicyOverrideSortOption::IdDesc)
    } else if text_eq(s, "org_uuid") {
        Ok(OrgGroupPolicyOverrideSortOption::OrgUuid)
    } else if text_eq(s, "-org_uuid") {
        Ok(OrgGroupPolicyOverrideSortOption::OrgUuidDesc)
    } else {
        let mut e = owned("invalid sort '");
        push_text(&mut e, s);
        push_text(&mut e, "' — use one of: id, -id, org_uuid, -org_uuid");
        Err(e)
    }
}

} // verus!
