//! On-call commands: team references, membership roles and sort orders,
//! page listing queries and the responder filter.
use vstd::prelude::*;

use crate::ident::{parse_uuid_text, uuid_parse};
use crate::json::{
    data_items, lemma_items_view, member, member_of, retain_data, retain_data_flags, Json, JsonValue,
};
use crate::text::{
    chars_eq, chars_of, debug_quoted, debug_text, decimal, owned, push_text, slice_chars, text_eq,
    to_lowercase, u64_decimal, unicode_lowercase,
};

verus! {

// ---------------------------------------------------------------------------
// Teams
// ---------------------------------------------------------------------------

/// Whether `s` is a UUID that the `uuid` crate accepts.
pub fn is_uuid(s: &str) -> (b: bool)
    ensures
        b == uuid_parse(s@) is Ok,
{
    parse_uuid_text(s).is_ok()
}

/// The ids of the teams whose handle equals `input`, ignoring case.
pub open spec fn exact_team_ids(teams: Seq<(Seq<char>, Seq<char>)>, input: Seq<char>) -> Seq<
    Seq<char>,
>
    decreases teams.len(),
{
    if teams.len() == 0 {
        Seq::empty()
    } else {
        let rest = exact_team_ids(teams.drop_last(), input);
        if unicode_lowercase(teams.last().1) == unicode_lowercase(input) {
            rest.push(teams.last().0)
        } else {
            rest
        }
    }
}

/// The team that a handle names among the teams a keyword search returned
/// (each an id and a handle): the one team whose handle matches exactly
/// (ignoring case), or the reason there is none.
pub open spec fn team_choice_spec(input: Seq<char>, teams: Option<Seq<(Seq<char>, Seq<char>)>>) -> Result<
    Seq<char>,
    Seq<char>,
> {
    match teams {
        None => Err("unexpected response from teams API: 'data' field missing"@),
        Some(ts) => {
            let exact = exact_team_ids(ts, input);
            if exact.len() == 1 {
                Ok(exact[0])
            } else if ts.len() == 0 {
                Err("no team with handle '"@ + input + "'"@)
            } else {
                Err(
                    "no exact handle match for '"@ + input + "' ("@ + decimal(ts.len()) + " candidates matched substring)"@,
                )
            }
        },
    }
}

/// Whether the handle of team `j` is `input`, ignoring case.
pub open spec fn handle_matches(teams: Seq<(Seq<char>, Seq<char>)>, input: Seq<char>, j: int) -> bool {
    unicode_lowercase(teams[j].1) == unicode_lowercase(input)
}

/// Team `j` is the one team whose handle is `input`, ignoring case.
pub open spec fn only_match(teams: Seq<(Seq<char>, Seq<char>)>, input: Seq<char>, j: int) -> bool {
    &&& 0 <= j < teams.len()
    &&& handle_matches(teams, input, j)
    &&& forall|k: int| 0 <= k < teams.len() && handle_matches(teams, input, k) ==> k == j
}

/// The exact-match ids: none exactly when no handle matches, and exactly one
/// when one team alone matches, that team's id.
proof fn lemma_exact_team_ids(teams: Seq<(Seq<char>, Seq<char>)>, input: Seq<char>)
    ensures
        exact_team_ids(teams, input).len() == 0 <==> forall|k: int|
            0 <= k < teams.len() ==> !handle_matches(teams, input, k),
        exact_team_ids(teams, input).len() == 1 <==> exists|j: int| only_match(teams, input, j),
        exact_team_ids(teams, input).len() == 1 ==> exists|j: int|
            only_match(teams, input, j) && teams[j].0 == exact_team_ids(teams, input)[0],
    decreases teams.len(),
{
    if teams.len() > 0 {
        let d = teams.drop_last();
        let n = teams.len() - 1;
        lemma_exact_team_ids(d, input);
        assert forall|k: int| 0 <= k < n implies handle_matches(teams, input, k) == handle_matches(d, input, k)
            && teams[k] == d[k] by {}
        let rest = exact_team_ids(d, input);
        if handle_matches(teams, input, n) {
            if rest.len() == 0 {
                assert forall|k: int| 0 <= k < teams.len() && handle_matches(teams, input, k) implies k == n by {
                    if k < n {
                        assert(handle_matches(d, input, k));
                    }
                }
                assert(only_match(teams, input, n));
            }
            if exists|j: int| only_match(teams, input, j) {
                let j = choose|j: int| only_match(teams, input, j);
                assert(j == n);
                assert forall|k: int| 0 <= k < d.len() implies !handle_matches(d, input, k) by {
                    if handle_matches(d, input, k) {
                        assert(handle_matches(teams, input, k));
                    }
                }
            }
        } else {
            assert((forall|k: int| 0 <= k < teams.len() ==> !handle_matches(teams, input, k)) <==> (forall|k: int|
                0 <= k < d.len() ==> !handle_matches(d, input, k))) by {
                if forall|k: int| 0 <= k < d.len() ==> !handle_matches(d, input, k) {
                    assert forall|k: int| 0 <= k < teams.len() implies !handle_matches(teams, input, k) by {
                        if k < n {
                            assert(!handle_matches(d, input, k));
                        }
                    }
                }
                if forall|k: int| 0 <= k < teams.len() ==> !handle_matches(teams, input, k) {
                    assert forall|k: int| 0 <= k < d.len() implies !handle_matches(d, input, k) by {
                        assert(!handle_matches(teams, input, k));
                    }
                }
            }
            if exists|j: int| only_match(d, input, j) {
                let j = choose|j: int| only_match(d, input, j);
                assert forall|k: int| 0 <= k < teams.len() && handle_matches(teams, input, k) implies k == j by {
                    if k < n {
                        assert(handle_matches(d, input, k));
                    }
                }
                assert(only_match(teams, input, j));
            }
            if exists|j: int| only_match(teams, input, j) {
                let j = choose|j: int| only_match(teams, input, j);
                assert(j != n);
                assert(handle_matches(d, input, j));
                assert forall|k: int| 0 <= k < d.len() && handle_matches(d, input, k) implies k == j by {
                    assert(handle_matches(teams, input, k));
                }
                assert(only_match(d, input, j));
            }
        }
    }
}

/// Only an exact handle match resolves a team: the team is found exactly
/// when one team alone has the handle given (ignoring case), and it is
/// that team's id; a handle that no team has, or that several share, is
/// refused, with the number of teams the search returned.
pub proof fn law_team_resolves_only_on_one_exact_handle(input: Seq<char>, teams: Seq<(Seq<char>, Seq<char>)>)
    ensures
        team_choice_spec(input, Some(teams)) is Ok <==> exists|j: int| only_match(teams, input, j),
        forall|id: Seq<char>|
            team_choice_spec(input, Some(teams)) == Ok::<Seq<char>, Seq<char>>(id) ==> exists|j: int|
                only_match(teams, input, j) && teams[j].0 == id,
        !(exists|j: int| only_match(teams, input, j)) && teams.len() > 0 ==> team_choice_spec(
            input,
            Some(teams),
        ) == Err::<Seq<char>, Seq<char>>(
            "no exact handle match for '"@ + input + "' ("@ + decimal(teams.len()) + " candidates matched substring)"@,
        ),
{
    lemma_exact_team_ids(teams, input);
}

/// The views of a list of (id, handle) pairs.
pub open spec fn pair_views(v: Seq<(String, String)>) -> Seq<(Seq<char>, Seq<char>)> {
    v.map_values(|p: (String, String)| (p.0@, p.1@))
}

/// The view of an optional list of (id, handle) pairs.
pub open spec fn teams_view(teams: Option<Vec<(String, String)>>) -> Option<Seq<(Seq<char>, Seq<char>)>> {
    match teams {
        Some(t) => Some(pair_views(t@)),
        None => None,
    }
}

/// Picks the team that a handle names from the result of a keyword search
/// over teams, given as (id, handle) pairs; `None` when the response had no
/// data. A handle that several teams share is refused like one that none has.
pub fn resolve_team_from_list(input: &str, teams: Option<Vec<(String, String)>>) -> (r: Result<
    String,
    String,
>)
    ensures
        match r {
            Ok(id) => team_choice_spec(input@, teams_view(teams))
                == Ok::<Seq<char>, Seq<char>>(id@),
            Err(e) => team_choice_spec(input@, teams_view(teams))
                == Err::<Seq<char>, Seq<char>>(e@),
        },
{
    let ts = match teams {
        None => {
            return Err(owned("unexpected response from teams API: 'data' field missing"));
        },
        Some(t) => t,
    };
    let ghost tv = pair_views(ts@);
    let wanted = to_lowercase(input);
    let mut exact: Vec<String> = Vec::new();
    let mut i: usize = 0;
    while i < ts.len()
        invariant
            i <= ts.len(),
            tv == pair_views(ts@),
            wanted@ == unicode_lowercase(input@),
            crate::text::views(exact@) == exact_team_ids(tv.subrange(0, i as int), input@),
        decreases ts.len() - i,
    {
        let handle = to_lowercase(ts[i].1.as_str());
        proof {
            assert(tv.subrange(0, i + 1).drop_last() =~= tv.subrange(0, i as int));
            assert(tv.subrange(0, i + 1).last() == tv[i as int]);
        }
        if text_eq(handle.as_str(), wanted.as_str()) {
            let ghost before = exact@;
            exact.push(ts[i].0.clone());
            assert(crate::text::views(exact@) =~= crate::text::views(before).push(ts@[i as int].0@));
        }
        i = i + 1;
    }
    assert(tv.subrange(0, ts.len() as int) =~= tv);
    if exact.len() == 1 {
        assert(exact@[0]@ == crate::text::views(exact@)[0]);
        return Ok(exact[0].clone());
    }
    if ts.len() == 0 {
        let mut e = owned("no team with handle '");
        push_text(&mut e, input);
        push_text(&mut e, "'");
        return Err(e);
    }
    let mut e = owned("no exact handle match for '");
    push_text(&mut e, input);
    push_text(&mut e, "' (");
    let n = u64_decimal(ts.len() as u64);
    push_text(&mut e, n.as_str());
    push_text(&mut e, " candidates matched substring)");
    Err(e)
}

/// The role of a member in a team.
#[derive(PartialEq, Eq, Structural, Clone, Copy, Debug)]
pub enum UserTeamRole {
    Admin,
}

/// The role that a `--role` value names (case ignored), or the error shown.
pub open spec fn team_role_spec(role: Seq<char>) -> Result<UserTeamRole, Seq<char>> {
    let lower = unicode_lowercase(role);
    if lower == "admin"@ {
        Ok(UserTeamRole::Admin)
    } else {
        Err("invalid --role value: "@ + debug_text(lower) + "\nExpected: admin"@)
    }
}

/// Parses a `--role` value.
pub fn parse_team_role(role: &str) -> (r: Result<UserTeamRole, String>)
    ensures
        match r {
            Ok(x) => team_role_spec(role@) == Ok::<UserTeamRole, Seq<char>>(x),
            Err(e) => team_role_spec(role@) == Err::<UserTeamRole, Seq<char>>(e@),
        },
{
    let lower = to_lowercase(role);
    if text_eq(lower.as_str(), "admin") {
        Ok(UserTeamRole::Admin)
    } else {
        let mut e = owned("invalid --role value: ");
        let q = debug_quoted(lower.as_str());
        push_text(&mut e, q.as_str());
        push_text(&mut e, "\nExpected: admin");
        Err(e)
    }
}

/// The sort orders of a team's membership listing.
#[derive(PartialEq, Eq, Structural, Clone, Copy, Debug)]
pub enum TeamMembershipsSort {
    ManagerName,
    ManagerNameDesc,
    Name,
    NameDesc,
    Handle,
    HandleDesc,
    Email,
    EmailDesc,
}

/// The membership sort order that a `--sort` value names, or the error shown.
pub open spec fn memberships_sort_spec(s: Seq<char>) -> Result<TeamMembershipsSort, Seq<char>> {
    if s == "manager_name"@ {
        Ok(TeamMembershipsSort::ManagerName)
    } else if s == "-manager_name"@ {
        Ok(TeamMembershipsSort::ManagerNameDesc)
    } else if s == "name"@ {
        Ok(TeamMembershipsSort::Name)
    } else if s == "-name"@ {
        Ok(TeamMembershipsSort::NameDesc)
    } else if s == "handle"@ {
        Ok(TeamMembershipsSort::Handle)
    } else if s == "-handle"@ {
        Ok(TeamMembershipsSort::HandleDesc)
    } else if s == "email"@ {
        Ok(TeamMembershipsSort::Email)
    } else if s == "-email"@ {
        Ok(TeamMembershipsSort::EmailDesc)
    } else {
        Err(
            "invalid --sort value: "@ + debug_text(s)
                + "\nExpected: name, -name, email, -email, handle, -handle, manager_name, -manager_name"@,
        )
    }
}

/// Parses the `--sort` value of a membership listing.
pub fn parse_memberships_sort(s: &str) -> (r: Result<TeamMembershipsSort, String>)
    ensures
        match r {
            Ok(x) => memberships_sort_spec(s@) == Ok::<TeamMembershipsSort, Seq<char>>(x),
            Err(e) => memberships_sort_spec(s@) == Err::<TeamMembershipsSort, Seq<char>>(e@),
        },
{
    if text_eq(s, "manager_name") {
        Ok(TeamMembershipsSort::ManagerName)
    } else if text_eq(s, "-manager_name") {
        Ok(TeamMembershipsSort::ManagerNameDesc)
    } else if text_eq(s, "name") {
        Ok(TeamMembershipsSort::Name)
    } else if text_eq(s, "-name") {
        Ok(TeamMembershipsSort::NameDesc)
    } else if text_eq(s, "handle") {
        Ok(TeamMembershipsSort::Handle)
    } else if text_eq(s, "-handle") {
        Ok(TeamMembershipsSort::HandleDesc)
    } else if text_eq(s, "email") {
        Ok(TeamMembershipsSort::Email)
    } else if text_eq(s, "-email") {
        Ok(TeamMembershipsSort::EmailDesc)
    } else {
        let mut e = owned("invalid --sort value: ");
        let q = debug_quoted(s);
        push_text(&mut e, q.as_str());
        push_text(
            &mut e,
            "\nExpected: name, -name, email, -email, handle, -handle, manager_name, -manager_name",
        );
        Err(e)
    }
}

// ---------------------------------------------------------------------------
// Pages
// ---------------------------------------------------------------------------

/// The fields by which pages can be sorted.
pub const PAGES_SORT_FIELDS: [&'static str; 4] = ["created_at", "priority", "status", "modified_at"];

/// The sort field and order (`ASC`, or `DESC` for a value that starts with
/// `-`) that a `--sort` value of the page listing names, or the error shown.
pub open spec fn pages_sort_spec(sort: Seq<char>) -> Result<(Seq<char>, Seq<char>), Seq<char>> {
    let desc = sort.len() > 0 && sort[0] == '-';
    let field = if desc {
        sort.drop_first()
    } else {
        sort
    };
    let order = if desc {
        "DESC"@
    } else {
        "ASC"@
    };
    if field == "created_at"@ || field == "priority"@ || field == "status"@ || field == "modified_at"@ {
        Ok((field, order))
    } else {
        Err(
            "invalid --sort value: "@ + debug_text(sort)
                + "\nExpected one of: created_at, priority, status, modified_at (prefix with - for descending)"@,
        )
    }
}

/// Every sort field is accepted, ascending as it is and descending with a
/// leading `-`.
pub proof fn law_pages_sort_accepts_fields(i: int)
    requires
        0 <= i < 4,
    ensures
        pages_sort_spec(crate::text::str_views(PAGES_SORT_FIELDS@)[i]) == Ok::<(Seq<char>, Seq<char>), Seq<char>>(
            (crate::text::str_views(PAGES_SORT_FIELDS@)[i], "ASC"@),
        ),
        pages_sort_spec(seq!['-'] + crate::text::str_views(PAGES_SORT_FIELDS@)[i]) == Ok::<
            (Seq<char>, Seq<char>),
            Seq<char>,
        >((crate::text::str_views(PAGES_SORT_FIELDS@)[i], "DESC"@)),
{
    reveal_strlit("created_at");
    reveal_strlit("priority");
    reveal_strlit("status");
    reveal_strlit("modified_at");
    let f = crate::text::str_views(PAGES_SORT_FIELDS@)[i];
    assert(PAGES_SORT_FIELDS@[i]@ == f);
    assert(f.len() > 0 && f[0] != '-');
    assert((seq!['-'] + f).drop_first() =~= f);
}

/// Parses the `--sort` value of the page listing into a field and an order.
pub fn pages_sort_params(sort: &str) -> (r: Result<(&'static str, &'static str), String>)
    ensures
        match r {
            Ok((f, o)) => pages_sort_spec(sort@) == Ok::<(Seq<char>, Seq<char>), Seq<char>>((f@, o@)),
            Err(e) => pages_sort_spec(sort@) == Err::<(Seq<char>, Seq<char>), Seq<char>>(e@),
        },
{
    let v = chars_of(sort);
    let desc = v.len() > 0 && v[0] == '-';
    let field = if desc {
        slice_chars(&v, 1, v.len())
    } else {
        slice_chars(&v, 0, v.len())
    };
    assert(v@.subrange(0, v.len() as int) =~= v@);
    assert(desc ==> v@.subrange(1, v.len() as int) =~= v@.drop_first());
    let order: &'static str = if desc {
        "DESC"
    } else {
        "ASC"
    };
    if chars_eq(&field, &chars_of("created_at")) {
        Ok(("created_at", order))
    } else if chars_eq(&field, &chars_of("priority")) {
        Ok(("priority", order))
    } else if chars_eq(&field, &chars_of("status")) {
        Ok(("status", order))
    } else if chars_eq(&field, &chars_of("modified_at")) {
        Ok(("modified_at", order))
    } else {
        let mut e = owned("invalid --sort value: ");
        let q = debug_quoted(sort);
        push_text(&mut e, q.as_str());
        push_text(
            &mut e,
            "\nExpected one of: created_at, priority, status, modified_at (prefix with - for descending)",
        );
        Err(e)
    }
}

/// The views of query parameters.
pub open spec fn query_views(q: Seq<(String, String)>) -> Seq<(Seq<char>, Seq<char>)> {
    q.map_values(|p: (String, String)| (p.0@, p.1@))
}

/// The query of a page listing: page size and number (0 read as 1), sort
/// field and order, and a team filter where a team is given; or the error
/// for a page size outside 1..=1000 or an unknown sort value.
pub open spec fn pages_query_spec(
    team: Option<Seq<char>>,
    page_size: u32,
    page_current: u32,
    sort: Seq<char>,
) -> Result<Seq<(Seq<char>, Seq<char>)>, Seq<char>> {
    if !(1 <= page_size <= 1000) {
        Err("invalid page_size: "@ + decimal(page_size as nat) + ". Expected a value from 1 to 1000"@)
    } else {
        match pages_sort_spec(sort) {
            Err(e) => Err(e),
            Ok((field, order)) => {
                let current: nat = if page_current == 0 {
                    1
                } else {
                    page_current as nat
                };
                let base = seq![
                    ("page[size]"@, decimal(page_size as nat)),
                    ("page[current]"@, decimal(current)),
                    ("sort[field]"@, field),
                    ("sort[order]"@, order),
                ];
                match team {
                    Some(t) => Ok(base.push(("filter"@, "team:"@ + t))),
                    None => Ok(base),
                }
            },
        }
    }
}

/// The view of an optional text.
pub open spec fn opt_text(t: Option<&str>) -> Option<Seq<char>> {
    match t {
        Some(s) => Some(s@),
        None => None,
    }
}

/// Builds the query parameters of a page listing.
pub fn pages_list_query(team: Option<&str>, page_size: u32, page_current: u32, sort: &str) -> (r:
    Result<Vec<(String, String)>, String>)
    ensures
        match r {
            Ok(q) => pages_query_spec(opt_text(team), page_size, page_current, sort@) == Ok::<
                Seq<(Seq<char>, Seq<char>)>,
                Seq<char>,
            >(query_views(q@)),
            Err(e) => pages_query_spec(opt_text(team), page_size, page_current, sort@) == Err::<
                Seq<(Seq<char>, Seq<char>)>,
                Seq<char>,
            >(e@),
        },
{
    if !(1 <= page_size && page_size <= 1000) {
        let mut e = owned("invalid page_size: ");
        let n = u64_decimal(page_size as u64);
        push_text(&mut e, n.as_str());
        push_text(&mut e, ". Expected a value from 1 to 1000");
        return Err(e);
    }
    let (field, order) = match pages_sort_params(sort) {
        Ok(p) => p,
        Err(e) => {
            return Err(e);
        },
    };
    let current: u32 = if page_current == 0 {
        1
    } else {
        page_current
    };
    let mut q: Vec<(String, String)> = Vec::new();
    q.push((owned("page[size]"), u64_decimal(page_size as u64)));
    q.push((owned("page[current]"), u64_decimal(current as u64)));
    q.push((owned("sort[field]"), owned(field)));
    q.push((owned("sort[order]"), owned(order)));
    match team {
        Some(t) => {
            let mut f = owned("team:");
            push_text(&mut f, t);
            q.push((owned("filter"), f));
        },
        None => {},
    }
    assert(query_views(q@) =~= match pages_query_spec(opt_text(team), page_size, page_current, sort@) {
        Ok(x) => x,
        Err(_) => Seq::empty(),
    });
    Ok(q)
}

/// The responder references of a page
/// (`relationships.responders.data`), where that is an array.
pub open spec fn responders_of(page: Json) -> Option<Seq<Json>> {
    match member(member(member(page, "relationships"@), "responders"@), "data"@) {
        Json::Array(items) => Some(items),
        _ => None,
    }
}

/// Whether one of a page's responder references has the id `responder`.
pub open spec fn page_has_responder_spec(page: Json, responder: Seq<char>) -> bool {
    match responders_of(page) {
        Some(refs) => exists|i: int|
            0 <= i < refs.len() && #[trigger] member(refs[i], "id"@) == Json::Str(responder),
        None => false,
    }
}

/// Whether an item's `id` is the text `id`.
fn id_is(item: &JsonValue, id: &str) -> (b: bool)
    ensures
        b == (member(item@, "id"@) == Json::Str(id@)),
{
    match item.get("id") {
        Some(v) => match v.as_str() {
            Some(s) => text_eq(s.as_str(), id),
            None => false,
        },
        None => false,
    }
}

/// Whether a page lists `responder` among its responders.
pub fn page_has_responder(page: &JsonValue, responder: &str) -> (b: bool)
    ensures
        b == page_has_responder_spec(page@, responder@),
{
    let rel = match member_of(page, "relationships") {
        Some(x) => x,
        None => {
            return false;
        },
    };
    let rsp = match member_of(rel, "responders") {
        Some(x) => x,
        None => {
            assert(member(Json::Null, "responders"@) == Json::Null);
            assert(member(Json::Null, "data"@) == Json::Null);
            return false;
        },
    };
    let data = match member_of(rsp, "data") {
        Some(x) => x,
        None => {
            assert(member(Json::Null, "data"@) == Json::Null);
            return false;
        },
    };
    let refs = match data.as_array() {
        Some(a) => a,
        None => {
            return false;
        },
    };
    let ghost rv = data@->Array_0;
    proof {
        crate::json::lemma_items_view(refs@);
    }
    assert(responders_of(page@) == Some(rv));
    let mut i: usize = 0;
    while i < refs.len()
        invariant
            i <= refs.len(),
            rv == crate::json::items_view(refs@),
            responders_of(page@) == Some(rv),
            rv.len() == refs.len(),
            forall|j: int| 0 <= j < refs.len() ==> #[trigger] rv[j] == refs@[j]@,
            forall|j: int| 0 <= j < i ==> member(#[trigger] rv[j], "id"@) != Json::Str(responder@),
        decreases refs.len() - i,
    {
        if id_is(&refs[i], responder) {
            assert(member(rv[i as int], "id"@) == Json::Str(responder@));
            return true;
        }
        i = i + 1;
    }
    false
}

/// The test that keeps a page listing `responder` among its responders.
pub open spec fn has_responder(responder: Seq<char>) -> spec_fn(Json) -> bool {
    |p: Json| page_has_responder_spec(p, responder)
}

/// For each page, whether it lists `responder`.
fn responder_flags(pages: &Vec<JsonValue>, responder: &str) -> (f: Vec<bool>)
    ensures
        f.len() == pages.len(),
        forall|i: int| 0 <= i < pages.len() ==> f@[i] == page_has_responder_spec(#[trigger] pages@[i]@, responder@),
{
    let mut f: Vec<bool> = Vec::new();
    let mut i: usize = 0;
    while i < pages.len()
        invariant
            i <= pages.len(),
            f.len() == i,
            forall|j: int| 0 <= j < i ==> f@[j] == page_has_responder_spec(#[trigger] pages@[j]@, responder@),
        decreases pages.len() - i,
    {
        f.push(page_has_responder(&pages[i], responder));
        i = i + 1;
    }
    f
}

/// Keeps, in the `data` array of a page listing, only the pages that list
/// `responder` among their responders.
pub fn filter_pages_by_responder(resp: &mut JsonValue, responder: &str)
    ensures
        final(resp)@ == retain_data(old(resp)@, has_responder(responder@)),
{
    let flags = match data_items(resp) {
        Some(pages) => {
            proof {
                lemma_items_view(pages@);
            }
            responder_flags(pages, responder)
        },
        None => Vec::new(),
    };
    retain_data_flags(resp, &flags, Ghost(has_responder(responder@)));
}

} // verus!
