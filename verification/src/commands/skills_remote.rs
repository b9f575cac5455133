//! Remote skills: the tag filter of the skill catalog, the query of a
//! skill fetch, the body of a session record and the optional credentials.
use vstd::prelude::*;

use crate::json::{
    data_items, entries_view, items_view, lemma_entries_view, lemma_items_view, lemma_object_view,
    member, retain_data, retain_data_flags, str_items, string_array, Json, JsonValue,
};
use crate::text::{
    decimal_int, i64_decimal, join, join_strs, owned, push_text, str_in, str_views, text_eq, trim,
    trim_str, views,
};

verus! {

/// The statuses a session can be recorded with.
pub const VALID_STATUSES: [&'static str; 4] = ["in_progress", "completed", "failed", "abandoned"];

/// The statuses that end a session; they need at least one skill id.
pub const TERMINAL_STATUSES: [&'static str; 3] = ["completed", "failed", "abandoned"];

/// The intents a skill can be fetched with.
pub const VALID_INTENTS: [&'static str; 3] = ["explore", "install", "reference"];

// ---------------------------------------------------------------------------
// Tag filter
// ---------------------------------------------------------------------------

/// A skill's tags (`attributes.tags`), where they are an array.
pub open spec fn skill_tags(item: Json) -> Option<Seq<Json>> {
    match member(member(item, "attributes"@), "tags"@) {
        Json::Array(ts) => Some(ts),
        _ => None,
    }
}

/// Whether a skill carries every wanted tag.
pub open spec fn skill_has_tags(item: Json, wanted: Seq<Seq<char>>) -> bool {
    match skill_tags(item) {
        Some(ts) => forall|w: int| 0 <= w < wanted.len() ==> ts.contains(Json::Str(#[trigger] wanted[w])),
        None => false,
    }
}

/// The test that keeps a skill carrying every wanted tag.
pub open spec fn has_tags(wanted: Seq<Seq<char>>) -> spec_fn(Json) -> bool {
    |item: Json| skill_has_tags(item, wanted)
}

/// Whether an array holds the string `w`.
fn array_has_str(ts: &Vec<JsonValue>, w: &str) -> (b: bool)
    ensures
        b == items_view(ts@).contains(Json::Str(w@)),
{
    proof {
        lemma_items_view(ts@);
    }
    let mut i: usize = 0;
    while i < ts.len()
        invariant
            i <= ts.len(),
            items_view(ts@).len() == ts.len(),
            forall|j: int| 0 <= j < ts.len() ==> #[trigger] items_view(ts@)[j] == ts@[j]@,
            forall|j: int| 0 <= j < i ==> items_view(ts@)[j] != Json::Str(w@),
        decreases ts.len() - i,
    {
        match ts[i].as_str() {
            Some(s) => {
                if text_eq(s.as_str(), w) {
                    assert(items_view(ts@)[i as int] == Json::Str(w@));
                    return true;
                }
            },
            None => {},
        }
        i = i + 1;
    }
    false
}

/// Whether a skill carries every wanted tag.
fn skill_matches(item: &JsonValue, wanted: &Vec<String>) -> (b: bool)
    ensures
        b == skill_has_tags(item@, views(wanted@)),
{
    let attrs = match item.get("attributes") {
        Some(a) => a,
        None => {
            return false;
        },
    };
    let tags = match attrs.get("tags") {
        Some(t) => t,
        None => {
            return false;
        },
    };
    let ts = match tags.as_array() {
        Some(ts) => ts,
        None => {
            return false;
        },
    };
    let ghost tv = items_view(ts@);
    assert(skill_tags(item@) == Some(tv));
    let mut i: usize = 0;
    while i < wanted.len()
        invariant
            i <= wanted.len(),
            tv == items_view(ts@),
            skill_tags(item@) == Some(tv),
            views(wanted@).len() == wanted.len(),
            forall|w: int| 0 <= w < i ==> tv.contains(Json::Str(#[trigger] views(wanted@)[w])),
        decreases wanted.len() - i,
    {
        if !array_has_str(ts, wanted[i].as_str()) {
            assert(views(wanted@)[i as int] == wanted@[i as int]@);
            return false;
        }
        assert(views(wanted@)[i as int] == wanted@[i as int]@);
        i = i + 1;
    }
    true
}

/// For each skill, whether it carries every wanted tag.
fn tag_flags(items: &Vec<JsonValue>, wanted: &Vec<String>) -> (f: Vec<bool>)
    ensures
        f.len() == items.len(),
        forall|i: int| 0 <= i < items.len() ==> f@[i] == skill_has_tags(#[trigger] items@[i]@, views(wanted@)),
{
    let mut f: Vec<bool> = Vec::new();
    let mut i: usize = 0;
    while i < items.len()
        invariant
            i <= items.len(),
            f.len() == i,
            forall|j: int| 0 <= j < i ==> f@[j] == skill_has_tags(#[trigger] items@[j]@, views(wanted@)),
        decreases items.len() - i,
    {
        f.push(skill_matches(&items[i], wanted));
        i = i + 1;
    }
    f
}

/// Keeps, in the `data` array of the skill catalog, only the skills whose
/// `attributes.tags` hold every one of `tags`; a skill without a tag array
/// is dropped.
pub fn filter_by_tags(doc: &mut JsonValue, tags: &Vec<String>)
    ensures
        final(doc)@ == retain_data(old(doc)@, has_tags(views(tags@))),
{
    let flags = match data_items(doc) {
        Some(items) => {
            proof {
                lemma_items_view(items@);
            }
            tag_flags(items, tags)
        },
        None => Vec::new(),
    };
    retain_data_flags(doc, &flags, Ghost(has_tags(views(tags@))));
}

// ---------------------------------------------------------------------------
// Skill fetch and session record
// ---------------------------------------------------------------------------

/// The views of query parameters or headers.
pub open spec fn pair_views(q: Seq<(String, String)>) -> Seq<(Seq<char>, Seq<char>)> {
    q.map_values(|p: (String, String)| (p.0@, p.1@))
}

/// The view of an optional text.
pub open spec fn opt_text(t: Option<&str>) -> Option<Seq<char>> {
    match t {
        Some(s) => Some(s@),
        None => None,
    }
}

/// The query of a skill fetch (intent, session, organization, then the
/// markdown format), or the error for an empty skill id or an unknown
/// intent.
pub open spec fn skill_query_spec(
    skill_id: Seq<char>,
    intent: Option<Seq<char>>,
    session_id: Option<Seq<char>>,
    org_id: Option<i64>,
) -> Result<Seq<(Seq<char>, Seq<char>)>, Seq<char>> {
    if trim(skill_id).len() == 0 {
        Err("skill_id must not be empty"@)
    } else if intent is Some && !str_views(VALID_INTENTS@).contains(intent->0) {
        Err(
            "invalid intent '"@ + intent->0 + "'; expected one of: "@ + join(str_views(VALID_INTENTS@), ", "@),
        )
    } else {
        let q0: Seq<(Seq<char>, Seq<char>)> = match intent {
            Some(i) => seq![("intent"@, i)],
            None => Seq::empty(),
        };
        let q1 = match session_id {
            Some(s) => q0.push(("onboarding_run_id"@, s)),
            None => q0,
        };
        let q2 = match org_id {
            Some(o) => q1.push(("org_id"@, decimal_int(o as int))),
            None => q1,
        };
        Ok(q2.push(("format"@, "md"@)))
    }
}

/// Checks the arguments of a skill fetch and builds its query.
pub fn skill_get_query(skill_id: &str, intent: Option<&str>, session_id: Option<&str>, org_id: Option<i64>) -> (r:
    Result<Vec<(String, String)>, String>)
    ensures
        match r {
            Ok(q) => skill_query_spec(skill_id@, opt_text(intent), opt_text(session_id), org_id) == Ok::<
                Seq<(Seq<char>, Seq<char>)>,
                Seq<char>,
            >(pair_views(q@)),
            Err(e) => skill_query_spec(skill_id@, opt_text(intent), opt_text(session_id), org_id) == Err::<
                Seq<(Seq<char>, Seq<char>)>,
                Seq<char>,
            >(e@),
        },
{
    let t = trim_str(skill_id);
    if t.as_str().is_empty() {
        return Err(owned("skill_id must not be empty"));
    }
    let mut q: Vec<(String, String)> = Vec::new();
    match intent {
        Some(i) => {
            if !str_in(i, &VALID_INTENTS) {
                let mut e = owned("invalid intent '");
                push_text(&mut e, i);
                push_text(&mut e, "'; expected one of: ");
                let listed = join_strs(&VALID_INTENTS, ", ");
                push_text(&mut e, listed.as_str());
                return Err(e);
            }
            q.push((owned("intent"), owned(i)));
        },
        None => {},
    }
    match session_id {
        Some(s) => {
            q.push((owned("onboarding_run_id"), owned(s)));
        },
        None => {},
    }
    match org_id {
        Some(o) => {
            q.push((owned("org_id"), i64_decimal(o)));
        },
        None => {},
    }
    q.push((owned("format"), owned("md")));
    let ghost expect = skill_query_spec(skill_id@, opt_text(intent), opt_text(session_id), org_id);
    assert(pair_views(q@) =~= expect->Ok_0);
    Ok(q)
}

/// Whether any id is empty once trimmed.
fn any_blank(ids: &Vec<String>) -> (b: bool)
    ensures
        b == exists|i: int| 0 <= i < ids.len() && trim(#[trigger] views(ids@)[i]).len() == 0,
{
    let mut i: usize = 0;
    while i < ids.len()
        invariant
            i <= ids.len(),
            views(ids@).len() == ids.len(),
            forall|j: int| 0 <= j < i ==> trim(#[trigger] views(ids@)[j]).len() != 0,
        decreases ids.len() - i,
    {
        let t = trim_str(ids[i].as_str());
        assert(views(ids@)[i as int] == ids@[i as int]@);
        if t.as_str().is_empty() {
            assert(trim(views(ids@)[i as int]).len() == 0);
            return true;
        }
        i = i + 1;
    }
    false
}

/// The body recording a session, or the error for an empty session id,
/// an unknown status, an empty skill id, or a finished session without
/// skills.
pub open spec fn session_body_spec(
    session_id: Seq<char>,
    skill_ids: Seq<Seq<char>>,
    summary: Seq<char>,
    status: Seq<char>,
) -> Result<Json, Seq<char>> {
    if trim(session_id).len() == 0 {
        Err("--session-id must not be empty"@)
    } else if !str_views(VALID_STATUSES@).contains(status) {
        Err(
            "invalid status '"@ + status + "'; expected one of: "@ + join(str_views(VALID_STATUSES@), ", "@),
        )
    } else if exists|i: int| 0 <= i < skill_ids.len() && trim(#[trigger] skill_ids[i]).len() == 0 {
        Err("--skill-id must not be empty"@)
    } else if str_views(TERMINAL_STATUSES@).contains(status) && skill_ids.len() == 0 {
        Err("at least one --skill-id is required when status is '"@ + status + "'"@)
    } else {
        Ok(
            Json::Object(
                seq![
                    (
                        "data"@,
                        Json::Object(
                            seq![
                                ("type"@, Json::Str("onboarding_session"@)),
                                ("id"@, Json::Str(session_id)),
                                (
                                    "attributes"@,
                                    Json::Object(
                                        seq![
                                            ("skill_ids"@, Json::Array(str_items(skill_ids))),
                                            ("summary"@, Json::Str(summary)),
                                            ("status"@, Json::Str(status)),
                                        ],
                                    ),
                                ),
                            ],
                        ),
                    ),
                ],
            ),
        )
    }
}

/// An object of the given entries.
fn object_of(e: Vec<(String, JsonValue)>) -> (r: JsonValue)
    ensures
        r@ == Json::Object(entries_view(e@)),
{
    proof {
        lemma_object_view(e);
    }
    JsonValue::Object(e)
}

/// Checks the arguments of a session record and builds its body.
pub fn session_body(session_id: &str, skill_ids: &Vec<String>, summary: &str, status: &str) -> (r: Result<
    JsonValue,
    String,
>)
    ensures
        match r {
            Ok(b) => session_body_spec(session_id@, views(skill_ids@), summary@, status@) == Ok::<Json, Seq<char>>(
                b@,
            ),
            Err(e) => session_body_spec(session_id@, views(skill_ids@), summary@, status@) == Err::<
                Json,
                Seq<char>,
            >(e@),
        },
{
    let t = trim_str(session_id);
    if t.as_str().is_empty() {
        return Err(owned("--session-id must not be empty"));
    }
    if !str_in(status, &VALID_STATUSES) {
        let mut e = owned("invalid status '");
        push_text(&mut e, status);
        push_text(&mut e, "'; expected one of: ");
        let listed = join_strs(&VALID_STATUSES, ", ");
        push_text(&mut e, listed.as_str());
        return Err(e);
    }
    if any_blank(skill_ids) {
        return Err(owned("--skill-id must not be empty"));
    }
    if str_in(status, &TERMINAL_STATUSES) && skill_ids.len() == 0 {
        let mut e = owned("at least one --skill-id is required when status is '");
        push_text(&mut e, status);
        push_text(&mut e, "'");
        return Err(e);
    }
    let mut attrs: Vec<(String, JsonValue)> = Vec::new();
    attrs.push((owned("skill_ids"), string_array(skill_ids)));
    attrs.push((owned("summary"), JsonValue::String(owned(summary))));
    attrs.push((owned("status"), JsonValue::String(owned(status))));
    proof {
        lemma_entries_view(attrs@);
    }
    let attrs_v = object_of(attrs);
    let mut data: Vec<(String, JsonValue)> = Vec::new();
    data.push((owned("type"), JsonValue::String(owned("onboarding_session"))));
    data.push((owned("id"), JsonValue::String(owned(session_id))));
    data.push((owned("attributes"), attrs_v));
    proof {
        lemma_entries_view(data@);
    }
    let data_v = object_of(data);
    let mut top: Vec<(String, JsonValue)> = Vec::new();
    top.push((owned("data"), data_v));
    proof {
        lemma_entries_view(top@);
    }
    let ghost expect = session_body_spec(session_id@, views(skill_ids@), summary@, status@)->Ok_0;
    assert(entries_view(attrs@) =~= expect->Object_0[0].1->Object_0[2].1->Object_0);
    assert(entries_view(data@) =~= expect->Object_0[0].1->Object_0);
    assert(entries_view(top@) =~= expect->Object_0);
    Ok(object_of(top))
}

// ---------------------------------------------------------------------------
// Credentials
// ---------------------------------------------------------------------------

/// The credential headers of a public request: a bearer token where there
/// is one, else the API and application keys where both are set, else
/// none.
pub open spec fn optional_auth_spec(
    access_token: Option<Seq<char>>,
    api_key: Option<Seq<char>>,
    app_key: Option<Seq<char>>,
) -> Seq<(Seq<char>, Seq<char>)> {
    match access_token {
        Some(t) => seq![("Authorization"@, "Bearer "@ + t)],
        None => match (api_key, app_key) {
            (Some(k), Some(a)) => seq![("DD-API-KEY"@, k), ("DD-APPLICATION-KEY"@, a)],
            _ => Seq::empty(),
        },
    }
}

/// The headers that attach the credentials in hand to a public request.
pub fn optional_auth_headers(access_token: Option<&str>, api_key: Option<&str>, app_key: Option<&str>) -> (r: Vec<
    (String, String),
>)
    ensures
        pair_views(r@) == optional_auth_spec(opt_text(access_token), opt_text(api_key), opt_text(app_key)),
{
    let mut h: Vec<(String, String)> = Vec::new();
    match access_token {
        Some(t) => {
            let mut v = owned("Bearer ");
            push_text(&mut v, t);
            h.push((owned("Authorization"), v));
        },
        None => match (api_key, app_key) {
            (Some(k), Some(a)) => {
                h.push((owned("DD-API-KEY"), owned(k)));
                h.push((owned("DD-APPLICATION-KEY"), owned(a)));
            },
            _ => {},
        },
    }
    assert(pair_views(h@) =~= optional_auth_spec(opt_text(access_token), opt_text(api_key), opt_text(app_key)));
    h
}

} // verus!
