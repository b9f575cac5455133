//! Profiling commands: the query window, comma-separated arguments and the
//! request bodies built from them.
use vstd::prelude::*;

use crate::json::{entries_view, lemma_entries_view, lemma_object_view, str_items, string_array, Json, JsonValue};
use crate::text::{
    debug_quoted, debug_text, decimal, decimal_int, i64_decimal, owned, push_text, split_on,
    split_trimmed_nonempty, trimmed_nonempty, u64_decimal, views,
};

verus! {

// ---------------------------------------------------------------------------
// Time window
// ---------------------------------------------------------------------------

/// What `chrono::DateTime::from_timestamp_millis` followed by
/// `DateTime::to_rfc3339` gives for a count of milliseconds since the Unix
/// epoch: the RFC 3339 text of that UTC instant, or nothing when the count
/// is outside the range chrono represents.
pub uninterp spec fn rfc3339_from_millis(ms: i64) -> Option<Seq<char>>;

/// Formats a Unix timestamp in milliseconds as RFC 3339 with
/// `chrono::DateTime::from_timestamp_millis` and `DateTime::to_rfc3339`. The
/// contract claims only that the outcome is the one `rfc3339_from_millis`
/// names for the same count; the range and the text are chrono's.
#[verifier::external_body]
pub(crate) fn rfc3339_of_millis(ms: i64) -> (r: Option<String>)
    ensures
        match r {
            Some(s) => rfc3339_from_millis(ms) == Some(s@),
            None => rfc3339_from_millis(ms).is_none(),
        },
{
    match chrono::DateTime::from_timestamp_millis(ms) {
        Some(d) => Some(d.to_rfc3339()),
        None => None,
    }
}

/// The RFC 3339 bounds of a query window, from the parsed `--from` and
/// `--to` values (milliseconds, or the parser's error), or the error shown.
pub open spec fn window_spec(
    from: Seq<char>,
    to: Seq<char>,
    from_ms: Result<i64, Seq<char>>,
    to_ms: Result<i64, Seq<char>>,
) -> Result<(Seq<char>, Seq<char>), Seq<char>> {
    match from_ms {
        Err(e) => Err("invalid --from value: "@ + e),
        Ok(f) => match to_ms {
            Err(e) => Err("invalid --to value: "@ + e),
            Ok(t) => match rfc3339_from_millis(f) {
                None => Err(
                    "--from "@ + debug_text(from) + " resolved to "@ + decimal_int(f as int)
                        + " ms which is outside the representable date range"@,
                ),
                Some(fi) => match rfc3339_from_millis(t) {
                    None => Err(
                        "--to "@ + debug_text(to) + " resolved to "@ + decimal_int(t as int)
                            + " ms which is outside the representable date range"@,
                    ),
                    Some(ti) => Ok((fi, ti)),
                },
            },
        },
    }
}

/// The view of a parse outcome.
pub open spec fn outcome_view(r: Result<i64, String>) -> Result<i64, Seq<char>> {
    match r {
        Ok(x) => Ok(x),
        Err(e) => Err(e@),
    }
}

/// The out-of-range error of one bound.
fn out_of_range(flag: &str, value: &str, ms: i64) -> (e: String)
    ensures
        e@ == flag@ + " "@ + debug_text(value@) + " resolved to "@ + decimal_int(ms as int)
            + " ms which is outside the representable date range"@,
{
    let mut e = owned(flag);
    push_text(&mut e, " ");
    let q = debug_quoted(value);
    push_text(&mut e, q.as_str());
    push_text(&mut e, " resolved to ");
    let n = i64_decimal(ms);
    push_text(&mut e, n.as_str());
    push_text(&mut e, " ms which is outside the representable date range");
    e
}

/// Turns the parsed bounds of a query window (`--from` and `--to`, as
/// milliseconds since the epoch or the parser's error) into RFC 3339 texts.
pub fn parse_window(from: &str, to: &str, from_ms: Result<i64, String>, to_ms: Result<i64, String>) -> (r:
    Result<(String, String), String>)
    ensures
        match r {
            Ok((f, t)) => window_spec(from@, to@, outcome_view(from_ms), outcome_view(to_ms)) == Ok::<
                (Seq<char>, Seq<char>),
                Seq<char>,
            >((f@, t@)),
            Err(e) => window_spec(from@, to@, outcome_view(from_ms), outcome_view(to_ms)) == Err::<
                (Seq<char>, Seq<char>),
                Seq<char>,
            >(e@),
        },
{
    let f = match from_ms {
        Err(e) => {
            let mut m = owned("invalid --from value: ");
            push_text(&mut m, e.as_str());
            return Err(m);
        },
        Ok(f) => f,
    };
    let t = match to_ms {
        Err(e) => {
            let mut m = owned("invalid --to value: ");
            push_text(&mut m, e.as_str());
            return Err(m);
        },
        Ok(t) => t,
    };
    proof {
        reveal_strlit("--from");
        reveal_strlit("--to");
        reveal_strlit(" ");
        reveal_strlit("--from ");
        reveal_strlit("--to ");
    }
    let fi = match rfc3339_of_millis(f) {
        None => {
            let e = out_of_range("--from", from, f);
            assert("--from"@ + " "@ =~= "--from "@);
            return Err(e);
        },
        Some(s) => s,
    };
    let ti = match rfc3339_of_millis(t) {
        None => {
            let e = out_of_range("--to", to, t);
            assert("--to"@ + " "@ =~= "--to "@);
            return Err(e);
        },
        Some(s) => s,
    };
    Ok((fi, ti))
}

// ---------------------------------------------------------------------------
// Comma-separated arguments
// ---------------------------------------------------------------------------

/// The values of a comma-separated argument: none when it is absent, the
/// trimmed non-empty pieces otherwise, and an error when it is given but
/// has no such piece.
pub open spec fn csv_spec(flag: Seq<char>, value: Option<Seq<char>>) -> Result<Seq<Seq<char>>, Seq<char>> {
    match value {
        None => Ok(Seq::empty()),
        Some(raw) => {
            let parts = trimmed_nonempty(split_on(raw, ','));
            if parts.len() == 0 {
                Err(flag + " was provided but contained no non-empty values: "@ + debug_text(raw))
            } else {
                Ok(parts)
            }
        },
    }
}

/// The view of an optional string.
pub open spec fn opt_string(v: Option<String>) -> Option<Seq<char>> {
    match v {
        Some(s) => Some(s@),
        None => None,
    }
}

/// Splits a comma-separated argument into its trimmed, non-empty values.
pub fn split_csv(flag: &str, value: Option<String>) -> (r: Result<Vec<String>, String>)
    ensures
        match r {
            Ok(v) => csv_spec(flag@, opt_string(value)) == Ok::<Seq<Seq<char>>, Seq<char>>(views(v@)),
            Err(e) => csv_spec(flag@, opt_string(value)) == Err::<Seq<Seq<char>>, Seq<char>>(e@),
        },
{
    let raw = match value {
        None => {
            let v: Vec<String> = Vec::new();
            assert(views(v@) =~= Seq::<Seq<char>>::empty());
            return Ok(v);
        },
        Some(raw) => raw,
    };
    let parts = split_trimmed_nonempty(raw.as_str(), ',');
    if parts.len() == 0 {
        let mut e = owned(flag);
        push_text(&mut e, " was provided but contained no non-empty values: ");
        let q = debug_quoted(raw.as_str());
        push_text(&mut e, q.as_str());
        return Err(e);
    }
    Ok(parts)
}

// ---------------------------------------------------------------------------
// Request bodies
// ---------------------------------------------------------------------------

/// The filter of a profile query: its window and query text.
pub open spec fn filter_spec(query: Seq<char>, from_iso: Seq<char>, to_iso: Seq<char>) -> Json {
    Json::Object(
        seq![("from"@, Json::Str(from_iso)), ("to"@, Json::Str(to_iso)), ("query"@, Json::Str(query))],
    )
}

/// The entries of a filter.
fn filter_entries(query: &str, from_iso: &str, to_iso: &str) -> (r: JsonValue)
    ensures
        r@ == filter_spec(query@, from_iso@, to_iso@),
{
    let mut e: Vec<(String, JsonValue)> = Vec::new();
    e.push((owned("from"), JsonValue::String(owned(from_iso))));
    e.push((owned("to"), JsonValue::String(owned(to_iso))));
    e.push((owned("query"), JsonValue::String(owned(query))));
    proof {
        lemma_entries_view(e@);
        lemma_object_view(e);
    }
    assert(entries_view(e@) =~= filter_spec(query@, from_iso@, to_iso@)->Object_0);
    JsonValue::Object(e)
}

/// The body `{"filter": {...}}` of a profile query.
pub open spec fn filter_body_spec(query: Seq<char>, from_iso: Seq<char>, to_iso: Seq<char>) -> Json {
    Json::Object(seq![("filter"@, filter_spec(query, from_iso, to_iso))])
}

/// Builds the body of a profile query over a window given in RFC 3339.
pub fn filter_body(query: &str, from_iso: &str, to_iso: &str) -> (r: JsonValue)
    ensures
        r@ == filter_body_spec(query@, from_iso@, to_iso@),
{
    let mut e: Vec<(String, JsonValue)> = Vec::new();
    e.push((owned("filter"), filter_entries(query, from_iso, to_iso)));
    proof {
        lemma_entries_view(e@);
        lemma_object_view(e);
    }
    assert(entries_view(e@) =~= filter_body_spec(query@, from_iso@, to_iso@)->Object_0);
    JsonValue::Object(e)
}

/// The body of an analytics query: the filter, the limit, and the group-by
/// and compute lists where they are not empty.
pub open spec fn analytics_body_spec(
    query: Seq<char>,
    from_iso: Seq<char>,
    to_iso: Seq<char>,
    limit: u32,
    groups: Seq<Seq<char>>,
    computes: Seq<Seq<char>>,
) -> Json {
    let e0 = seq![
        ("filter"@, filter_spec(query, from_iso, to_iso)),
        ("limit"@, Json::Number(decimal(limit as nat))),
    ];
    let e1 = if groups.len() > 0 {
        e0.push(("groupBy"@, Json::Array(str_items(groups))))
    } else {
        e0
    };
    let e2 = if computes.len() > 0 {
        e1.push(("compute"@, Json::Array(str_items(computes))))
    } else {
        e1
    };
    Json::Object(e2)
}

/// The analytics body, or the error of a window bound or of a
/// comma-separated argument (group-by first, then compute).
pub open spec fn analytics_request_spec(
    query: Seq<char>,
    window: Result<(Seq<char>, Seq<char>), Seq<char>>,
    limit: u32,
    group_by: Option<Seq<char>>,
    compute: Option<Seq<char>>,
) -> Result<Json, Seq<char>> {
    match window {
        Err(e) => Err(e),
        Ok((f, t)) => match csv_spec("--group-by"@, group_by) {
            Err(e) => Err(e),
            Ok(g) => match csv_spec("--compute"@, compute) {
                Err(e) => Err(e),
                Ok(c) => Ok(analytics_body_spec(query, f, t, limit, g, c)),
            },
        },
    }
}

/// The view of a window outcome.
pub open spec fn window_view(w: Result<(String, String), String>) -> Result<(Seq<char>, Seq<char>), Seq<char>> {
    match w {
        Ok((f, t)) => Ok((f@, t@)),
        Err(e) => Err(e@),
    }
}

/// Builds the body of an analytics query from the outcome of
/// `parse_window` and the raw `--group-by` and `--compute` values.
pub fn analytics_body(
    query: &str,
    window: Result<(String, String), String>,
    limit: u32,
    group_by: Option<String>,
    compute: Option<String>,
) -> (r: Result<JsonValue, String>)
    ensures
        match r {
            Ok(b) => analytics_request_spec(query@, window_view(window), limit, opt_string(group_by), opt_string(compute))
                == Ok::<Json, Seq<char>>(b@),
            Err(e) => analytics_request_spec(query@, window_view(window), limit, opt_string(group_by), opt_string(compute))
                == Err::<Json, Seq<char>>(e@),
        },
{
    let (f, t) = match window {
        Err(e) => {
            return Err(e);
        },
        Ok(w) => w,
    };
    let groups = match split_csv("--group-by", group_by) {
        Err(e) => {
            return Err(e);
        },
        Ok(g) => g,
    };
    let computes = match split_csv("--compute", compute) {
        Err(e) => {
            return Err(e);
        },
        Ok(c) => c,
    };
    let mut e: Vec<(String, JsonValue)> = Vec::new();
    e.push((owned("filter"), filter_entries(query, f.as_str(), t.as_str())));
    e.push((owned("limit"), JsonValue::Number(u64_decimal(limit as u64))));
    let ghost e0 = e@;
    if groups.len() > 0 {
        e.push((owned("groupBy"), string_array(&groups)));
    }
    let ghost e1 = e@;
    if computes.len() > 0 {
        e.push((owned("compute"), string_array(&computes)));
    }
    proof {
        lemma_entries_view(e0);
        lemma_entries_view(e1);
        lemma_entries_view(e@);
        lemma_object_view(e);
        let spec_e = analytics_body_spec(query@, f@, t@, limit, views(groups@), views(computes@))->Object_0;
        assert(entries_view(e@) =~= spec_e);
    }
    Ok(JsonValue::Object(e))
}

/// A filter body with more entries after the filter.
pub open spec fn filter_body_with(
    query: Seq<char>,
    from_iso: Seq<char>,
    to_iso: Seq<char>,
    extra: Seq<(Seq<char>, Json)>,
) -> Json {
    Json::Object(seq![("filter"@, filter_spec(query, from_iso, to_iso))] + extra)
}

/// A filter body followed by the given entries.
fn filter_body_then(query: &str, from_iso: &str, to_iso: &str, extra: Vec<(String, JsonValue)>) -> (r: JsonValue)
    ensures
        r@ == filter_body_with(query@, from_iso@, to_iso@, entries_view(extra@)),
{
    let mut e: Vec<(String, JsonValue)> = Vec::new();
    e.push((owned("filter"), filter_entries(query, from_iso, to_iso)));
    let ghost head = e@;
    proof {
        lemma_entries_view(head);
        lemma_entries_view(extra@);
    }
    let mut extra = extra;
    let ghost xv = extra@;
    e.append(&mut extra);
    proof {
        lemma_entries_view(e@);
        lemma_object_view(e);
    }
    assert(e@ =~= head + xv);
    assert(entries_view(e@) =~= seq![("filter"@, filter_spec(query@, from_iso@, to_iso@))] + entries_view(xv));
    JsonValue::Object(e)
}

/// The body of a call-graph query: the filter, the profile type and the
/// limit.
pub fn callgraph_body(query: &str, from_iso: &str, to_iso: &str, profile_type: &str, limit: u32) -> (r: JsonValue)
    ensures
        r@ == filter_body_with(
            query@,
            from_iso@,
            to_iso@,
            seq![("profileType"@, Json::Str(profile_type@)), ("limit"@, Json::Number(decimal(limit as nat)))],
        ),
{
    let mut x: Vec<(String, JsonValue)> = Vec::new();
    x.push((owned("profileType"), JsonValue::String(owned(profile_type))));
    x.push((owned("limit"), JsonValue::Number(u64_decimal(limit as u64))));
    proof {
        lemma_entries_view(x@);
    }
    assert(entries_view(x@) =~= seq![
        ("profileType"@, Json::Str(profile_type@)),
        ("limit"@, Json::Number(decimal(limit as nat))),
    ]);
    filter_body_then(query, from_iso, to_iso, x)
}

/// The body of a field-values query: the filter, the field and the limit.
pub fn fields_body(query: &str, from_iso: &str, to_iso: &str, field: &str, limit: u32) -> (r: JsonValue)
    ensures
        r@ == filter_body_with(
            query@,
            from_iso@,
            to_iso@,
            seq![("fieldName"@, Json::Str(field@)), ("limit"@, Json::Number(decimal(limit as nat)))],
        ),
{
    let mut x: Vec<(String, JsonValue)> = Vec::new();
    x.push((owned("fieldName"), JsonValue::String(owned(field))));
    x.push((owned("limit"), JsonValue::Number(u64_decimal(limit as u64))));
    proof {
        lemma_entries_view(x@);
    }
    assert(entries_view(x@) =~= seq![("fieldName"@, Json::Str(field@)), ("limit"@, Json::Number(decimal(limit as nat)))]);
    filter_body_then(query, from_iso, to_iso, x)
}

/// The body saving a favorite query: the filter, its id and the limit.
pub fn save_favorite_body(query: &str, from_iso: &str, to_iso: &str, query_id: &str, limit: u32) -> (r: JsonValue)
    ensures
        r@ == filter_body_with(
            query@,
            from_iso@,
            to_iso@,
            seq![("queryId"@, Json::Str(query_id@)), ("limit"@, Json::Number(decimal(limit as nat)))],
        ),
{
    let mut x: Vec<(String, JsonValue)> = Vec::new();
    x.push((owned("queryId"), JsonValue::String(owned(query_id))));
    x.push((owned("limit"), JsonValue::Number(u64_decimal(limit as u64))));
    proof {
        lemma_entries_view(x@);
    }
    assert(entries_view(x@) =~= seq![("queryId"@, Json::Str(query_id@)), ("limit"@, Json::Number(decimal(limit as nat)))]);
    filter_body_then(query, from_iso, to_iso, x)
}

/// The body of a profile listing: the filter, the limit, and the sort
/// field with its order where a field is given.
pub fn list_body(query: &str, from_iso: &str, to_iso: &str, sort_field: Option<&str>, sort_order: &str, limit: u32) -> (r:
    JsonValue)
    ensures
        r@ == filter_body_with(
            query@,
            from_iso@,
            to_iso@,
            seq![("limit"@, Json::Number(decimal(limit as nat)))] + match sort_field {
                Some(f) => seq![
                    (
                        "sort"@,
                        Json::Object(seq![("field"@, Json::Str(f@)), ("order"@, Json::Str(sort_order@))]),
                    ),
                ],
                None => Seq::empty(),
            },
        ),
{
    let mut x: Vec<(String, JsonValue)> = Vec::new();
    x.push((owned("limit"), JsonValue::Number(u64_decimal(limit as u64))));
    match sort_field {
        Some(f) => {
            let mut so: Vec<(String, JsonValue)> = Vec::new();
            so.push((owned("field"), JsonValue::String(owned(f))));
            so.push((owned("order"), JsonValue::String(owned(sort_order))));
            proof {
                lemma_entries_view(so@);
                lemma_object_view(so);
            }
            assert(entries_view(so@) =~= seq![("field"@, Json::Str(f@)), ("order"@, Json::Str(sort_order@))]);
            x.push((owned("sort"), JsonValue::Object(so)));
        },
        None => {},
    }
    proof {
        lemma_entries_view(x@);
    }
    assert(entries_view(x@) =~= seq![("limit"@, Json::Number(decimal(limit as nat)))] + match sort_field {
        Some(f) => seq![
            ("sort"@, Json::Object(seq![("field"@, Json::Str(f@)), ("order"@, Json::Str(sort_order@))])),
        ],
        None => Seq::<(Seq<char>, Json)>::empty(),
    });
    filter_body_then(query, from_iso, to_iso, x)
}

/// The flat body of an aggregate query: the window and query are siblings
/// of the profile type, limit and aggregation.
pub fn aggregate_body(
    profile_type: &str,
    query: &str,
    from_iso: &str,
    to_iso: &str,
    limit: u32,
    aggregation_function: &str,
) -> (r: JsonValue)
    ensures
        r@ == Json::Object(
            seq![
                ("profileType"@, Json::Str(profile_type@)),
                ("query"@, Json::Str(query@)),
                ("from"@, Json::Str(from_iso@)),
                ("to"@, Json::Str(to_iso@)),
                ("limit"@, Json::Number(decimal(limit as nat))),
                ("aggregationFunction"@, Json::Str(aggregation_function@)),
            ],
        ),
{
    let mut e: Vec<(String, JsonValue)> = Vec::new();
    e.push((owned("profileType"), JsonValue::String(owned(profile_type))));
    e.push((owned("query"), JsonValue::String(owned(query))));
    e.push((owned("from"), JsonValue::String(owned(from_iso))));
    e.push((owned("to"), JsonValue::String(owned(to_iso))));
    e.push((owned("limit"), JsonValue::Number(u64_decimal(limit as u64))));
    e.push((owned("aggregationFunction"), JsonValue::String(owned(aggregation_function))));
    proof {
        lemma_entries_view(e@);
        lemma_object_view(e);
    }
    assert(entries_view(e@) =~= seq![
        ("profileType"@, Json::Str(profile_type@)),
        ("query"@, Json::Str(query@)),
        ("from"@, Json::Str(from_iso@)),
        ("to"@, Json::Str(to_iso@)),
        ("limit"@, Json::Number(decimal(limit as nat))),
        ("aggregationFunction"@, Json::Str(aggregation_function@)),
    ]);
    JsonValue::Object(e)
}

/// Whether a breakdown is filtered: the query, `--from` and `--to` are all
/// given, or all omitted; anything else is an error.
pub open spec fn breakdown_filter_spec(query: bool, from: bool, to: bool) -> Result<bool, Seq<char>> {
    if query && from && to {
        Ok(true)
    } else if !query && !from && !to {
        Ok(false)
    } else {
        Err("--query, --from, and --to must all be provided together, or all omitted"@)
    }
}

/// Decides whether a profile breakdown is filtered.
pub fn breakdown_filter(query: bool, from: bool, to: bool) -> (r: Result<bool, String>)
    ensures
        match r {
            Ok(b) => breakdown_filter_spec(query, from, to) == Ok::<bool, Seq<char>>(b),
            Err(e) => breakdown_filter_spec(query, from, to) == Err::<bool, Seq<char>>(e@),
        },
{
    if query && from && to {
        Ok(true)
    } else if !query && !from && !to {
        Ok(false)
    } else {
        Err(owned("--query, --from, and --to must all be provided together, or all omitted"))
    }
}

/// The body of a profile breakdown: the profile, and the filter where one
/// is given (query and RFC 3339 window).
pub fn breakdown_body(profile_id: &str, filter: Option<(&str, &str, &str)>) -> (r: JsonValue)
    ensures
        r@ == Json::Object(
            seq![("profileIds"@, Json::Array(seq![Json::Str(profile_id@)]))] + match filter {
                Some((q, f, t)) => seq![("filter"@, filter_spec(q@, f@, t@))],
                None => Seq::empty(),
            },
        ),
{
    let mut ids: Vec<JsonValue> = Vec::new();
    ids.push(JsonValue::String(owned(profile_id)));
    proof {
        crate::json::lemma_items_view(ids@);
        crate::json::lemma_array_view(ids);
    }
    assert(crate::json::items_view(ids@) =~= seq![Json::Str(profile_id@)]);
    let mut e: Vec<(String, JsonValue)> = Vec::new();
    e.push((owned("profileIds"), JsonValue::Array(ids)));
    match filter {
        Some((q, f, t)) => {
            e.push((owned("filter"), filter_entries(q, f, t)));
        },
        None => {},
    }
    proof {
        lemma_entries_view(e@);
        lemma_object_view(e);
    }
    assert(entries_view(e@) =~= seq![("profileIds"@, Json::Array(seq![Json::Str(profile_id@)]))] + match filter {
        Some((q, f, t)) => seq![("filter"@, filter_spec(q@, f@, t@))],
        None => Seq::<(Seq<char>, Json)>::empty(),
    });
    JsonValue::Object(e)
}

/// The body of a profile timeline: the profile and event ids, with an
/// empty archival context.
pub fn timeline_body(profile_id: &str, event_id: &str) -> (r: JsonValue)
    ensures
        r@ == Json::Object(
            seq![
                ("profile-ids"@, Json::Array(seq![Json::Str(profile_id@)])),
                ("event-ids"@, Json::Array(seq![Json::Str(event_id@)])),
                ("archivalContext"@, Json::Str(Seq::empty())),
            ],
        ),
{
    let mut p: Vec<JsonValue> = Vec::new();
    p.push(JsonValue::String(owned(profile_id)));
    let mut ev: Vec<JsonValue> = Vec::new();
    ev.push(JsonValue::String(owned(event_id)));
    proof {
        crate::json::lemma_items_view(p@);
        crate::json::lemma_items_view(ev@);
        crate::json::lemma_array_view(p);
        crate::json::lemma_array_view(ev);
    }
    assert(crate::json::items_view(p@) =~= seq![Json::Str(profile_id@)]);
    assert(crate::json::items_view(ev@) =~= seq![Json::Str(event_id@)]);
    let mut e: Vec<(String, JsonValue)> = Vec::new();
    e.push((owned("profile-ids"), JsonValue::Array(p)));
    e.push((owned("event-ids"), JsonValue::Array(ev)));
    e.push((owned("archivalContext"), JsonValue::String(String::new())));
    proof {
        lemma_entries_view(e@);
        lemma_object_view(e);
    }
    assert(entries_view(e@) =~= seq![
        ("profile-ids"@, Json::Array(seq![Json::Str(profile_id@)])),
        ("event-ids"@, Json::Array(seq![Json::Str(event_id@)])),
        ("archivalContext"@, Json::Str(Seq::empty())),
    ]);
    JsonValue::Object(e)
}

} // verus!
