//! RUM commands: the `--compute` grammar of aggregations and the body of an
//! aggregate query.
use vstd::prelude::*;

use crate::commands::logs::{split_compute_args, split_compute_spec};
use crate::json::{entries_view, items_view, lemma_entries_view, lemma_items_view, Json, JsonValue};
use crate::text::{
    chars_of, decimal, debug_quoted, debug_text, first_char_index, first_index, owned, parse_u32, parse_u32_spec,
    push_text, slice_chars, string_from_chars, trim, trim_chars, trim_end_by, trim_end_char,
    u64_decimal,
};

verus! {

/// Arguments of `rum aggregate`.
pub struct RumAggregateArgs {
    pub query: String,
    pub from: String,
    pub to: String,
    pub compute: Vec<String>,
    pub group_by: Vec<String>,
    pub limit: i32,
}

/// The aggregation names a percentile maps to.
pub open spec fn percentile_name(p: u32) -> Option<Seq<char>> {
    if p == 75 {
        Some("pc75"@)
    } else if p == 90 {
        Some("pc90"@)
    } else if p == 95 {
        Some("pc95"@)
    } else if p == 98 {
        Some("pc98"@)
    } else if p == 99 {
        Some("pc99"@)
    } else {
        None
    }
}

/// The supported percentiles are 75, 90, 95, 98 and 99, and percentile `N`
/// names the aggregation `pc` followed by the decimal digits of `N`.
pub proof fn law_percentile_names(p: u32)
    ensures
        percentile_name(p) is Some <==> (p == 75 || p == 90 || p == 95 || p == 98 || p == 99),
        percentile_name(p) is Some ==> percentile_name(p)->0 == "pc"@ + decimal(p as nat),
{
    reveal_strlit("pc");
    reveal_strlit("pc75");
    reveal_strlit("pc90");
    reveal_strlit("pc95");
    reveal_strlit("pc98");
    reveal_strlit("pc99");
    reveal_with_fuel(decimal, 3);
    if p == 75 {
        assert("pc75"@ =~= "pc"@ + decimal(75));
    } else if p == 90 {
        assert("pc90"@ =~= "pc"@ + decimal(90));
    } else if p == 95 {
        assert("pc95"@ =~= "pc"@ + decimal(95));
    } else if p == 98 {
        assert("pc98"@ =~= "pc"@ + decimal(98));
    } else if p == 99 {
        assert("pc99"@ =~= "pc"@ + decimal(99));
    }
}

/// The functions that take a field argument.
pub open spec fn is_field_function(f: Seq<char>) -> bool {
    f == "avg"@ || f == "sum"@ || f == "min"@ || f == "max"@ || f == "median"@ || f
        == "cardinality"@
}

/// The result of parsing a `--compute` expression: an aggregation name and
/// the metric it applies to, or the error message.
///
/// `count` stands alone; `avg`, `sum`, `min`, `max`, `median` and
/// `cardinality` take a field, `fn(@field)`; `percentile(@field, N)` takes a
/// field and one of 75, 90, 95, 98, 99 and names the aggregation `pcN`.
pub open spec fn parse_compute_spec(input: Seq<char>) -> Result<(Seq<char>, Option<Seq<char>>), Seq<char>> {
    let t = trim(input);
    if t.len() == 0 {
        Err("--compute is required"@)
    } else if t == "count"@ {
        Ok(("count"@, None))
    } else if t.contains('(') {
        let p = first_index(t, '(');
        let func = t.subrange(0, p);
        let rest = trim(trim_end_by(t.subrange(p + 1, t.len() as int), |x: char| x == ')'));
        if func == "percentile"@ {
            if !rest.contains(',') {
                Err("percentile requires field and value: percentile(@duration, 99)"@)
            } else {
                let q = first_index(rest, ',');
                let metric = trim(rest.subrange(0, q));
                let pv = trim(rest.subrange(q + 1, rest.len() as int));
                match parse_u32_spec(pv) {
                    None => Err("invalid percentile value: "@ + pv),
                    Some(n) => match percentile_name(n) {
                        Some(name) => Ok((name, Some(metric))),
                        None => Err(
                            "unsupported percentile: "@ + decimal(n as nat)
                                + " (supported: 75, 90, 95, 98, 99)"@,
                        ),
                    },
                }
            }
        } else if is_field_function(func) {
            Ok((func, Some(rest)))
        } else if func == "count"@ {
            Err("count does not accept a field argument; use just 'count'"@)
        } else {
            Err("unknown aggregation function: "@ + func)
        }
    } else {
        Err(
            "invalid --compute format: "@ + debug_text(t)
                + "\nExpected: count, avg(@duration), sum(@duration), percentile(@duration, 99), etc."@,
        )
    }
}

/// Parses a `--compute` expression into an aggregation name and an optional
/// metric.
pub fn parse_rum_compute(input: &str) -> (r: Result<(String, Option<String>), String>)
    ensures
        match (r, parse_compute_spec(input@)) {
            (Ok((a, m)), Ok((sa, sm))) => a@ == sa && match (m, sm) {
                (Some(x), Some(y)) => x@ == y,
                (None, None) => true,
                _ => false,
            },
            (Err(e), Err(se)) => e@ == se,
            _ => false,
        },
{
    let raw = chars_of(input);
    let t = trim_chars(&raw);
    let ts = string_from_chars(&t);
    proof {
        reveal_strlit("--compute is required");
        reveal_strlit("count");
        reveal_strlit("percentile");
    }
    if t.len() == 0 {
        return Err(owned("--compute is required"));
    }
    if crate::text::text_eq(ts.as_str(), "count") {
        return Ok((owned("count"), None));
    }
    match first_char_index(&t, '(') {
        Some(p) => {
            let func_v = slice_chars(&t, 0, p);
            let after = slice_chars(&t, p + 1, t.len());
            let stripped = trim_end_char(&after, ')');
            let rest_v = trim_chars(&stripped);
            let func = string_from_chars(&func_v);
            let rest = string_from_chars(&rest_v);
            if crate::text::text_eq(func.as_str(), "percentile") {
                match first_char_index(&rest_v, ',') {
                    None => Err(owned("percentile requires field and value: percentile(@duration, 99)")),
                    Some(q) => {
                        let mv = slice_chars(&rest_v, 0, q);
                        let metric_v = trim_chars(&mv);
                        let pvv = slice_chars(&rest_v, q + 1, rest_v.len());
                        let pv_v = trim_chars(&pvv);
                        let pv = string_from_chars(&pv_v);
                        match parse_u32(pv.as_str()) {
                            None => {
                                let mut e = owned("invalid percentile value: ");
                                push_text(&mut e, pv.as_str());
                                Err(e)
                            },
                            Some(n) => {
                                let name = if n == 75 {
                                    Some("pc75")
                                } else if n == 90 {
                                    Some("pc90")
                                } else if n == 95 {
                                    Some("pc95")
                                } else if n == 98 {
                                    Some("pc98")
                                } else if n == 99 {
                                    Some("pc99")
                                } else {
                                    None
                                };
                                match name {
                                    Some(nm) => Ok((owned(nm), Some(string_from_chars(&metric_v)))),
                                    None => {
                                        let mut e = owned("unsupported percentile: ");
                                        let d = u64_decimal(n as u64);
                                        push_text(&mut e, d.as_str());
                                        push_text(&mut e, " (supported: 75, 90, 95, 98, 99)");
                                        Err(e)
                                    },
                                }
                            },
                        }
                    },
                }
            } else if crate::text::text_eq(func.as_str(), "avg") || crate::text::text_eq(
                func.as_str(),
                "sum",
            ) || crate::text::text_eq(func.as_str(), "min") || crate::text::text_eq(
                func.as_str(),
                "max",
            ) || crate::text::text_eq(func.as_str(), "median") || crate::text::text_eq(
                func.as_str(),
                "cardinality",
            ) {
                Ok((func, Some(rest)))
            } else if crate::text::text_eq(func.as_str(), "count") {
                Err(owned("count does not accept a field argument; use just 'count'"))
            } else {
                let mut e = owned("unknown aggregation function: ");
                push_text(&mut e, func.as_str());
                Err(e)
            }
        },
        None => {
            let mut e = owned("invalid --compute format: ");
            let d = debug_quoted(ts.as_str());
            push_text(&mut e, d.as_str());
            push_text(
                &mut e,
                "\nExpected: count, avg(@duration), sum(@duration), percentile(@duration, 99), etc.",
            );
            Err(e)
        },
    }
}

/// Splits a comma-separated compute string, respecting parentheses.
pub fn split_rum_compute_args(input: &str) -> (r: Vec<String>)
    ensures
        crate::text::views(r@) == split_compute_spec(input@),
{
    split_compute_args(input)
}

/// The computes of an aggregate query: `count` when none is given.
pub open spec fn rum_computes(compute: Seq<Seq<char>>) -> Seq<Seq<char>> {
    if compute.len() == 0 {
        seq!["count"@]
    } else {
        compute
    }
}

/// One compute of a RUM aggregate query: a total of the aggregation,
/// over the metric where there is one.
pub open spec fn rum_compute_object(agg: Seq<char>, metric: Option<Seq<char>>) -> Json {
    Json::Object(
        seq![("type"@, Json::Str("total"@)), ("aggregation"@, Json::Str(agg))] + match metric {
            Some(m) => seq![("metric"@, Json::Str(m))],
            None => Seq::empty(),
        },
    )
}

/// The computes, in order, or the error of the first invalid one.
pub open spec fn rum_compute_objects(cs: Seq<Seq<char>>) -> Result<Seq<Json>, Seq<char>>
    decreases cs.len(),
{
    if cs.len() == 0 {
        Ok(Seq::empty())
    } else {
        match rum_compute_objects(cs.drop_last()) {
            Err(e) => Err(e),
            Ok(prev) => match parse_compute_spec(cs.last()) {
                Err(e) => Err(e),
                Ok((a, m)) => Ok(prev.push(rum_compute_object(a, m))),
            },
        }
    }
}

/// One group-by of a RUM aggregate query, with the limit where it is
/// positive.
pub open spec fn rum_group_object(facet: Seq<char>, limit: i32) -> Json {
    Json::Object(
        seq![("facet"@, Json::Str(facet))] + if limit > 0 {
            seq![("limit"@, Json::Number(crate::text::decimal_int(limit as int)))]
        } else {
            Seq::empty()
        },
    )
}

/// The body of a RUM aggregate query over a window in milliseconds, or the
/// error of its first invalid compute.
pub open spec fn rum_body_spec(
    query: Seq<char>,
    from_ms: i64,
    to_ms: i64,
    compute: Seq<Seq<char>>,
    group_by: Seq<Seq<char>>,
    limit: i32,
) -> Result<Json, Seq<char>> {
    match rum_compute_objects(rum_computes(compute)) {
        Err(e) => Err(e),
        Ok(cs) => {
            let filter = Json::Object(
                seq![
                    ("query"@, Json::Str(query)),
                    ("from"@, Json::Str(crate::text::decimal_int(from_ms as int))),
                    ("to"@, Json::Str(crate::text::decimal_int(to_ms as int))),
                ],
            );
            let base = seq![("filter"@, filter), ("compute"@, Json::Array(cs))];
            if group_by.len() == 0 {
                Ok(Json::Object(base))
            } else {
                Ok(
                    Json::Object(
                        base.push(
                            (
                                "group_by"@,
                                Json::Array(group_by.map_values(|f: Seq<char>| rum_group_object(f, limit))),
                            ),
                        ),
                    ),
                )
            }
        },
    }
}

/// An error for a prefix of the computes is the error for all of them.
proof fn lemma_rum_computes_err(cs: Seq<Seq<char>>, n: int)
    requires
        0 <= n <= cs.len(),
        rum_compute_objects(cs.subrange(0, n)) is Err,
    ensures
        rum_compute_objects(cs) == rum_compute_objects(cs.subrange(0, n)),
    decreases cs.len(),
{
    if n == cs.len() {
        assert(cs.subrange(0, n) =~= cs);
    } else {
        assert(cs.drop_last().subrange(0, n) =~= cs.subrange(0, n));
        lemma_rum_computes_err(cs.drop_last(), n);
    }
}

/// An object of the given entries.
fn object_of(e: Vec<(String, JsonValue)>) -> (r: JsonValue)
    ensures
        r@ == Json::Object(entries_view(e@)),
{
    proof {
        crate::json::lemma_object_view(e);
    }
    JsonValue::Object(e)
}

/// One compute object.
fn rum_compute_json(agg: String, metric: Option<String>) -> (r: JsonValue)
    ensures
        r@ == rum_compute_object(agg@, crate::commands::logs::opt_text(metric)),
{
    let mut e: Vec<(String, JsonValue)> = Vec::new();
    e.push((owned("type"), JsonValue::String(owned("total"))));
    e.push((owned("aggregation"), JsonValue::String(agg)));
    let ghost m_view = crate::commands::logs::opt_text(metric);
    if let Some(m) = metric {
        e.push((owned("metric"), JsonValue::String(m)));
    }
    proof {
        lemma_entries_view(e@);
    }
    let r = object_of(e);
    assert(r@->Object_0 =~= rum_compute_object(agg@, m_view)->Object_0);
    r
}

/// One group-by object.
fn rum_group_json(facet: &String, limit: i32) -> (r: JsonValue)
    ensures
        r@ == rum_group_object(facet@, limit),
{
    let mut e: Vec<(String, JsonValue)> = Vec::new();
    e.push((owned("facet"), JsonValue::String(facet.clone())));
    if limit > 0 {
        e.push((owned("limit"), JsonValue::Number(crate::text::i64_decimal(limit as i64))));
    }
    proof {
        lemma_entries_view(e@);
    }
    let r = object_of(e);
    assert(r@->Object_0 =~= rum_group_object(facet@, limit)->Object_0);
    r
}

/// The compute list, `count` where none is given.
fn rum_compute_texts(compute: &Vec<String>) -> (r: Vec<String>)
    ensures
        crate::text::views(r@) == rum_computes(crate::text::views(compute@)),
{
    let mut computes: Vec<String> = Vec::new();
    if compute.len() == 0 {
        computes.push(owned("count"));
        assert(crate::text::views(computes@) =~= seq!["count"@]);
    } else {
        let mut k: usize = 0;
        while k < compute.len()
            invariant
                k <= compute.len(),
                crate::text::views(computes@) == crate::text::views(compute@.subrange(0, k as int)),
            decreases compute.len() - k,
        {
            let ghost before = computes@;
            computes.push(compute[k].clone());
            assert(crate::text::views(compute@.subrange(0, k + 1)) =~= crate::text::views(before).push(
                compute@[k as int]@,
            ));
            assert(crate::text::views(computes@) =~= crate::text::views(before).push(compute@[k as int]@));
            k = k + 1;
        }
        assert(compute@.subrange(0, compute.len() as int) =~= compute@);
    }
    computes
}

/// The compute objects of the given expressions.
fn rum_compute_list(computes: &Vec<String>) -> (r: Result<Vec<JsonValue>, String>)
    ensures
        match r {
            Ok(v) => rum_compute_objects(crate::text::views(computes@)) == Ok::<Seq<Json>, Seq<char>>(items_view(v@)),
            Err(e) => rum_compute_objects(crate::text::views(computes@)) == Err::<Seq<Json>, Seq<char>>(e@),
        },
{
    let ghost cv = crate::text::views(computes@);
    let mut out: Vec<JsonValue> = Vec::new();
    assert(items_view(out@) =~= Seq::<Json>::empty());
    let mut i: usize = 0;
    while i < computes.len()
        invariant
            i <= computes.len(),
            cv == crate::text::views(computes@),
            rum_compute_objects(cv.subrange(0, i as int)) == Ok::<Seq<Json>, Seq<char>>(items_view(out@)),
        decreases computes.len() - i,
    {
        proof {
            assert(cv.subrange(0, i + 1).drop_last() =~= cv.subrange(0, i as int));
            assert(cv.subrange(0, i + 1).last() == computes@[i as int]@);
        }
        match parse_rum_compute(computes[i].as_str()) {
            Err(e) => {
                proof {
                    lemma_rum_computes_err(cv, i + 1);
                }
                return Err(e);
            },
            Ok((a, m)) => {
                let c = rum_compute_json(a, m);
                let ghost before = out@;
                out.push(c);
                proof {
                    lemma_items_view(out@);
                    lemma_items_view(before);
                }
                assert(items_view(out@) =~= items_view(before).push(c@));
            },
        }
        i = i + 1;
    }
    assert(cv.subrange(0, computes.len() as int) =~= cv);
    Ok(out)
}

/// The group-by objects of the given facets.
fn rum_group_list(group_by: &Vec<String>, limit: i32) -> (r: Vec<JsonValue>)
    ensures
        items_view(r@) == crate::text::views(group_by@).map_values(|f: Seq<char>| rum_group_object(f, limit)),
{
    let ghost gv = crate::text::views(group_by@);
    let mut groups: Vec<JsonValue> = Vec::new();
    let mut j: usize = 0;
    while j < group_by.len()
        invariant
            j <= group_by.len(),
            gv == crate::text::views(group_by@),
            gv.len() == group_by.len(),
            groups.len() == j,
            forall|k: int| 0 <= k < j ==> #[trigger] groups@[k]@ == rum_group_object(gv[k], limit),
        decreases group_by.len() - j,
    {
        let g = rum_group_json(&group_by[j], limit);
        assert(gv[j as int] == group_by@[j as int]@);
        groups.push(g);
        j = j + 1;
    }
    proof {
        lemma_items_view(groups@);
    }
    assert(items_view(groups@) =~= gv.map_values(|f: Seq<char>| rum_group_object(f, limit)));
    groups
}

/// The filter of a RUM aggregate query.
fn rum_filter(query: &String, from_ms: i64, to_ms: i64) -> (r: JsonValue)
    ensures
        r@ == Json::Object(
            seq![
                ("query"@, Json::Str(query@)),
                ("from"@, Json::Str(crate::text::decimal_int(from_ms as int))),
                ("to"@, Json::Str(crate::text::decimal_int(to_ms as int))),
            ],
        ),
{
    let mut filter: Vec<(String, JsonValue)> = Vec::new();
    filter.push((owned("query"), JsonValue::String(query.clone())));
    filter.push((owned("from"), JsonValue::String(crate::text::i64_decimal(from_ms))));
    filter.push((owned("to"), JsonValue::String(crate::text::i64_decimal(to_ms))));
    proof {
        lemma_entries_view(filter@);
    }
    let r = object_of(filter);
    assert(r@->Object_0 =~= seq![
        ("query"@, Json::Str(query@)),
        ("from"@, Json::Str(crate::text::decimal_int(from_ms as int))),
        ("to"@, Json::Str(crate::text::decimal_int(to_ms as int))),
    ]);
    r
}

/// Builds the body of a RUM aggregate query from its arguments and the
/// window they name, in milliseconds since the epoch.
pub fn build_rum_aggregate_body(args: &RumAggregateArgs, from_ms: i64, to_ms: i64) -> (r: Result<JsonValue, String>)
    ensures
        match r {
            Ok(b) => rum_body_spec(
                args.query@,
                from_ms,
                to_ms,
                crate::text::views(args.compute@),
                crate::text::views(args.group_by@),
                args.limit,
            ) == Ok::<Json, Seq<char>>(b@),
            Err(e) => rum_body_spec(
                args.query@,
                from_ms,
                to_ms,
                crate::text::views(args.compute@),
                crate::text::views(args.group_by@),
                args.limit,
            ) == Err::<Json, Seq<char>>(e@),
        },
{
    let computes = rum_compute_texts(&args.compute);
    let out = match rum_compute_list(&computes) {
        Err(e) => {
            return Err(e);
        },
        Ok(out) => out,
    };
    proof {
        crate::json::lemma_array_view(out);
    }
    let filter_v = rum_filter(&args.query, from_ms, to_ms);
    let mut body: Vec<(String, JsonValue)> = Vec::new();
    body.push((owned("filter"), filter_v));
    body.push((owned("compute"), JsonValue::Array(out)));
    if args.group_by.len() > 0 {
        let groups = rum_group_list(&args.group_by, args.limit);
        proof {
            crate::json::lemma_array_view(groups);
        }
        body.push((owned("group_by"), JsonValue::Array(groups)));
    }
    proof {
        lemma_entries_view(body@);
    }
    let ghost expect = rum_body_spec(
        args.query@,
        from_ms,
        to_ms,
        crate::text::views(args.compute@),
        crate::text::views(args.group_by@),
        args.limit,
    );
    let r = object_of(body);
    assert(r@->Object_0 =~= expect->Ok_0->Object_0);
    Ok(r)
}

/// The RFC 3339 bounds of a search window given in milliseconds, or the
/// error for a bound chrono cannot represent.
pub open spec fn rum_window_spec(from_ms: i64, to_ms: i64) -> Result<(Seq<char>, Seq<char>), Seq<char>> {
    match crate::commands::profiling::rfc3339_from_millis(from_ms) {
        None => Err("--from value "@ + crate::text::decimal_int(from_ms as int) + "ms is out of representable range"@),
        Some(f) => match crate::commands::profiling::rfc3339_from_millis(to_ms) {
            None => Err("--to value "@ + crate::text::decimal_int(to_ms as int) + "ms is out of representable range"@),
            Some(t) => Ok((f, t)),
        },
    }
}

/// Turns the bounds of a RUM event search, in milliseconds, into RFC 3339.
pub fn rum_window(from_ms: i64, to_ms: i64) -> (r: Result<(String, String), String>)
    ensures
        match r {
            Ok((f, t)) => rum_window_spec(from_ms, to_ms) == Ok::<(Seq<char>, Seq<char>), Seq<char>>((f@, t@)),
            Err(e) => rum_window_spec(from_ms, to_ms) == Err::<(Seq<char>, Seq<char>), Seq<char>>(e@),
        },
{
    let f = match crate::commands::profiling::rfc3339_of_millis(from_ms) {
        None => {
            let mut e = owned("--from value ");
            let n = crate::text::i64_decimal(from_ms);
            push_text(&mut e, n.as_str());
            push_text(&mut e, "ms is out of representable range");
            return Err(e);
        },
        Some(f) => f,
    };
    let t = match crate::commands::profiling::rfc3339_of_millis(to_ms) {
        None => {
            let mut e = owned("--to value ");
            let n = crate::text::i64_decimal(to_ms);
            push_text(&mut e, n.as_str());
            push_text(&mut e, "ms is out of representable range");
            return Err(e);
        },
        Some(t) => t,
    };
    Ok((f, t))
}

/// Arguments of `rum replay-segments get`.
pub struct ReplaySegmentsGetArgs {
    pub session_id: String,
    pub view_id: String,
    pub source: Option<String>,
    pub ts: Option<i64>,
    pub max_list_size: Option<i64>,
    pub paging: Option<String>,
}

/// Arguments of `rum viewership history list`.
pub struct ViewershipHistoryListArgs {
    pub from: String,
    pub to: String,
    pub page_number: Option<i64>,
    pub page_size: i64,
    pub session_ids: Option<String>,
    pub application_id: Option<String>,
    pub created_by: Option<String>,
}

} // verus!
