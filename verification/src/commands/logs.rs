//! Logs commands: storage tiers, sort orders, `--compute` lists and the
//! body of an aggregate query.
use vstd::prelude::*;

use crate::commands::rum::{parse_compute_spec, parse_rum_compute};
use crate::json::{entries_view, items_view, lemma_entries_view, lemma_items_view, Json, JsonValue};
use crate::text::{
    chars_of, debug_quoted, debug_text, decimal_int, i64_decimal, owned, push_text,
    string_from_chars, to_lowercase, trim, trim_chars, trim_str, unicode_lowercase, views,
};

verus! {

/// Arguments of `logs aggregate`.
pub struct AggregateArgs {
    pub query: String,
    pub from: String,
    pub to: String,
    pub compute: Vec<String>,
    pub group_by: Vec<String>,
    pub limit: i32,
    pub storage: Option<String>,
    pub sort: String,
}

// ---------------------------------------------------------------------------
// Storage tiers
// ---------------------------------------------------------------------------

/// The storage tier a `--storage` value names, matched without regard to
/// case (`online_archives` is accepted for `online-archives`), or the error.
pub open spec fn normalize_storage_spec(storage: Option<Seq<char>>) -> Result<Option<Seq<char>>, Seq<char>> {
    match storage {
        None => Ok(None),
        Some(s) => {
            let l = unicode_lowercase(s);
            if l == "indexes"@ {
                Ok(Some("indexes"@))
            } else if l == "online-archives"@ || l == "online_archives"@ {
                Ok(Some("online-archives"@))
            } else if l == "flex"@ {
                Ok(Some("flex"@))
            } else {
                Err(
                    "unknown storage tier "@ + debug_text(l)
                        + "; valid values are: indexes, online-archives, flex"@,
                )
            }
        },
    }
}

/// The text of an optional string.
pub open spec fn opt_text(o: Option<String>) -> Option<Seq<char>> {
    match o {
        Some(s) => Some(s@),
        None => None,
    }
}

/// The text of a result of optional strings.
pub open spec fn result_text(r: Result<Option<String>, String>) -> Result<Option<Seq<char>>, Seq<char>> {
    match r {
        Ok(o) => Ok(opt_text(o)),
        Err(e) => Err(e@),
    }
}

/// Normalizes a `--storage` value to its canonical name.
pub fn normalize_storage_tier(storage: Option<String>) -> (r: Result<Option<String>, String>)
    ensures
        result_text(r) == normalize_storage_spec(opt_text(storage)),
{
    match storage {
        None => Ok(None),
        Some(s) => {
            let l = to_lowercase(s.as_str());
            if crate::text::text_eq(l.as_str(), "indexes") {
                Ok(Some(owned("indexes")))
            } else if crate::text::text_eq(l.as_str(), "online-archives") || crate::text::text_eq(
                l.as_str(),
                "online_archives",
            ) {
                Ok(Some(owned("online-archives")))
            } else if crate::text::text_eq(l.as_str(), "flex") {
                Ok(Some(owned("flex")))
            } else {
                let mut e = owned("unknown storage tier ");
                let d = debug_quoted(l.as_str());
                push_text(&mut e, d.as_str());
                push_text(&mut e, "; valid values are: indexes, online-archives, flex");
                Err(e)
            }
        },
    }
}

/// A logs storage tier.
#[derive(Clone, Copy, Debug, PartialEq, Eq, Structural)]
pub enum LogsStorageTier {
    Indexes,
    OnlineArchives,
    Flex,
}

/// Parses a `--storage` value into a storage tier.
pub fn parse_storage_tier(storage: Option<String>) -> (r: Result<Option<LogsStorageTier>, String>)
    ensures
        match (r, normalize_storage_spec(opt_text(storage))) {
            (Ok(None), Ok(None)) => true,
            (Ok(Some(t)), Ok(Some(n))) => (t == LogsStorageTier::Indexes && n == "indexes"@) || (t
                == LogsStorageTier::OnlineArchives && n == "online-archives"@) || (t
                == LogsStorageTier::Flex && n == "flex"@),
            (Err(e), Err(se)) => e@ == se,
            _ => false,
        },
{
    proof {
        reveal_strlit("indexes");
        reveal_strlit("online-archives");
        reveal_strlit("flex");
    }
    match normalize_storage_tier(storage) {
        Err(e) => Err(e),
        Ok(None) => Ok(None),
        Ok(Some(t)) => {
            if crate::text::text_eq(t.as_str(), "indexes") {
                Ok(Some(LogsStorageTier::Indexes))
            } else if crate::text::text_eq(t.as_str(), "online-archives") {
                Ok(Some(LogsStorageTier::OnlineArchives))
            } else {
                Ok(Some(LogsStorageTier::Flex))
            }
        },
    }
}

// ---------------------------------------------------------------------------
// Compute lists
// ---------------------------------------------------------------------------

/// The state of splitting a compute list: the pieces so far, the current
/// piece, and the parenthesis depth.
pub open spec fn split_step(st: (Seq<Seq<char>>, Seq<char>, nat), c: char) -> (
    Seq<Seq<char>>,
    Seq<char>,
    nat,
) {
    let (res, cur, d) = st;
    if c == '(' {
        (res, cur.push(c), d + 1)
    } else if c == ')' {
        (
            res,
            cur.push(c),
            if d > 0 {
                (d - 1) as nat
            } else {
                0
            },
        )
    } else if c == ',' && d == 0 {
        (
            if trim(cur).len() > 0 {
                res.push(trim(cur))
            } else {
                res
            },
            Seq::empty(),
            d,
        )
    } else {
        (res, cur.push(c), d)
    }
}

/// The splitting state after the first `n` characters.
pub open spec fn split_state(s: Seq<char>, n: nat) -> (Seq<Seq<char>>, Seq<char>, nat)
    decreases n,
{
    if n == 0 || n > s.len() {
        (Seq::empty(), Seq::empty(), 0)
    } else {
        split_step(split_state(s, (n - 1) as nat), s[n - 1])
    }
}

/// The expressions of a comma-separated compute list: split at commas
/// outside parentheses, each trimmed, empty ones dropped.
pub open spec fn split_compute_spec(s: Seq<char>) -> Seq<Seq<char>> {
    let (res, cur, _) = split_state(s, s.len());
    if trim(cur).len() > 0 {
        res.push(trim(cur))
    } else {
        res
    }
}

/// Splits a comma-separated compute string into individual compute
/// expressions, respecting parentheses so that `percentile(@duration, 95)`
/// is not split.
pub fn split_compute_args(input: &str) -> (r: Vec<String>)
    ensures
        views(r@) == split_compute_spec(input@),
{
    let v = chars_of(input);
    let mut result: Vec<String> = Vec::new();
    let mut current: Vec<char> = Vec::new();
    let mut depth: usize = 0;
    let mut i: usize = 0;
    while i < v.len()
        invariant
            v@ == input@,
            i <= v.len(),
            depth <= i,
            split_state(input@, i as nat) == (views(result@), current@, depth as nat),
        decreases v.len() - i,
    {
        let ch = v[i];
        if ch == '(' {
            depth = depth + 1;
            current.push(ch);
        } else if ch == ')' {
            depth = if depth > 0 {
                depth - 1
            } else {
                0
            };
            current.push(ch);
        } else if ch == ',' && depth == 0 {
            let t = trim_chars(&current);
            if t.len() > 0 {
                let ghost before = result@;
                result.push(string_from_chars(&t));
                assert(views(result@) =~= views(before).push(t@));
            }
            current = Vec::new();
            assert(current@ =~= Seq::<char>::empty());
        } else {
            current.push(ch);
        }
        i = i + 1;
    }
    let t = trim_chars(&current);
    if t.len() > 0 {
        let ghost before = result@;
        result.push(string_from_chars(&t));
        assert(views(result@) =~= views(before).push(t@));
    }
    result
}

/// No piece of a split compute list is empty.
pub proof fn law_split_pieces_nonempty(s: Seq<char>)
    ensures
        forall|i: int| 0 <= i < split_compute_spec(s).len() ==> split_compute_spec(s)[i].len() > 0,
{
    lemma_split_state_nonempty(s, s.len());
}

/// The pieces gathered so far are never empty.
proof fn lemma_split_state_nonempty(s: Seq<char>, n: nat)
    ensures
        forall|i: int| 0 <= i < split_state(s, n).0.len() ==> split_state(s, n).0[i].len() > 0,
    decreases n,
{
    if n > 0 && n <= s.len() {
        lemma_split_state_nonempty(s, (n - 1) as nat);
        let prev = split_state(s, (n - 1) as nat);
        let st = split_step(prev, s[n - 1]);
        assert(split_state(s, n) == st);
        assert forall|i: int| 0 <= i < st.0.len() implies st.0[i].len() > 0 by {
            if i < prev.0.len() {
                assert(st.0[i] == prev.0[i]);
            }
        }
    }
}

// ---------------------------------------------------------------------------
// Sorting and aggregation bodies
// ---------------------------------------------------------------------------

/// The aggregations a group-by may be sorted by, as listed for users.
pub const VALID_SORT_AGGREGATIONS: [&'static str; 10] = [
    "count",
    "cardinality",
    "pc75",
    "pc90",
    "pc95",
    "pc98",
    "pc99",
    "sum",
    "min",
    "max",
];

/// The listed aggregations are the ones a sort accepts.
pub proof fn law_sort_aggregations_listed()
    ensures
        crate::text::str_views(VALID_SORT_AGGREGATIONS@) == valid_sort_aggregations(),
{
    assert(crate::text::str_views(VALID_SORT_AGGREGATIONS@) =~= valid_sort_aggregations());
}

/// The aggregations a group-by may be sorted by.
pub open spec fn valid_sort_aggregations() -> Seq<Seq<char>> {
    seq![
        "count"@,
        "cardinality"@,
        "pc75"@,
        "pc90"@,
        "pc95"@,
        "pc98"@,
        "pc99"@,
        "sum"@,
        "min"@,
        "max"@,
    ]
}

/// The sort object of a group-by, or the error for an unknown aggregation
/// (matched after trimming and lowercasing).
pub open spec fn aggregate_sort_spec(sort: Seq<char>) -> Result<Json, Seq<char>> {
    let s = unicode_lowercase(trim(sort));
    if valid_sort_aggregations().contains(s) {
        Ok(
            Json::Object(
                seq![
                    ("type"@, Json::Str("measure"@)),
                    ("order"@, Json::Str("desc"@)),
                    ("aggregation"@, Json::Str(s)),
                ],
            ),
        )
    } else {
        Err(
            "unknown sort aggregation "@ + debug_text(s)
                + "; valid values are: count, cardinality, pc75, pc90, pc95, pc98, pc99, sum, min, max"@,
        )
    }
}

/// The `i`th valid sort aggregation.
fn sort_aggregation(i: usize) -> (r: &'static str)
    requires
        i < 10,
    ensures
        r@ == valid_sort_aggregations()[i as int],
{
    if i == 0 { "count" } else if i == 1 { "cardinality" } else if i == 2 { "pc75" }
    else if i == 3 { "pc90" } else if i == 4 { "pc95" } else if i == 5 { "pc98" }
    else if i == 6 { "pc99" } else if i == 7 { "sum" } else if i == 8 { "min" } else { "max" }
}

/// A string value.
fn jstr(s: &str) -> (r: JsonValue)
    ensures
        r@ == Json::Str(s@),
{
    JsonValue::String(owned(s))
}

/// An object with the given entries.
fn jobject(e: Vec<(String, JsonValue)>) -> (r: JsonValue)
    ensures
        r@ == Json::Object(entries_view(e@)),
{
    proof {
        crate::json::lemma_object_view(e);
    }
    JsonValue::Object(e)
}

/// The sort object for a group-by.
pub fn parse_aggregate_sort(sort: &str) -> (r: Result<JsonValue, String>)
    ensures
        match (r, aggregate_sort_spec(sort@)) {
            (Ok(v), Ok(sv)) => v@ == sv,
            (Err(e), Err(se)) => e@ == se,
            _ => false,
        },
{
    let t = trim_str(sort);
    let s = to_lowercase(t.as_str());
    let mut found = false;
    let mut i: usize = 0;
    while i < 10
        invariant
            i <= 10,
            found == exists|j: int| 0 <= j < i && valid_sort_aggregations()[j] == s@,
        decreases 10 - i,
    {
        if crate::text::text_eq(s.as_str(), sort_aggregation(i)) {
            found = true;
        }
        i = i + 1;
    }
    if !found {
        let mut e = owned("unknown sort aggregation ");
        let d = debug_quoted(s.as_str());
        push_text(&mut e, d.as_str());
        push_text(
            &mut e,
            "; valid values are: count, cardinality, pc75, pc90, pc95, pc98, pc99, sum, min, max",
        );
        return Err(e);
    }
    let mut e: Vec<(String, JsonValue)> = Vec::new();
    e.push((owned("type"), jstr("measure")));
    e.push((owned("order"), jstr("desc")));
    e.push((owned("aggregation"), JsonValue::String(s)));
    proof {
        lemma_entries_view(e@);
    }
    let r = jobject(e);
    assert(r@->Object_0 =~= aggregate_sort_spec(sort@)->Ok_0->Object_0);
    Ok(r)
}

/// The compute object of one aggregation: `aggregation`, and `metric` when
/// the aggregation has one.
pub open spec fn compute_object(agg: Seq<char>, metric: Option<Seq<char>>) -> Json {
    Json::Object(
        seq![("aggregation"@, Json::Str(agg))] + match metric {
            Some(m) => seq![("metric"@, Json::Str(m))],
            None => Seq::empty(),
        },
    )
}

/// The compute objects of the first `n` expressions, or the first error.
pub open spec fn computes_spec(computes: Seq<Seq<char>>, n: nat) -> Result<Seq<Json>, Seq<char>>
    decreases n,
{
    if n == 0 || n > computes.len() {
        Ok(Seq::empty())
    } else {
        match computes_spec(computes, (n - 1) as nat) {
            Err(e) => Err(e),
            Ok(prev) => match parse_compute_spec(computes[n - 1]) {
                Err(e) => Err(e),
                Ok((a, m)) => Ok(prev.push(compute_object(a, m))),
            },
        }
    }
}

/// Each compute object names its aggregation under `aggregation` and its
/// metric under `metric` (absent when it has none); a list of expressions
/// that all parse gives one compute object per expression, in order, each
/// made from that expression's parse.
pub proof fn law_compute_objects(computes: Seq<Seq<char>>, agg: Seq<char>, metric: Option<Seq<char>>)
    ensures
        crate::json::member(compute_object(agg, metric), "aggregation"@) == Json::Str(agg),
        crate::json::member(compute_object(agg, metric), "metric"@) == match metric {
            Some(m) => Json::Str(m),
            None => Json::Null,
        },
        computes_spec(computes, computes.len()) matches Ok(objs) ==> objs.len() == computes.len() && forall|
            i: int,
        |
            0 <= i < computes.len() ==> (#[trigger] parse_compute_spec(computes[i]) matches Ok((a, m)) && objs[i]
                == compute_object(a, m)),
{
    reveal_strlit("aggregation");
    reveal_strlit("metric");
    assert("aggregation"@.len() == 11 && "metric"@.len() == 6);
    let head = seq![("aggregation"@, Json::Str(agg))];
    match metric {
        Some(m) => {
            assert(compute_object(agg, metric)->Object_0 == head.push(("metric"@, Json::Str(m))));
            crate::json::lemma_lookup_push(head, ("metric"@, Json::Str(m)), "aggregation"@);
            crate::json::lemma_lookup_push(head, ("metric"@, Json::Str(m)), "metric"@);
        },
        None => {
            assert(compute_object(agg, metric)->Object_0 == head);
        },
    }
    crate::json::lemma_lookup_single("aggregation"@, Json::Str(agg), "aggregation"@);
    crate::json::lemma_lookup_single("aggregation"@, Json::Str(agg), "metric"@);
    lemma_computes_each(computes, computes.len());
}

/// The compute objects of the first `n` expressions, one per expression.
proof fn lemma_computes_each(computes: Seq<Seq<char>>, n: nat)
    ensures
        n <= computes.len() ==> (computes_spec(computes, n) matches Ok(objs) ==> objs.len() == n && forall|i: int|
            0 <= i < n ==> (#[trigger] parse_compute_spec(computes[i]) matches Ok((a, m)) && objs[i]
                == compute_object(a, m))),
    decreases n,
{
    if n > 0 && n <= computes.len() {
        lemma_computes_each(computes, (n - 1) as nat);
    }
}

/// The group-by object for one facet.
pub open spec fn group_by_object(facet: Seq<char>, sort: Json, limit: i32) -> Json {
    Json::Object(
        seq![("facet"@, Json::Str(facet)), ("sort"@, sort)] + if limit > 0 {
            seq![("limit"@, Json::Number(decimal_int(limit as int)))]
        } else {
            Seq::empty()
        },
    )
}

/// The body of a logs aggregate query, or the first error: an unknown
/// storage tier, then an invalid compute expression, then (only with
/// group-bys) an unknown sort aggregation.
pub open spec fn aggregate_body_spec(
    query: Seq<char>,
    from_ms: i64,
    to_ms: i64,
    computes: Seq<Seq<char>>,
    group_bys: Seq<Seq<char>>,
    limit: i32,
    storage: Option<Seq<char>>,
    sort: Seq<char>,
) -> Result<Json, Seq<char>> {
    match normalize_storage_spec(storage) {
        Err(e) => Err(e),
        Ok(tier) => {
            let filter = Json::Object(
                seq![
                    ("query"@, Json::Str(query)),
                    ("from"@, Json::Str(decimal_int(from_ms as int))),
                    ("to"@, Json::Str(decimal_int(to_ms as int))),
                ] + match tier {
                    Some(t) => seq![("storage_tier"@, Json::Str(t))],
                    None => Seq::empty(),
                },
            );
            match computes_spec(computes, computes.len()) {
                Err(e) => Err(e),
                Ok(cs) => {
                    let base = seq![("filter"@, filter), ("compute"@, Json::Array(cs))];
                    if group_bys.len() == 0 {
                        Ok(Json::Object(base))
                    } else {
                        match aggregate_sort_spec(sort) {
                            Err(e) => Err(e),
                            Ok(so) => Ok(
                                Json::Object(
                                    base.push(
                                        (
                                            "group_by"@,
                                            Json::Array(
                                                group_bys.map_values(
                                                    |f: Seq<char>| group_by_object(f, so, limit),
                                                ),
                                            ),
                                        ),
                                    ),
                                ),
                            ),
                        }
                    }
                },
            }
        },
    }
}

/// The compute object for a parsed aggregation.
fn compute_json(agg: String, metric: Option<String>) -> (r: JsonValue)
    ensures
        r@ == compute_object(agg@, opt_text(metric)),
{
    let mut e: Vec<(String, JsonValue)> = Vec::new();
    e.push((owned("aggregation"), JsonValue::String(agg)));
    if let Some(m) = metric {
        e.push((owned("metric"), JsonValue::String(m)));
    }
    proof {
        lemma_entries_view(e@);
    }
    let r = jobject(e);
    assert(r@->Object_0 =~= compute_object(agg@, opt_text(metric))->Object_0);
    r
}

/// Parses every compute expression.
pub fn build_computes(computes: &Vec<String>) -> (r: Result<Vec<JsonValue>, String>)
    ensures
        match (r, computes_spec(views(computes@), computes.len() as nat)) {
            (Ok(v), Ok(sv)) => items_view(v@) == sv,
            (Err(e), Err(se)) => e@ == se,
            _ => false,
        },
{
    let ghost cv = views(computes@);
    let mut out: Vec<JsonValue> = Vec::new();
    let mut i: usize = 0;
    proof {
        lemma_items_view(out@);
    }
    while i < computes.len()
        invariant
            cv == views(computes@),
            i <= computes.len(),
            computes_spec(cv, i as nat) == Ok::<Seq<Json>, Seq<char>>(items_view(out@)),
        decreases computes.len() - i,
    {
        assert(cv[i as int] == computes@[i as int]@);
        match parse_rum_compute(computes[i].as_str()) {
            Err(e) => {
                proof {
                    lemma_computes_err(cv, (i + 1) as nat, computes.len() as nat);
                }
                return Err(e);
            },
            Ok((a, m)) => {
                let c = compute_json(a, m);
                let ghost before = out@;
                out.push(c);
                proof {
                    lemma_items_view(out@);
                    lemma_items_view(before);
                }
                assert(items_view(out@) =~= items_view(before).push(c@));
            },
        }
        i = i + 1;
    }
    Ok(out)
}

/// An error in the first `n` expressions is the error of all of them.
proof fn lemma_computes_err(cs: Seq<Seq<char>>, n: nat, m: nat)
    requires
        n <= m <= cs.len(),
        computes_spec(cs, n) is Err,
    ensures
        computes_spec(cs, m) == computes_spec(cs, n),
    decreases m - n,
{
    if m > n {
        lemma_computes_err(cs, n, (m - 1) as nat);
    }
}

/// The group-by object for one facet.
fn group_by_json(facet: &String, sort: &JsonValue, limit: i32) -> (r: JsonValue)
    ensures
        r@ == group_by_object(facet@, sort@, limit),
{
    let mut e: Vec<(String, JsonValue)> = Vec::new();
    e.push((owned("facet"), JsonValue::String(facet.clone())));
    e.push((owned("sort"), sort.deep_clone()));
    if limit > 0 {
        e.push((owned("limit"), JsonValue::Number(i64_decimal(limit as i64))));
    }
    proof {
        lemma_entries_view(e@);
    }
    let r = jobject(e);
    assert(r@->Object_0 =~= group_by_object(facet@, sort@, limit)->Object_0);
    r
}

/// Builds the body of a logs aggregate query.
#[verifier::spinoff_prover]
#[verifier::rlimit(40)]
pub fn build_aggregate_body(
    query: String,
    from_ms: i64,
    to_ms: i64,
    computes: Vec<String>,
    group_bys: Vec<String>,
    limit: i32,
    storage: Option<String>,
    sort: &str,
) -> (r: Result<JsonValue, String>)
    ensures
        match (
            r,
            aggregate_body_spec(
                query@,
                from_ms,
                to_ms,
                views(computes@),
                views(group_bys@),
                limit,
                opt_text(storage),
                sort@,
            ),
        ) {
            (Ok(v), Ok(sv)) => v@ == sv,
            (Err(e), Err(se)) => e@ == se,
            _ => false,
        },
{
    let tier = match normalize_storage_tier(storage) {
        Err(e) => return Err(e),
        Ok(t) => t,
    };
    let mut f: Vec<(String, JsonValue)> = Vec::new();
    f.push((owned("query"), JsonValue::String(query)));
    f.push((owned("from"), JsonValue::String(i64_decimal(from_ms))));
    f.push((owned("to"), JsonValue::String(i64_decimal(to_ms))));
    let ghost tier_v = opt_text(tier);
    if let Some(t) = tier {
        f.push((owned("storage_tier"), JsonValue::String(t)));
    }
    proof {
        lemma_entries_view(f@);
    }
    let ghost fspec = seq![
        ("query"@, Json::Str(query@)),
        ("from"@, Json::Str(decimal_int(from_ms as int))),
        ("to"@, Json::Str(decimal_int(to_ms as int))),
    ] + match tier_v {
        Some(t) => seq![("storage_tier"@, Json::Str(t))],
        None => Seq::<(Seq<char>, Json)>::empty(),
    };
    assert(entries_view(f@) =~= fspec);
    let filter = jobject(f);
    let cs = match build_computes(&computes) {
        Err(e) => return Err(e),
        Ok(c) => c,
    };
    let ghost csv = items_view(cs@);
    proof {
        crate::json::lemma_array_view(cs);
    }
    let compute = JsonValue::Array(cs);
    let ghost base = seq![("filter"@, Json::Object(fspec)), ("compute"@, Json::Array(csv))];
    let mut body: Vec<(String, JsonValue)> = Vec::new();
    body.push((owned("filter"), filter));
    body.push((owned("compute"), compute));
    if group_bys.len() > 0 {
        let so = match parse_aggregate_sort(sort) {
            Err(e) => return Err(e),
            Ok(s) => s,
        };
        let mut gs: Vec<JsonValue> = Vec::new();
        let mut i: usize = 0;
        while i < group_bys.len()
            invariant
                i <= group_bys.len(),
                gs.len() == i,
                forall|k: int| 0 <= k < i ==> #[trigger] gs@[k]@ == group_by_object(group_bys@[k]@, so@, limit),
            decreases group_bys.len() - i,
        {
            gs.push(group_by_json(&group_bys[i], &so, limit));
            i = i + 1;
        }
        proof {
            lemma_items_view(gs@);
            crate::json::lemma_array_view(gs);
        }
        assert(items_view(gs@) =~= views(group_bys@).map_values(
            |f: Seq<char>| group_by_object(f, so@, limit),
        ));
        let ghost gv = items_view(gs@);
        body.push((owned("group_by"), JsonValue::Array(gs)));
        proof {
            lemma_entries_view(body@);
        }
        assert(entries_view(body@) =~= base.push(("group_by"@, Json::Array(gv))));
    } else {
        proof {
            lemma_entries_view(body@);
        }
        assert(entries_view(body@) =~= base);
    }
    let r = jobject(body);
    assert(r@ == aggregate_body_spec(
        query@,
        from_ms,
        to_ms,
        views(computes@),
        views(group_bys@),
        limit,
        opt_text(storage),
        sort@,
    )->Ok_0);
    Ok(r)
}

/// The order of a logs search.
#[derive(Clone, Copy, Debug, PartialEq, Eq, Structural)]
pub enum LogsSort {
    TimestampAscending,
    TimestampDescending,
}

/// `timestamp`, `asc` and `+timestamp` sort oldest first; anything else
/// newest first.
pub fn parse_logs_sort(sort: &str) -> (r: LogsSort)
    ensures
        r == if sort@ == "timestamp"@ || sort@ == "asc"@ || sort@ == "+timestamp"@ {
            LogsSort::TimestampAscending
        } else {
            LogsSort::TimestampDescending
        },
{
    if crate::text::text_eq(sort, "timestamp") || crate::text::text_eq(sort, "asc")
        || crate::text::text_eq(sort, "+timestamp") {
        LogsSort::TimestampAscending
    } else {
        LogsSort::TimestampDescending
    }
}

} // verus!
