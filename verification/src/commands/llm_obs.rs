//! LLM Observability commands: choices among fixed values, tag filters
//! and agent-insight feedback entries.
use vstd::prelude::*;

use crate::json::{
    entries_view, insert_entry, items_view, lemma_entries_view, lemma_items_view, lemma_object_view,
    obj_insert, str_items, string_array, Json, JsonValue,
};
use crate::text::{
    chars_of, decimal, first_char_index, first_index, join, join_strs, owned, push_text, slice_chars,
    str_in, str_views, string_from_chars, u64_decimal, views,
};

verus! {

/// The statuses of an agent insight.
pub const AGENT_INSIGHT_STATUSES: [&'static str; 4] = ["for_review", "in_progress", "completed", "ignored"];

/// The usefulness ratings of agent-insight feedback.
pub const AGENT_INSIGHT_USEFULNESS: [&'static str; 3] = ["useful", "somewhat_useful", "not_useful"];

/// The most feedback entries one submission takes.
pub const MAX_AGENT_INSIGHT_FEEDBACK_ITEMS: usize = 25;

// ---------------------------------------------------------------------------
// Choices
// ---------------------------------------------------------------------------

/// Accepts `value` when it is one of `allowed`; otherwise the error names
/// the flag and lists the allowed values.
pub open spec fn choice_spec(flag: Seq<char>, value: Seq<char>, allowed: Seq<Seq<char>>) -> Result<(), Seq<char>> {
    if allowed.contains(value) {
        Ok(())
    } else {
        Err(flag + " must be one of "@ + join(allowed, ", "@) + ", got '"@ + value + "'"@)
    }
}

/// Checks that the value of `flag` is one of `allowed`.
pub fn validate_choice(flag: &str, value: &str, allowed: &[&str]) -> (r: Result<(), String>)
    ensures
        match r {
            Ok(_) => choice_spec(flag@, value@, str_views(allowed@)) == Ok::<(), Seq<char>>(()),
            Err(e) => choice_spec(flag@, value@, str_views(allowed@)) == Err::<(), Seq<char>>(e@),
        },
{
    if str_in(value, allowed) {
        return Ok(());
    }
    let mut e = owned(flag);
    push_text(&mut e, " must be one of ");
    let listed = join_strs(allowed, ", ");
    push_text(&mut e, listed.as_str());
    push_text(&mut e, ", got '");
    push_text(&mut e, value);
    push_text(&mut e, "'");
    Err(e)
}

// ---------------------------------------------------------------------------
// Tag filters
// ---------------------------------------------------------------------------

/// The filter map of `--tags` entries `key:value` (split at the first
/// colon; a repeated key keeps its place and takes the later value), or
/// the error for the first entry that is not of that form.
pub open spec fn tag_filters_spec(tags: Seq<Seq<char>>) -> Result<Seq<(Seq<char>, Json)>, Seq<char>>
    decreases tags.len(),
{
    if tags.len() == 0 {
        Ok(Seq::empty())
    } else {
        match tag_filters_spec(tags.drop_last()) {
            Err(e) => Err(e),
            Ok(m) => {
                let tag = tags.last();
                let i = first_index(tag, ':');
                if i < 0 {
                    Err("--tags entries must be \"key:value\", got '"@ + tag + "'"@)
                } else {
                    let k = tag.subrange(0, i);
                    let v = tag.subrange(i + 1, tag.len() as int);
                    if k.len() == 0 || v.len() == 0 {
                        Err("--tags entries must have a non-empty key and value, got '"@ + tag + "'"@)
                    } else {
                        Ok(insert_entry(m, k, Json::Str(v)))
                    }
                }
            },
        }
    }
}

/// No key occurs twice among object entries.
pub open spec fn keys_distinct(m: Seq<(Seq<char>, Json)>) -> bool {
    forall|i: int, j: int| 0 <= i < j < m.len() ==> m[i].0 != m[j].0
}

/// Storing under a key keeps the keys distinct.
proof fn lemma_insert_keeps_keys_distinct(m: Seq<(Seq<char>, Json)>, k: Seq<char>, v: Json)
    requires
        keys_distinct(m),
    ensures
        keys_distinct(insert_entry(m, k, v)),
{
    crate::json::lemma_key_pos(m, k);
    let r = insert_entry(m, k, v);
    assert forall|i: int, j: int| 0 <= i < j < r.len() implies r[i].0 != r[j].0 by {
        let p = crate::json::key_pos(m, k);
        if p < 0 {
            if j == m.len() {
                assert(r[i] == m[i]);
            }
        } else {
            if i == p {
                assert(m[j].0 != m[p].0);
            } else if j == p {
                assert(m[i].0 != m[p].0);
            }
        }
    }
}

/// A tag filter names each key once: a repeated key keeps one entry.
pub proof fn law_tag_filter_keys_distinct(tags: Seq<Seq<char>>)
    ensures
        match tag_filters_spec(tags) {
            Ok(m) => keys_distinct(m) && m.len() <= tags.len(),
            Err(_) => true,
        },
    decreases tags.len(),
{
    if tags.len() > 0 {
        law_tag_filter_keys_distinct(tags.drop_last());
        match tag_filters_spec(tags.drop_last()) {
            Ok(m) => {
                let tag = tags.last();
                let i = first_index(tag, ':');
                if i >= 0 {
                    let k = tag.subrange(0, i);
                    let v = tag.subrange(i + 1, tag.len() as int);
                    lemma_insert_keeps_keys_distinct(m, k, Json::Str(v));
                }
            },
            Err(_) => {},
        }
    }
}

/// A submission accepted yields one feedback item per entry.
pub proof fn law_feedback_one_item_per_entry(entries: Seq<Seq<char>>)
    ensures
        match feedback_items_spec(entries) {
            Ok(items) => items.len() == entries.len() && 1 <= items.len() <= MAX_AGENT_INSIGHT_FEEDBACK_ITEMS,
            Err(_) => true,
        },
{
    lemma_feedback_len(entries);
}

/// The items of the entries are as many as the entries.
proof fn lemma_feedback_len(entries: Seq<Seq<char>>)
    ensures
        match feedback_entries_spec(entries) {
            Ok(items) => items.len() == entries.len(),
            Err(_) => true,
        },
    decreases entries.len(),
{
    if entries.len() > 0 {
        lemma_feedback_len(entries.drop_last());
    }
}

/// An error for a prefix of the entries is the error for all of them.
proof fn lemma_tag_filters_err(tags: Seq<Seq<char>>, n: int)
    requires
        0 <= n <= tags.len(),
        tag_filters_spec(tags.subrange(0, n)) is Err,
    ensures
        tag_filters_spec(tags) == tag_filters_spec(tags.subrange(0, n)),
    decreases tags.len(),
{
    if n == tags.len() {
        assert(tags.subrange(0, n) =~= tags);
    } else {
        assert(tags.drop_last().subrange(0, n) =~= tags.subrange(0, n));
        lemma_tag_filters_err(tags.drop_last(), n);
    }
}

/// The error of a tag entry.
fn tag_error(head: &str, tag: &str) -> (e: String)
    ensures
        e@ == head@ + tag@ + "'"@,
{
    let mut e = owned(head);
    push_text(&mut e, tag);
    push_text(&mut e, "'");
    e
}

/// Parses `--tags` entries `key:value` into the entries of a filter object.
pub fn parse_tag_filters(tags: &Vec<String>) -> (r: Result<Vec<(String, JsonValue)>, String>)
    ensures
        match r {
            Ok(m) => tag_filters_spec(views(tags@)) == Ok::<Seq<(Seq<char>, Json)>, Seq<char>>(
                entries_view(m@),
            ),
            Err(e) => tag_filters_spec(views(tags@)) == Err::<Seq<(Seq<char>, Json)>, Seq<char>>(e@),
        },
{
    let mut map: Vec<(String, JsonValue)> = Vec::new();
    let mut i: usize = 0;
    assert(entries_view(map@) =~= Seq::<(Seq<char>, Json)>::empty());
    while i < tags.len()
        invariant
            i <= tags.len(),
            tag_filters_spec(views(tags@.subrange(0, i as int))) == Ok::<Seq<(Seq<char>, Json)>, Seq<char>>(
                entries_view(map@),
            ),
        decreases tags.len() - i,
    {
        let ghost pre = views(tags@.subrange(0, i + 1));
        proof {
            assert(pre.drop_last() =~= views(tags@.subrange(0, i as int)));
            assert(pre.last() == tags@[i as int]@);
            assert(views(tags@).subrange(0, i + 1) =~= pre);
        }
        let tag = tags[i].as_str();
        let v = chars_of(tag);
        match first_char_index(&v, ':') {
            None => {
                let e = tag_error("--tags entries must be \"key:value\", got '", tag);
                proof {
                    lemma_tag_filters_err(views(tags@), i + 1);
                }
                return Err(e);
            },
            Some(p) => {
                let k = slice_chars(&v, 0, p);
                let val = slice_chars(&v, p + 1, v.len());
                if k.len() == 0 || val.len() == 0 {
                    let e = tag_error("--tags entries must have a non-empty key and value, got '", tag);
                    proof {
                        lemma_tag_filters_err(views(tags@), i + 1);
                    }
                    return Err(e);
                }
                obj_insert(&mut map, string_from_chars(&k), JsonValue::String(string_from_chars(&val)));
            },
        }
        i = i + 1;
    }
    assert(tags@.subrange(0, tags.len() as int) =~= tags@);
    Ok(map)
}

// ---------------------------------------------------------------------------
// Agent-insight feedback
// ---------------------------------------------------------------------------

/// A feedback entry `target_key=usefulness[=reasoning]` cut at its first
/// two `=` (`splitn(3, '=')`): the target key, the usefulness (empty when
/// there is no `=`) and what follows a second `=`.
pub open spec fn feedback_parts(entry: Seq<char>) -> (Seq<char>, Seq<char>, Option<Seq<char>>) {
    let i = first_index(entry, '=');
    if i < 0 {
        (entry, Seq::empty(), None)
    } else {
        let head = entry.subrange(0, i);
        let rest = entry.subrange(i + 1, entry.len() as int);
        let j = first_index(rest, '=');
        if j < 0 {
            (head, rest, None)
        } else {
            (head, rest.subrange(0, j), Some(rest.subrange(j + 1, rest.len() as int)))
        }
    }
}

/// The feedback item of one entry: its target key, its usefulness (one of
/// the known ratings) and its reasoning where one is given, or the error.
pub open spec fn feedback_item_spec(entry: Seq<char>) -> Result<Json, Seq<char>> {
    let (k, u, rsn) = feedback_parts(entry);
    if k.len() == 0 || u.len() == 0 {
        Err("--feedback entries must be \"target_key=usefulness[=reasoning]\", got '"@ + entry + "'"@)
    } else {
        match choice_spec("--feedback usefulness"@, u, str_views(AGENT_INSIGHT_USEFULNESS@)) {
            Err(e) => Err(e),
            Ok(_) => {
                let base = seq![("target_key"@, Json::Str(k)), ("usefulness"@, Json::Str(u))];
                match rsn {
                    Some(x) if x.len() > 0 => Ok(Json::Object(base.push(("reasoning"@, Json::Str(x))))),
                    _ => Ok(Json::Object(base)),
                }
            },
        }
    }
}

/// The items of the entries, in order, or the error of the first bad one.
pub open spec fn feedback_entries_spec(entries: Seq<Seq<char>>) -> Result<Seq<Json>, Seq<char>>
    decreases entries.len(),
{
    if entries.len() == 0 {
        Ok(Seq::empty())
    } else {
        match feedback_entries_spec(entries.drop_last()) {
            Err(e) => Err(e),
            Ok(items) => match feedback_item_spec(entries.last()) {
                Err(e) => Err(e),
                Ok(x) => Ok(items.push(x)),
            },
        }
    }
}

/// The feedback items of a submission, which takes from one to
/// `MAX_AGENT_INSIGHT_FEEDBACK_ITEMS` entries.
pub open spec fn feedback_items_spec(entries: Seq<Seq<char>>) -> Result<Seq<Json>, Seq<char>> {
    if entries.len() == 0 {
        Err("--feedback requires at least one entry"@)
    } else if entries.len() > MAX_AGENT_INSIGHT_FEEDBACK_ITEMS {
        Err("--feedback accepts at most 25 entries, got "@ + decimal(entries.len()))
    } else {
        feedback_entries_spec(entries)
    }
}

/// An error for a prefix of the entries is the error for all of them.
proof fn lemma_feedback_err(entries: Seq<Seq<char>>, n: int)
    requires
        0 <= n <= entries.len(),
        feedback_entries_spec(entries.subrange(0, n)) is Err,
    ensures
        feedback_entries_spec(entries) == feedback_entries_spec(entries.subrange(0, n)),
    decreases entries.len(),
{
    if n == entries.len() {
        assert(entries.subrange(0, n) =~= entries);
    } else {
        assert(entries.drop_last().subrange(0, n) =~= entries.subrange(0, n));
        lemma_feedback_err(entries.drop_last(), n);
    }
}

/// Cuts a feedback entry at its first two `=`.
fn split_feedback(v: &Vec<char>) -> (r: (Vec<char>, Vec<char>, Option<Vec<char>>))
    ensures
        feedback_parts(v@) == (r.0@, r.1@, match r.2 {
            Some(x) => Some(x@),
            None => None::<Seq<char>>,
        }),
{
    match first_char_index(v, '=') {
        None => {
            assert(v@.subrange(0, v.len() as int) =~= v@);
            (slice_chars(v, 0, v.len()), Vec::new(), None)
        },
        Some(i) => {
            let head = slice_chars(v, 0, i);
            let rest = slice_chars(v, i + 1, v.len());
            match first_char_index(&rest, '=') {
                None => (head, rest, None),
                Some(j) => {
                    let u = slice_chars(&rest, 0, j);
                    let x = slice_chars(&rest, j + 1, rest.len());
                    (head, u, Some(x))
                },
            }
        },
    }
}

/// The feedback item of one entry.
fn feedback_item(entry: &str) -> (r: Result<JsonValue, String>)
    ensures
        match r {
            Ok(x) => feedback_item_spec(entry@) == Ok::<Json, Seq<char>>(x@),
            Err(e) => feedback_item_spec(entry@) == Err::<Json, Seq<char>>(e@),
        },
{
    let v = chars_of(entry);
    let (k, u, rsn) = split_feedback(&v);
    if k.len() == 0 || u.len() == 0 {
        let e = tag_error("--feedback entries must be \"target_key=usefulness[=reasoning]\", got '", entry);
        return Err(e);
    }
    let us = string_from_chars(&u);
    match validate_choice("--feedback usefulness", us.as_str(), &AGENT_INSIGHT_USEFULNESS) {
        Err(e) => {
            return Err(e);
        },
        Ok(_) => {},
    }
    let mut item: Vec<(String, JsonValue)> = Vec::new();
    item.push((owned("target_key"), JsonValue::String(string_from_chars(&k))));
    item.push((owned("usefulness"), JsonValue::String(us)));
    let ghost base = item@;
    match rsn {
        Some(x) => {
            if x.len() > 0 {
                item.push((owned("reasoning"), JsonValue::String(string_from_chars(&x))));
            }
        },
        None => {},
    }
    proof {
        lemma_entries_view(base);
        lemma_entries_view(item@);
        lemma_object_view(item);
    }
    let ghost expect = feedback_item_spec(entry@);
    assert(entries_view(item@) =~= expect->Ok_0->Object_0);
    Ok(JsonValue::Object(item))
}

/// Parses `--feedback` entries `target_key=usefulness[=reasoning]` into
/// feedback items.
pub fn parse_feedback_items(feedback: &Vec<String>) -> (r: Result<Vec<JsonValue>, String>)
    ensures
        match r {
            Ok(items) => feedback_items_spec(views(feedback@)) == Ok::<Seq<Json>, Seq<char>>(
                items_view(items@),
            ),
            Err(e) => feedback_items_spec(views(feedback@)) == Err::<Seq<Json>, Seq<char>>(e@),
        },
{
    assert(views(feedback@).len() == feedback.len());
    if feedback.len() == 0 {
        return Err(owned("--feedback requires at least one entry"));
    }
    if feedback.len() > MAX_AGENT_INSIGHT_FEEDBACK_ITEMS {
        let mut e = owned("--feedback accepts at most 25 entries, got ");
        let n = u64_decimal(feedback.len() as u64);
        push_text(&mut e, n.as_str());
        return Err(e);
    }
    let mut items: Vec<JsonValue> = Vec::new();
    let mut i: usize = 0;
    assert(items_view(items@) =~= Seq::<Json>::empty());
    while i < feedback.len()
        invariant
            i <= feedback.len(),
            0 < feedback.len() <= MAX_AGENT_INSIGHT_FEEDBACK_ITEMS,
            views(feedback@).len() == feedback.len(),
            feedback_entries_spec(views(feedback@.subrange(0, i as int))) == Ok::<Seq<Json>, Seq<char>>(
                items_view(items@),
            ),
        decreases feedback.len() - i,
    {
        let ghost pre = views(feedback@.subrange(0, i + 1));
        proof {
            assert(pre.drop_last() =~= views(feedback@.subrange(0, i as int)));
            assert(pre.last() == feedback@[i as int]@);
            assert(views(feedback@).subrange(0, i + 1) =~= pre);
        }
        match feedback_item(feedback[i].as_str()) {
            Err(e) => {
                proof {
                    lemma_feedback_err(views(feedback@), i + 1);
                }
                return Err(e);
            },
            Ok(x) => {
                let ghost before = items@;
                items.push(x);
                proof {
                    lemma_items_view(before);
                    lemma_items_view(items@);
                    assert(items_view(items@) =~= items_view(before).push(x@));
                }
            },
        }
        i = i + 1;
    }
    assert(feedback@.subrange(0, feedback.len() as int) =~= feedback@);
    Ok(items)
}

// ---------------------------------------------------------------------------
// Request bodies
// ---------------------------------------------------------------------------

/// The body of a model pricing query: the provider, model, limit and
/// cursor that are given, in that order; a query needs a provider or a
/// model.
pub open spec fn model_pricing_spec(
    provider: Option<Seq<char>>,
    model: Option<Seq<char>>,
    limit: Option<u32>,
    cursor: Option<Seq<char>>,
) -> Result<Json, Seq<char>> {
    if provider.is_none() && model.is_none() {
        Err("at least one of --provider or --model is required"@)
    } else {
        let e0: Seq<(Seq<char>, Json)> = match provider {
            Some(p) => seq![("provider"@, Json::Str(p))],
            None => Seq::empty(),
        };
        let e1 = match model {
            Some(m) => e0.push(("model"@, Json::Str(m))),
            None => e0,
        };
        let e2 = match limit {
            Some(l) => e1.push(("limit"@, Json::Number(decimal(l as nat)))),
            None => e1,
        };
        let e3 = match cursor {
            Some(c) => e2.push(("cursor"@, Json::Str(c))),
            None => e2,
        };
        Ok(Json::Object(e3))
    }
}

/// The view of an optional string.
pub open spec fn opt_string(v: Option<String>) -> Option<Seq<char>> {
    match v {
        Some(s) => Some(s@),
        None => None,
    }
}

/// Builds the body of a model pricing query.
pub fn model_pricing_body(
    provider: Option<String>,
    model: Option<String>,
    limit: Option<u32>,
    cursor: Option<String>,
) -> (r: Result<JsonValue, String>)
    ensures
        match r {
            Ok(b) => model_pricing_spec(opt_string(provider), opt_string(model), limit, opt_string(cursor))
                == Ok::<Json, Seq<char>>(b@),
            Err(e) => model_pricing_spec(opt_string(provider), opt_string(model), limit, opt_string(cursor))
                == Err::<Json, Seq<char>>(e@),
        },
{
    if provider.is_none() && model.is_none() {
        return Err(owned("at least one of --provider or --model is required"));
    }
    let ghost pv = opt_string(provider);
    let ghost mv = opt_string(model);
    let ghost cv = opt_string(cursor);
    let mut e: Vec<(String, JsonValue)> = Vec::new();
    if let Some(p) = provider {
        e.push((owned("provider"), JsonValue::String(p)));
    }
    if let Some(m) = model {
        e.push((owned("model"), JsonValue::String(m)));
    }
    if let Some(l) = limit {
        e.push((owned("limit"), JsonValue::Number(u64_decimal(l as u64))));
    }
    if let Some(c) = cursor {
        e.push((owned("cursor"), JsonValue::String(c)));
    }
    proof {
        lemma_entries_view(e@);
        lemma_object_view(e);
    }
    assert(entries_view(e@) =~= model_pricing_spec(pv, mv, limit, cv)->Ok_0->Object_0);
    Ok(JsonValue::Object(e))
}

/// The body adding records to a dataset: the records must be a non-empty
/// array; `confirmed` says whether to insert (or only preview), and a
/// requested new version is passed on.
pub open spec fn records_add_spec(
    project_id: Seq<char>,
    dataset_id: Seq<char>,
    records: Json,
    confirm: bool,
    create_new_version: Option<bool>,
) -> Result<Json, Seq<char>> {
    match records {
        Json::Array(a) if a.len() > 0 => {
            let base = seq![
                ("project_id"@, Json::Str(project_id)),
                ("dataset_id"@, Json::Str(dataset_id)),
                ("records"@, records),
                ("confirmed"@, Json::Bool(confirm)),
            ];
            match create_new_version {
                Some(v) => Ok(Json::Object(base.push(("create_new_version"@, Json::Bool(v))))),
                None => Ok(Json::Object(base)),
            }
        },
        _ => Err("--file must contain a non-empty JSON array of records"@),
    }
}

/// Builds the body adding the records read from a file to a dataset.
pub fn records_add_body(
    project_id: &str,
    dataset_id: &str,
    records: JsonValue,
    confirm: bool,
    create_new_version: Option<bool>,
) -> (r: Result<JsonValue, String>)
    ensures
        match r {
            Ok(b) => records_add_spec(project_id@, dataset_id@, records@, confirm, create_new_version) == Ok::<
                Json,
                Seq<char>,
            >(b@),
            Err(e) => records_add_spec(project_id@, dataset_id@, records@, confirm, create_new_version) == Err::<
                Json,
                Seq<char>,
            >(e@),
        },
{
    let ok = match records.as_array() {
        Some(a) => {
            proof {
                lemma_items_view(a@);
            }
            a.len() > 0
        },
        None => false,
    };
    if !ok {
        return Err(owned("--file must contain a non-empty JSON array of records"));
    }
    let ghost rv = records@;
    let mut e: Vec<(String, JsonValue)> = Vec::new();
    e.push((owned("project_id"), JsonValue::String(owned(project_id))));
    e.push((owned("dataset_id"), JsonValue::String(owned(dataset_id))));
    e.push((owned("records"), records));
    e.push((owned("confirmed"), JsonValue::Bool(confirm)));
    if let Some(v) = create_new_version {
        e.push((owned("create_new_version"), JsonValue::Bool(v)));
    }
    proof {
        lemma_entries_view(e@);
        lemma_object_view(e);
    }
    assert(entries_view(e@) =~= records_add_spec(project_id@, dataset_id@, rv, confirm, create_new_version)->Ok_0->Object_0);
    Ok(JsonValue::Object(e))
}

// ---------------------------------------------------------------------------
// Span search
// ---------------------------------------------------------------------------

/// An entry for a text field that is given.
pub open spec fn text_entry(key: Seq<char>, v: Option<Seq<char>>) -> Seq<(Seq<char>, Json)> {
    match v {
        Some(x) => seq![(key, Json::Str(x))],
        None => Seq::empty(),
    }
}

/// Appends an entry for a text field that is given.
fn push_text_entry(e: &mut Vec<(String, JsonValue)>, key: &str, v: Option<String>)
    ensures
        entries_view(final(e)@) == entries_view(old(e)@) + text_entry(key@, opt_string(v)),
{
    let ghost before = e@;
    proof {
        lemma_entries_view(before);
    }
    match v {
        Some(x) => {
            e.push((owned(key), JsonValue::String(x)));
            proof {
                lemma_entries_view(e@);
            }
            assert(entries_view(e@) =~= entries_view(before) + text_entry(key@, opt_string(Some(x))));
        },
        None => {
            assert(entries_view(before) + text_entry(key@, None) =~= entries_view(before));
        },
    }
}

/// The filters of a span search, each optional.
pub struct SpanFilters {
    pub query: Option<String>,
    pub tags: Option<Vec<String>>,
    pub trace_id: Option<String>,
    pub apm_trace_id: Option<String>,
    pub span_id: Option<String>,
    pub span_kind: Option<String>,
    pub span_name: Option<String>,
    pub ml_app: Option<String>,
}

/// The view of optional tags.
pub open spec fn opt_tags(t: Option<Vec<String>>) -> Option<Seq<Seq<char>>> {
    match t {
        Some(v) => Some(views(v@)),
        None => None,
    }
}

/// The body of a span search: the limit, `root_spans_only` when set, the
/// filters that are given (tags as a `key:value` object), the window in
/// milliseconds as text and the cursor; or the first error, of the tags,
/// then of `--from`, then of `--to`.
pub open spec fn spans_body_spec(
    f: SpanFilters,
    root_spans_only: bool,
    from_ms: Result<i64, Seq<char>>,
    to_ms: Result<i64, Seq<char>>,
    limit: u32,
    cursor: Option<Seq<char>>,
) -> Result<Json, Seq<char>> {
    let tag_map: Result<Option<Seq<(Seq<char>, Json)>>, Seq<char>> = match opt_tags(f.tags) {
        Some(t) => match tag_filters_spec(t) {
            Ok(m) => Ok(Some(m)),
            Err(e) => Err(e),
        },
        None => Ok(None),
    };
    match tag_map {
        Err(e) => Err(e),
        Ok(tm) => match from_ms {
            Err(e) => Err("invalid --from value: "@ + e),
            Ok(fm) => match to_ms {
                Err(e) => Err("invalid --to value: "@ + e),
                Ok(tmv) => {
                    let e0 = seq![("limit"@, Json::Number(decimal(limit as nat)))] + if root_spans_only {
                        seq![("root_spans_only"@, Json::Bool(true))]
                    } else {
                        Seq::empty()
                    } + text_entry("query"@, opt_string(f.query)) + match tm {
                        Some(m) => seq![("tags"@, Json::Object(m))],
                        None => Seq::empty(),
                    } + text_entry("trace_id"@, opt_string(f.trace_id)) + text_entry(
                        "apm_trace_id"@,
                        opt_string(f.apm_trace_id),
                    ) + text_entry("span_id"@, opt_string(f.span_id)) + text_entry(
                        "span_kind"@,
                        opt_string(f.span_kind),
                    ) + text_entry("span_name"@, opt_string(f.span_name)) + text_entry(
                        "ml_app"@,
                        opt_string(f.ml_app),
                    ) + seq![
                        ("from"@, Json::Str(crate::text::decimal_int(fm as int))),
                        ("to"@, Json::Str(crate::text::decimal_int(tmv as int))),
                    ] + text_entry("cursor"@, cursor);
                    Ok(Json::Object(e0))
                },
            },
        },
    }
}

/// The view of optional object entries.
pub open spec fn opt_entries(o: Option<Vec<(String, JsonValue)>>) -> Option<Seq<(Seq<char>, Json)>> {
    match o {
        Some(m) => Some(entries_view(m@)),
        None => None,
    }
}

/// The view of a parse outcome.
pub open spec fn outcome_view(r: Result<i64, String>) -> Result<i64, Seq<char>> {
    match r {
        Ok(x) => Ok(x),
        Err(e) => Err(e@),
    }
}

/// Builds the body of a span search from its filters and the parsed
/// bounds of its window (milliseconds, or the parser's error).
pub fn spans_search_body(
    f: SpanFilters,
    root_spans_only: bool,
    from_ms: Result<i64, String>,
    to_ms: Result<i64, String>,
    limit: u32,
    cursor: Option<String>,
) -> (r: Result<JsonValue, String>)
    ensures
        match r {
            Ok(b) => spans_body_spec(f, root_spans_only, outcome_view(from_ms), outcome_view(to_ms), limit, opt_string(cursor))
                == Ok::<Json, Seq<char>>(b@),
            Err(e) => spans_body_spec(f, root_spans_only, outcome_view(from_ms), outcome_view(to_ms), limit, opt_string(cursor))
                == Err::<Json, Seq<char>>(e@),
        },
{
    let ghost fv = f;
    let ghost cv = opt_string(cursor);
    let SpanFilters { query, tags, trace_id, apm_trace_id, span_id, span_kind, span_name, ml_app } = f;
    let tag_map: Option<Vec<(String, JsonValue)>> = match tags {
        Some(t) => match parse_tag_filters(&t) {
            Ok(m) => Some(m),
            Err(e) => {
                return Err(e);
            },
        },
        None => None,
    };
    let fm = match from_ms {
        Err(e) => {
            let mut m = owned("invalid --from value: ");
            push_text(&mut m, e.as_str());
            return Err(m);
        },
        Ok(x) => x,
    };
    let tmv = match to_ms {
        Err(e) => {
            let mut m = owned("invalid --to value: ");
            push_text(&mut m, e.as_str());
            return Err(m);
        },
        Ok(x) => x,
    };
    let mut e: Vec<(String, JsonValue)> = Vec::new();
    e.push((owned("limit"), JsonValue::Number(u64_decimal(limit as u64))));
    if root_spans_only {
        e.push((owned("root_spans_only"), JsonValue::Bool(true)));
    }
    proof {
        lemma_entries_view(e@);
    }
    let ghost e_head = entries_view(e@);
    push_text_entry(&mut e, "query", query);
    let ghost e_q = entries_view(e@);
    let ghost tm_view = opt_entries(tag_map);
    match tag_map {
        Some(m) => {
            proof {
                lemma_object_view(m);
                lemma_entries_view(e@);
            }
            let ghost before = e@;
            e.push((owned("tags"), JsonValue::Object(m)));
            proof {
                lemma_entries_view(e@);
                lemma_entries_view(before);
            }
            assert(entries_view(e@) =~= entries_view(before).push(("tags"@, Json::Object(tm_view->0))));
        },
        None => {},
    }
    let ghost e_t = entries_view(e@);
    push_text_entry(&mut e, "trace_id", trace_id);
    push_text_entry(&mut e, "apm_trace_id", apm_trace_id);
    push_text_entry(&mut e, "span_id", span_id);
    push_text_entry(&mut e, "span_kind", span_kind);
    push_text_entry(&mut e, "span_name", span_name);
    push_text_entry(&mut e, "ml_app", ml_app);
    let ghost e_m = entries_view(e@);
    let ghost raw_m = e@;
    proof {
        lemma_entries_view(raw_m);
    }
    e.push((owned("from"), JsonValue::String(crate::text::i64_decimal(fm))));
    e.push((owned("to"), JsonValue::String(crate::text::i64_decimal(tmv))));
    proof {
        lemma_entries_view(e@);
    }
    let ghost e_w = entries_view(e@);
    push_text_entry(&mut e, "cursor", cursor);
    proof {
        lemma_object_view(e);
    }
    let ghost expect = spans_body_spec(fv, root_spans_only, outcome_view(from_ms), outcome_view(to_ms), limit, cv);
    assert(e_head =~= seq![("limit"@, Json::Number(decimal(limit as nat)))] + if root_spans_only {
        seq![("root_spans_only"@, Json::Bool(true))]
    } else {
        Seq::<(Seq<char>, Json)>::empty()
    });
    assert(match opt_tags(fv.tags) {
        Some(t) => tag_filters_spec(t) == Ok::<Seq<(Seq<char>, Json)>, Seq<char>>(tm_view->0),
        None => tm_view is None,
    });
    assert(e_t =~= e_q + match tm_view {
        Some(m) => seq![("tags"@, Json::Object(m))],
        None => Seq::<(Seq<char>, Json)>::empty(),
    });
    assert(e_q == e_head + text_entry("query"@, opt_string(fv.query)));
    assert(e_m == e_t + text_entry("trace_id"@, opt_string(fv.trace_id)) + text_entry(
        "apm_trace_id"@,
        opt_string(fv.apm_trace_id),
    ) + text_entry("span_id"@, opt_string(fv.span_id)) + text_entry("span_kind"@, opt_string(fv.span_kind))
        + text_entry("span_name"@, opt_string(fv.span_name)) + text_entry("ml_app"@, opt_string(fv.ml_app)));
    assert(e_w =~= e_m + seq![
        ("from"@, Json::Str(crate::text::decimal_int(fm as int))),
        ("to"@, Json::Str(crate::text::decimal_int(tmv as int))),
    ]);
    assert(entries_view(e@) == e_w + text_entry("cursor"@, cv));
    assert(expect is Ok);
    assert(entries_view(e@) =~= expect->Ok_0->Object_0);
    Ok(JsonValue::Object(e))
}

/// The fields a span summary keeps, in order.
pub const SPAN_SUMMARY_FIELDS: [&'static str; 11] = [
    "span_id",
    "trace_id",
    "apm_trace_id",
    "name",
    "span_kind",
    "ml_app",
    "service",
    "status",
    "duration_ms",
    "start_ms",
    "parent_id",
];

/// A span cut down to the summary fields (`null` where a span lacks one).
pub open spec fn span_slim(sp: Json) -> Json {
    Json::Object(
        crate::text::str_views(SPAN_SUMMARY_FIELDS@).map_values(|k: Seq<char>| (k, crate::json::member(sp, k))),
    )
}

/// The summary of a span search: `{"spans": [...]}` with each span cut
/// down to the summary fields; no spans where the response has no array.
pub open spec fn span_summary_spec(resp: Json) -> Json {
    Json::Object(
        seq![
            (
                "spans"@,
                Json::Array(
                    match crate::json::member(resp, "spans"@) {
                        Json::Array(a) => a.map_values(|sp: Json| span_slim(sp)),
                        _ => Seq::empty(),
                    },
                ),
            ),
        ],
    )
}

/// One span cut down to the summary fields.
#[verifier::spinoff_prover]
fn slim_span(sp: &JsonValue) -> (r: JsonValue)
    ensures
        r@ == span_slim(sp@),
{
    let ghost keys = crate::text::str_views(SPAN_SUMMARY_FIELDS@);
    let mut e: Vec<(String, JsonValue)> = Vec::new();
    let mut i: usize = 0;
    while i < SPAN_SUMMARY_FIELDS.len()
        invariant
            i <= SPAN_SUMMARY_FIELDS@.len(),
            keys == crate::text::str_views(SPAN_SUMMARY_FIELDS@),
            keys.len() == SPAN_SUMMARY_FIELDS@.len(),
            e.len() == i,
            forall|j: int| 0 <= j < i ==> #[trigger] e@[j].0@ == keys[j] && e@[j].1@ == crate::json::member(sp@, keys[j]),
        decreases SPAN_SUMMARY_FIELDS@.len() - i,
    {
        let k: &str = SPAN_SUMMARY_FIELDS[i];
        assert(keys[i as int] == k@);
        let v = match crate::json::member_of(sp, k) {
            Some(x) => x.deep_clone(),
            None => {
                assert(JsonValue::Null@ == Json::Null);
                JsonValue::Null
            },
        };
        assert(v@ == crate::json::member(sp@, keys[i as int]));
        let ghost before = e@;
        e.push((owned(k), v));
        assert(forall|j: int| 0 <= j < i ==> e@[j] == before[j]);
        assert(e@[i as int].0@ == keys[i as int]);
        assert(e@[i as int].1@ == crate::json::member(sp@, keys[i as int]));
        i = i + 1;
    }
    proof {
        lemma_entries_view(e@);
        lemma_object_view(e);
    }
    assert(entries_view(e@) =~= keys.map_values(|k: Seq<char>| (k, crate::json::member(sp@, k))));
    JsonValue::Object(e)
}

/// Cuts the spans of a search response down to the summary fields.
pub fn span_summary(resp: &JsonValue) -> (r: JsonValue)
    ensures
        r@ == span_summary_spec(resp@),
{
    let mut slim: Vec<JsonValue> = Vec::new();
    match crate::json::array_member(resp, "spans") {
        Some(spans) => {
            proof {
                lemma_items_view(spans@);
            }
            let ghost sv = items_view(spans@);
            let mut i: usize = 0;
            while i < spans.len()
                invariant
                    i <= spans.len(),
                    sv == items_view(spans@),
                    sv.len() == spans.len(),
                    forall|j: int| 0 <= j < spans.len() ==> #[trigger] sv[j] == spans@[j]@,
                    slim.len() == i,
                    forall|j: int| 0 <= j < i ==> #[trigger] slim@[j]@ == span_slim(sv[j]),
                decreases spans.len() - i,
            {
                slim.push(slim_span(&spans[i]));
                i = i + 1;
            }
            proof {
                lemma_items_view(slim@);
            }
            assert(items_view(slim@) =~= sv.map_values(|sp: Json| span_slim(sp)));
        },
        None => {
            assert(items_view(slim@) =~= Seq::<Json>::empty());
        },
    }
    proof {
        crate::json::lemma_array_view(slim);
    }
    let mut top: Vec<(String, JsonValue)> = Vec::new();
    top.push((owned("spans"), JsonValue::Array(slim)));
    proof {
        lemma_entries_view(top@);
        lemma_object_view(top);
    }
    assert(entries_view(top@) =~= span_summary_spec(resp@)->Object_0);
    JsonValue::Object(top)
}

// ---------------------------------------------------------------------------
// Paging through the records of a dataset
// ---------------------------------------------------------------------------

/// The most pages read when listing every record of a dataset.
pub const RECORDS_ALL_MAX_PAGES: u32 = 200;

/// What to do after reading a page of records.
pub enum PageOutcome {
    /// Ask for the next page.
    More,
    /// The listing is complete.
    Done,
    /// The page cap was reached; the warning says so.
    Capped(String),
}

/// The state of a listing of every record: the cursor of the next page,
/// the pages read and the records gathered.
pub struct RecordsPager {
    pub cursor: String,
    pub pages: u32,
    pub records: Vec<JsonValue>,
}

/// The page of records in a response, where it is a non-empty array.
pub open spec fn page_records(resp: Json) -> Option<Seq<Json>> {
    match crate::json::member(resp, "data"@) {
        Json::Array(a) if a.len() > 0 => Some(a),
        _ => None,
    }
}

/// The cursor after a page (`meta.after`), empty where there is none.
pub open spec fn page_after(resp: Json) -> Seq<char> {
    match crate::json::member(crate::json::member(resp, "meta"@), "after"@) {
        Json::Str(a) => a,
        _ => Seq::empty(),
    }
}

/// The query of the next page: its size (100 unless given) and the cursor
/// once there is one.
pub open spec fn page_query_spec(limit: Option<u32>, cursor: Seq<char>) -> Seq<(Seq<char>, Seq<char>)> {
    let size: nat = match limit {
        Some(l) => l as nat,
        None => 100,
    };
    seq![("page[limit]"@, decimal(size))] + if cursor.len() > 0 {
        seq![("page[cursor]"@, cursor)]
    } else {
        Seq::empty()
    }
}

/// The warning when the page cap stops a listing.
pub open spec fn cap_warning(pages: u32, records: nat) -> Seq<char> {
    "warning: stopped after "@ + decimal(pages as nat) + " pages ("@ + decimal(records)
        + " records); the dataset may have more"@
}

impl RecordsPager {
    /// No page read yet.
    pub fn new() -> (p: RecordsPager)
        ensures
            p.cursor@ == Seq::<char>::empty(),
            p.pages == 0,
            p.records@.len() == 0,
    {
        RecordsPager { cursor: String::new(), pages: 0, records: Vec::new() }
    }

    /// The query of the next page.
    pub fn page_query(&self, limit: Option<u32>) -> (q: Vec<(String, String)>)
        ensures
            q@.map_values(|p: (String, String)| (p.0@, p.1@)) == page_query_spec(limit, self.cursor@),
    {
        let size: u32 = match limit {
            Some(l) => l,
            None => 100,
        };
        let mut q: Vec<(String, String)> = Vec::new();
        q.push((owned("page[limit]"), u64_decimal(size as u64)));
        if !self.cursor.as_str().is_empty() {
            q.push((owned("page[cursor]"), self.cursor.clone()));
        }
        assert(q@.map_values(|p: (String, String)| (p.0@, p.1@)) =~= page_query_spec(limit, self.cursor@));
        q
    }

    /// Reads a page: gathers its records and decides whether to go on. An
    /// empty page ends the listing, as does a missing or unchanged cursor;
    /// the page cap stops it with a warning.
    pub fn take_page(&mut self, resp: &JsonValue) -> (r: PageOutcome)
        requires
            old(self).pages < RECORDS_ALL_MAX_PAGES,
        ensures
            final(self).pages == old(self).pages + 1,
            match page_records(resp@) {
                None => {
                    &&& r is Done
                    &&& items_view(final(self).records@) == items_view(old(self).records@)
                    &&& final(self).cursor@ == old(self).cursor@
                },
                Some(page) => {
                    let after = page_after(resp@);
                    &&& items_view(final(self).records@) == items_view(old(self).records@) + page
                    &&& if after.len() == 0 || after == old(self).cursor@ {
                        r is Done && final(self).cursor@ == old(self).cursor@
                    } else {
                        &&& final(self).cursor@ == after
                        &&& if final(self).pages >= RECORDS_ALL_MAX_PAGES {
                            r matches PageOutcome::Capped(w) && w@ == cap_warning(
                                final(self).pages,
                                final(self).records@.len(),
                            )
                        } else {
                            r is More
                        }
                    }
                },
            },
    {
        self.pages = self.pages + 1;
        let page = match crate::json::array_member(resp, "data") {
            Some(a) => {
                if a.len() == 0 {
                    return PageOutcome::Done;
                }
                a
            },
            None => {
                return PageOutcome::Done;
            },
        };
        proof {
            lemma_items_view(page@);
        }
        let ghost before = self.records@;
        let ghost pv = items_view(page@);
        assert(page_records(resp@) == Some(pv));
        proof {
            lemma_items_view(before);
        }
        let mut i: usize = 0;
        while i < page.len()
            invariant
                i <= page.len(),
                pv == items_view(page@),
                pv.len() == page.len(),
                forall|j: int| 0 <= j < page.len() ==> #[trigger] pv[j] == page@[j]@,
                items_view(self.records@) == items_view(before) + pv.subrange(0, i as int),
                self.pages == old(self).pages + 1,
                self.cursor@ == old(self).cursor@,
                before == old(self).records@,
                page_records(resp@) == Some(pv),
            decreases page.len() - i,
        {
            let ghost prev = self.records@;
            self.records.push(page[i].deep_clone());
            proof {
                lemma_items_view(prev);
                lemma_items_view(self.records@);
                assert(items_view(self.records@) =~= items_view(prev).push(pv[i as int]));
                assert(pv.subrange(0, i + 1) =~= pv.subrange(0, i as int).push(pv[i as int]));
            }
            i = i + 1;
        }
        assert(pv.subrange(0, page.len() as int) =~= pv);
        let after: String = match crate::json::member_of(resp, "meta") {
            Some(m) => match crate::json::str_member(m, "after") {
                Some(a) => a.clone(),
                None => String::new(),
            },
            None => {
                proof {
                    crate::json::lemma_member_null("after"@);
                }
                String::new()
            },
        };
        if after.as_str().is_empty() || crate::text::text_eq(after.as_str(), self.cursor.as_str()) {
            return PageOutcome::Done;
        }
        self.cursor = after;
        if self.pages >= RECORDS_ALL_MAX_PAGES {
            let mut w = owned("warning: stopped after ");
            let p = u64_decimal(self.pages as u64);
            push_text(&mut w, p.as_str());
            push_text(&mut w, " pages (");
            let n = u64_decimal(self.records.len() as u64);
            push_text(&mut w, n.as_str());
            push_text(&mut w, " records); the dataset may have more");
            return PageOutcome::Capped(w);
        }
        PageOutcome::More
    }

    /// The full list of a dataset's records, as the command prints it.
    pub fn full_list(&self, dataset_id: &str) -> (r: JsonValue)
        ensures
            r@ == Json::Object(
                seq![
                    ("dataset_id"@, Json::Str(dataset_id@)),
                    ("kind"@, Json::Str("full_list"@)),
                    ("records"@, Json::Array(items_view(self.records@))),
                    ("returned"@, Json::Number(decimal(self.records@.len()))),
                    ("truncated"@, Json::Bool(false)),
                    ("pages_fetched"@, Json::Number(decimal(self.pages as nat))),
                ],
            ),
    {
        let mut copies: Vec<JsonValue> = Vec::new();
        let mut i: usize = 0;
        proof {
            lemma_items_view(self.records@);
        }
        while i < self.records.len()
            invariant
                i <= self.records.len(),
                copies.len() == i,
                forall|j: int| 0 <= j < i ==> #[trigger] copies@[j]@ == self.records@[j]@,
            decreases self.records.len() - i,
        {
            copies.push(self.records[i].deep_clone());
            i = i + 1;
        }
        proof {
            lemma_items_view(copies@);
            lemma_items_view(self.records@);
        }
        assert(items_view(copies@) =~= items_view(self.records@));
        proof {
            crate::json::lemma_array_view(copies);
        }
        let mut e: Vec<(String, JsonValue)> = Vec::new();
        e.push((owned("dataset_id"), JsonValue::String(owned(dataset_id))));
        e.push((owned("kind"), JsonValue::String(owned("full_list"))));
        e.push((owned("records"), JsonValue::Array(copies)));
        e.push((owned("returned"), JsonValue::Number(u64_decimal(self.records.len() as u64))));
        e.push((owned("truncated"), JsonValue::Bool(false)));
        e.push((owned("pages_fetched"), JsonValue::Number(u64_decimal(self.pages as u64))));
        proof {
            lemma_entries_view(e@);
            lemma_object_view(e);
        }
        let ghost expect = seq![
            ("dataset_id"@, Json::Str(dataset_id@)),
            ("kind"@, Json::Str("full_list"@)),
            ("records"@, Json::Array(items_view(self.records@))),
            ("returned"@, Json::Number(decimal(self.records@.len()))),
            ("truncated"@, Json::Bool(false)),
            ("pages_fetched"@, Json::Number(decimal(self.pages as nat))),
        ];
        assert(entries_view(e@) =~= expect);
        JsonValue::Object(e)
    }
}

// ---------------------------------------------------------------------------
// Agent insights
// ---------------------------------------------------------------------------

/// The body of an agent-insight listing: the filters that are given, in
/// order; a status must be a known one.
pub open spec fn insights_list_spec(
    ml_app: Option<Seq<char>>,
    status: Option<Seq<char>>,
    insight_type: Option<Seq<char>>,
    limit: Option<u32>,
    cursor: Option<Seq<char>>,
) -> Result<Json, Seq<char>> {
    let checked: Result<(), Seq<char>> = match status {
        Some(st) => choice_spec("--status"@, st, str_views(AGENT_INSIGHT_STATUSES@)),
        None => Ok(()),
    };
    match checked {
        Err(e) => Err(e),
        Ok(_) => Ok(
            Json::Object(
                text_entry("ml_app"@, ml_app) + text_entry("status"@, status) + text_entry(
                    "insight_type"@,
                    insight_type,
                ) + match limit {
                    Some(l) => seq![("limit"@, Json::Number(decimal(l as nat)))],
                    None => Seq::empty(),
                } + text_entry("cursor"@, cursor),
            ),
        ),
    }
}

/// Builds the body of an agent-insight listing.
pub fn insights_list_body(
    ml_app: Option<String>,
    status: Option<String>,
    insight_type: Option<String>,
    limit: Option<u32>,
    cursor: Option<String>,
) -> (r: Result<JsonValue, String>)
    ensures
        match r {
            Ok(b) => insights_list_spec(opt_string(ml_app), opt_string(status), opt_string(insight_type), limit, opt_string(cursor))
                == Ok::<Json, Seq<char>>(b@),
            Err(e) => insights_list_spec(opt_string(ml_app), opt_string(status), opt_string(insight_type), limit, opt_string(cursor))
                == Err::<Json, Seq<char>>(e@),
        },
{
    match &status {
        Some(st) => {
            match validate_choice("--status", st.as_str(), &AGENT_INSIGHT_STATUSES) {
                Err(e) => {
                    return Err(e);
                },
                Ok(_) => {},
            }
        },
        None => {},
    }
    let mut e: Vec<(String, JsonValue)> = Vec::new();
    assert(entries_view(e@) =~= Seq::<(Seq<char>, Json)>::empty());
    push_text_entry(&mut e, "ml_app", ml_app);
    push_text_entry(&mut e, "status", status);
    push_text_entry(&mut e, "insight_type", insight_type);
    let ghost before = e@;
    proof {
        lemma_entries_view(before);
    }
    match limit {
        Some(l) => {
            e.push((owned("limit"), JsonValue::Number(u64_decimal(l as u64))));
        },
        None => {},
    }
    proof {
        lemma_entries_view(e@);
    }
    assert(entries_view(e@) =~= entries_view(before) + match limit {
        Some(l) => seq![("limit"@, Json::Number(decimal(l as nat)))],
        None => Seq::<(Seq<char>, Json)>::empty(),
    });
    push_text_entry(&mut e, "cursor", cursor);
    proof {
        lemma_object_view(e);
    }
    Ok(JsonValue::Object(e))
}

// ---------------------------------------------------------------------------
// Dataset records and experiment events
// ---------------------------------------------------------------------------

/// An entry for a list of texts that is given.
pub open spec fn list_entry(key: Seq<char>, v: Option<Seq<Seq<char>>>) -> Seq<(Seq<char>, Json)> {
    match v {
        Some(x) => seq![(key, Json::Array(crate::json::str_items(x)))],
        None => Seq::empty(),
    }
}

/// Appends an entry for a list of texts that is given.
fn push_list_entry(e: &mut Vec<(String, JsonValue)>, key: &str, v: Option<Vec<String>>)
    ensures
        entries_view(final(e)@) == entries_view(old(e)@) + list_entry(key@, opt_tags(v)),
{
    let ghost before = e@;
    proof {
        lemma_entries_view(before);
    }
    match v {
        Some(x) => {
            let a = crate::json::string_array(&x);
            e.push((owned(key), a));
            proof {
                lemma_entries_view(e@);
            }
            assert(entries_view(e@) =~= entries_view(before) + list_entry(key@, Some(views(x@))));
        },
        None => {
            assert(entries_view(before) + list_entry(key@, None) =~= entries_view(before));
        },
    }
}

/// Appends an entry.
fn push_entry(e: &mut Vec<(String, JsonValue)>, key: &str, v: JsonValue)
    ensures
        entries_view(final(e)@) == entries_view(old(e)@).push((key@, v@)),
{
    let ghost before = e@;
    proof {
        lemma_entries_view(before);
    }
    e.push((owned(key), v));
    proof {
        lemma_entries_view(e@);
    }
    assert(entries_view(e@) =~= entries_view(before).push((key@, v@)));
}

/// The optional filters of a dataset record query.
pub struct RecordQuery {
    pub record_ids: Option<Vec<String>>,
    pub tags: Option<Vec<String>>,
    pub canonical_id: Option<String>,
    pub dataset_version: Option<i64>,
    pub cursor: Option<String>,
    pub compute_schema: Option<bool>,
}

/// The body of a dataset record query: project, dataset and limit, then
/// the filters that are given.
pub open spec fn records_query_spec(project_id: Seq<char>, dataset_id: Seq<char>, limit: u32, q: RecordQuery) -> Json {
    Json::Object(
        seq![
            ("project_id"@, Json::Str(project_id)),
            ("dataset_id"@, Json::Str(dataset_id)),
            ("limit"@, Json::Number(decimal(limit as nat))),
        ] + list_entry("record_ids"@, opt_tags(q.record_ids)) + list_entry("tags"@, opt_tags(q.tags)) + text_entry(
            "canonical_id"@,
            opt_string(q.canonical_id),
        ) + match q.dataset_version {
            Some(v) => seq![("dataset_version"@, Json::Number(crate::text::decimal_int(v as int)))],
            None => Seq::empty(),
        } + text_entry("cursor"@, opt_string(q.cursor)) + match q.compute_schema {
            Some(b) => seq![("compute_schema"@, Json::Bool(b))],
            None => Seq::empty(),
        },
    )
}

/// Builds the body of a dataset record query.
pub fn records_query_body(project_id: &str, dataset_id: &str, limit: u32, q: RecordQuery) -> (r: JsonValue)
    ensures
        r@ == records_query_spec(project_id@, dataset_id@, limit, q),
{
    let ghost qv = q;
    let RecordQuery { record_ids, tags, canonical_id, dataset_version, cursor, compute_schema } = q;
    let mut e: Vec<(String, JsonValue)> = Vec::new();
    assert(entries_view(e@) =~= Seq::<(Seq<char>, Json)>::empty());
    push_entry(&mut e, "project_id", JsonValue::String(owned(project_id)));
    push_entry(&mut e, "dataset_id", JsonValue::String(owned(dataset_id)));
    push_entry(&mut e, "limit", JsonValue::Number(u64_decimal(limit as u64)));
    let ghost e0 = entries_view(e@);
    push_list_entry(&mut e, "record_ids", record_ids);
    push_list_entry(&mut e, "tags", tags);
    push_text_entry(&mut e, "canonical_id", canonical_id);
    let ghost e1 = entries_view(e@);
    match dataset_version {
        Some(v) => push_entry(&mut e, "dataset_version", JsonValue::Number(crate::text::i64_decimal(v))),
        None => {},
    }
    let ghost e2 = entries_view(e@);
    assert(e2 =~= e1 + match dataset_version {
        Some(v) => seq![("dataset_version"@, Json::Number(crate::text::decimal_int(v as int)))],
        None => Seq::<(Seq<char>, Json)>::empty(),
    });
    push_text_entry(&mut e, "cursor", cursor);
    let ghost e3 = entries_view(e@);
    match compute_schema {
        Some(b) => push_entry(&mut e, "compute_schema", JsonValue::Bool(b)),
        None => {},
    }
    assert(entries_view(e@) =~= e3 + match compute_schema {
        Some(b) => seq![("compute_schema"@, Json::Bool(b))],
        None => Seq::<(Seq<char>, Json)>::empty(),
    });
    proof {
        lemma_object_view(e);
    }
    assert(entries_view(e@) =~= records_query_spec(project_id@, dataset_id@, limit, qv)->Object_0);
    JsonValue::Object(e)
}

/// The optional filters and sort of an experiment event listing.
pub struct EventQuery {
    pub filter_dimension_key: Option<String>,
    pub filter_dimension_value: Option<String>,
    pub filter_metric_label: Option<String>,
    pub sort_by_metric: Option<String>,
}

/// The body of an experiment event listing: experiment, paging and sort
/// direction, then the filters that are given; the metric to sort by goes
/// under `sort_by_metric_label`.
pub open spec fn events_query_spec(
    experiment_id: Seq<char>,
    limit: u32,
    offset: u32,
    sort_direction: Seq<char>,
    q: EventQuery,
) -> Json {
    Json::Object(
        seq![
            ("experiment_id"@, Json::Str(experiment_id)),
            ("limit"@, Json::Number(decimal(limit as nat))),
            ("offset"@, Json::Number(decimal(offset as nat))),
            ("sort_direction"@, Json::Str(sort_direction)),
        ] + text_entry("filter_dimension_key"@, opt_string(q.filter_dimension_key)) + text_entry(
            "filter_dimension_value"@,
            opt_string(q.filter_dimension_value),
        ) + text_entry("filter_metric_label"@, opt_string(q.filter_metric_label)) + text_entry(
            "sort_by_metric_label"@,
            opt_string(q.sort_by_metric),
        ),
    )
}

/// Builds the body of an experiment event listing.
pub fn events_query_body(experiment_id: &str, limit: u32, offset: u32, sort_direction: &str, q: EventQuery) -> (r:
    JsonValue)
    ensures
        r@ == events_query_spec(experiment_id@, limit, offset, sort_direction@, q),
{
    let ghost qv = q;
    let EventQuery { filter_dimension_key, filter_dimension_value, filter_metric_label, sort_by_metric } = q;
    let mut e: Vec<(String, JsonValue)> = Vec::new();
    assert(entries_view(e@) =~= Seq::<(Seq<char>, Json)>::empty());
    push_entry(&mut e, "experiment_id", JsonValue::String(owned(experiment_id)));
    push_entry(&mut e, "limit", JsonValue::Number(u64_decimal(limit as u64)));
    push_entry(&mut e, "offset", JsonValue::Number(u64_decimal(offset as u64)));
    push_entry(&mut e, "sort_direction", JsonValue::String(owned(sort_direction)));
    push_text_entry(&mut e, "filter_dimension_key", filter_dimension_key);
    push_text_entry(&mut e, "filter_dimension_value", filter_dimension_value);
    push_text_entry(&mut e, "filter_metric_label", filter_metric_label);
    push_text_entry(&mut e, "sort_by_metric_label", sort_by_metric);
    proof {
        lemma_object_view(e);
    }
    assert(entries_view(e@) =~= events_query_spec(experiment_id@, limit, offset, sort_direction@, qv)->Object_0);
    JsonValue::Object(e)
}

// ---------------------------------------------------------------------------
// Reading one trace
// ---------------------------------------------------------------------------

/// A tool that reads one trace, with the arguments of its own.
pub enum TraceTool {
    /// The whole trace, with its span tree when `include_tree` is set.
    GetTrace { include_tree: bool },
    /// The details of the given spans.
    SpanDetails { span_ids: Vec<String> },
    /// One field of one span, optionally at a path and cut to a number of tokens.
    SpanContent { span_id: String, field: String, path: Option<String>, max_tokens: Option<u32> },
    /// The spans of the trace that failed.
    FindErrorSpans,
    /// The subtrees under the given spans.
    ExpandSpans { span_ids: Vec<String>, max_depth: Option<u32>, filter_kind: Option<String> },
    /// The agent loop of the trace, or of one span of it.
    AgentLoop { loop_span_id: Option<String>, max_content_length: Option<u32> },
}

/// An entry for a numeric field that is given.
pub open spec fn num_entry(key: Seq<char>, v: Option<u32>) -> Seq<(Seq<char>, Json)> {
    match v {
        Some(n) => seq![(key, Json::Number(decimal(n as nat)))],
        None => Seq::empty(),
    }
}

/// The fields that a tool adds after `trace_id`, in order.
pub open spec fn trace_tool_fields(t: TraceTool) -> Seq<(Seq<char>, Json)> {
    match t {
        TraceTool::GetTrace { include_tree } => if include_tree {
            seq![("include_tree"@, Json::Bool(true))]
        } else {
            Seq::empty()
        },
        TraceTool::SpanDetails { span_ids } => seq![("span_ids"@, Json::Array(str_items(views(span_ids@))))],
        TraceTool::SpanContent { span_id, field, path, max_tokens } => seq![
            ("span_id"@, Json::Str(span_id@)),
            ("field"@, Json::Str(field@)),
        ] + text_entry("path"@, opt_string(path)) + num_entry("max_tokens"@, max_tokens),
        TraceTool::FindErrorSpans => Seq::empty(),
        TraceTool::ExpandSpans { span_ids, max_depth, filter_kind } => seq![
            ("span_ids"@, Json::Array(str_items(views(span_ids@)))),
        ] + num_entry("max_depth"@, max_depth) + text_entry("filter_kind"@, opt_string(filter_kind)),
        TraceTool::AgentLoop { loop_span_id, max_content_length } => text_entry("span_id"@, opt_string(loop_span_id))
            + num_entry("max_content_length"@, max_content_length),
    }
}

/// The body of a trace tool's request: `trace_id`, the tool's fields, and
/// the window in milliseconds as text; or the error of `--from`, then of
/// `--to`.
pub open spec fn trace_tool_body_spec(
    t: TraceTool,
    trace_id: Seq<char>,
    from_ms: Result<i64, Seq<char>>,
    to_ms: Result<i64, Seq<char>>,
) -> Result<Json, Seq<char>> {
    match from_ms {
        Err(e) => Err("invalid --from value: "@ + e),
        Ok(fm) => match to_ms {
            Err(e) => Err("invalid --to value: "@ + e),
            Ok(tm) => Ok(
                Json::Object(
                    seq![("trace_id"@, Json::Str(trace_id))] + trace_tool_fields(t) + seq![
                        ("from"@, Json::Str(crate::text::decimal_int(fm as int))),
                        ("to"@, Json::Str(crate::text::decimal_int(tm as int))),
                    ],
                ),
            ),
        },
    }
}

/// Appends an entry for a numeric field that is given.
fn push_num_entry(e: &mut Vec<(String, JsonValue)>, key: &str, v: Option<u32>)
    ensures
        entries_view(final(e)@) == entries_view(old(e)@) + num_entry(key@, v),
{
    let ghost before = e@;
    proof {
        lemma_entries_view(before);
    }
    match v {
        Some(n) => {
            push_entry(e, key, JsonValue::Number(u64_decimal(n as u64)));
            assert(entries_view(e@) =~= entries_view(before) + num_entry(key@, v));
        },
        None => {
            assert(entries_view(before) + num_entry(key@, None) =~= entries_view(before));
        },
    }
}

/// Appends the fields of a trace tool.
fn push_trace_tool_fields(e: &mut Vec<(String, JsonValue)>, t: &TraceTool)
    ensures
        entries_view(final(e)@) == entries_view(old(e)@) + trace_tool_fields(*t),
{
    let ghost before = entries_view(e@);
    match t {
        TraceTool::GetTrace { include_tree } => {
            if *include_tree {
                push_entry(e, "include_tree", JsonValue::Bool(true));
            }
            assert(entries_view(e@) =~= before + trace_tool_fields(*t));
        },
        TraceTool::SpanDetails { span_ids } => {
            push_entry(e, "span_ids", string_array(span_ids));
            assert(entries_view(e@) =~= before + trace_tool_fields(*t));
        },
        TraceTool::SpanContent { span_id, field, path, max_tokens } => {
            push_entry(e, "span_id", JsonValue::String(span_id.clone()));
            push_entry(e, "field", JsonValue::String(field.clone()));
            let ghost mid = entries_view(e@);
            push_text_entry(e, "path", path.clone());
            push_num_entry(e, "max_tokens", *max_tokens);
            assert(mid =~= before + seq![("span_id"@, Json::Str(span_id@)), ("field"@, Json::Str(field@))]);
            assert(entries_view(e@) =~= before + trace_tool_fields(*t));
        },
        TraceTool::FindErrorSpans => {
            assert(entries_view(e@) =~= before + trace_tool_fields(*t));
        },
        TraceTool::ExpandSpans { span_ids, max_depth, filter_kind } => {
            push_entry(e, "span_ids", string_array(span_ids));
            push_num_entry(e, "max_depth", *max_depth);
            push_text_entry(e, "filter_kind", filter_kind.clone());
            assert(entries_view(e@) =~= before + trace_tool_fields(*t));
        },
        TraceTool::AgentLoop { loop_span_id, max_content_length } => {
            push_text_entry(e, "span_id", loop_span_id.clone());
            push_num_entry(e, "max_content_length", *max_content_length);
            assert(entries_view(e@) =~= before + trace_tool_fields(*t));
        },
    }
}

/// Builds the body of a trace tool's request from its arguments and the
/// parsed bounds of its window (milliseconds, or the parser's error).
pub fn trace_tool_body(
    tool: &TraceTool,
    trace_id: &str,
    from_ms: Result<i64, String>,
    to_ms: Result<i64, String>,
) -> (r: Result<JsonValue, String>)
    ensures
        match r {
            Ok(b) => trace_tool_body_spec(*tool, trace_id@, outcome_view(from_ms), outcome_view(to_ms))
                == Ok::<Json, Seq<char>>(b@),
            Err(e) => trace_tool_body_spec(*tool, trace_id@, outcome_view(from_ms), outcome_view(to_ms))
                == Err::<Json, Seq<char>>(e@),
        },
{
    let fm = match from_ms {
        Err(e) => {
            let mut m = owned("invalid --from value: ");
            push_text(&mut m, e.as_str());
            return Err(m);
        },
        Ok(x) => x,
    };
    let tm = match to_ms {
        Err(e) => {
            let mut m = owned("invalid --to value: ");
            push_text(&mut m, e.as_str());
            return Err(m);
        },
        Ok(x) => x,
    };
    let mut e: Vec<(String, JsonValue)> = Vec::new();
    assert(entries_view(e@) =~= Seq::<(Seq<char>, Json)>::empty());
    push_entry(&mut e, "trace_id", JsonValue::String(owned(trace_id)));
    let ghost head = entries_view(e@);
    push_trace_tool_fields(&mut e, tool);
    let ghost mid = entries_view(e@);
    push_entry(&mut e, "from", JsonValue::String(crate::text::i64_decimal(fm)));
    push_entry(&mut e, "to", JsonValue::String(crate::text::i64_decimal(tm)));
    proof {
        lemma_object_view(e);
    }
    assert(head =~= seq![("trace_id"@, Json::Str(trace_id@))]);
    assert(entries_view(e@) =~= trace_tool_body_spec(*tool, trace_id@, outcome_view(from_ms), outcome_view(to_ms))->Ok_0->Object_0);
    Ok(JsonValue::Object(e))
}

/// The path that a trace tool posts to.
pub open spec fn trace_tool_path_spec(t: TraceTool) -> Seq<char> {
    match t {
        TraceTool::GetTrace { .. } => "/api/unstable/llm-obs-mcp/v1/trace/get-trace"@,
        TraceTool::SpanDetails { .. } => "/api/unstable/llm-obs-mcp/v1/trace/span-details"@,
        TraceTool::SpanContent { .. } => "/api/unstable/llm-obs-mcp/v1/trace/span-content"@,
        TraceTool::FindErrorSpans => "/api/unstable/llm-obs-mcp/v1/trace/find-error-spans"@,
        TraceTool::ExpandSpans { .. } => "/api/unstable/llm-obs-mcp/v1/trace/expand-spans"@,
        TraceTool::AgentLoop { .. } => "/api/unstable/llm-obs-mcp/v1/trace/get-agent-loop"@,
    }
}

/// The path that a trace tool posts to.
pub fn trace_tool_path(tool: &TraceTool) -> (r: &'static str)
    ensures
        r@ == trace_tool_path_spec(*tool),
{
    match tool {
        TraceTool::GetTrace { .. } => "/api/unstable/llm-obs-mcp/v1/trace/get-trace",
        TraceTool::SpanDetails { .. } => "/api/unstable/llm-obs-mcp/v1/trace/span-details",
        TraceTool::SpanContent { .. } => "/api/unstable/llm-obs-mcp/v1/trace/span-content",
        TraceTool::FindErrorSpans => "/api/unstable/llm-obs-mcp/v1/trace/find-error-spans",
        TraceTool::ExpandSpans { .. } => "/api/unstable/llm-obs-mcp/v1/trace/expand-spans",
        TraceTool::AgentLoop { .. } => "/api/unstable/llm-obs-mcp/v1/trace/get-agent-loop",
    }
}

/// What a trace tool says failed, before the error itself.
pub open spec fn trace_tool_failure_spec(t: TraceTool) -> Seq<char> {
    match t {
        TraceTool::GetTrace { .. } => "failed to get trace"@,
        TraceTool::SpanDetails { .. } => "failed to get span details"@,
        TraceTool::SpanContent { .. } => "failed to get span content"@,
        TraceTool::FindErrorSpans => "failed to find error spans"@,
        TraceTool::ExpandSpans { .. } => "failed to expand spans"@,
        TraceTool::AgentLoop { .. } => "failed to get agent loop"@,
    }
}

/// What a trace tool says failed, before the error itself.
pub fn trace_tool_failure(tool: &TraceTool) -> (r: &'static str)
    ensures
        r@ == trace_tool_failure_spec(*tool),
{
    match tool {
        TraceTool::GetTrace { .. } => "failed to get trace",
        TraceTool::SpanDetails { .. } => "failed to get span details",
        TraceTool::SpanContent { .. } => "failed to get span content",
        TraceTool::FindErrorSpans => "failed to find error spans",
        TraceTool::ExpandSpans { .. } => "failed to expand spans",
        TraceTool::AgentLoop { .. } => "failed to get agent loop",
    }
}

/// How many of the requested spans a span-details reply lacks: the number
/// requested less the length of its `spans` array (none when that is not
/// an array), and never below zero.
pub open spec fn missing_spans_spec(requested: nat, resp: Json) -> nat {
    let returned: nat = match crate::json::member(resp, "spans"@) {
        Json::Array(a) => a.len(),
        _ => 0,
    };
    if requested > returned { (requested - returned) as nat } else { 0 }
}

/// How many of the requested spans a span-details reply lacks.
pub fn missing_spans(requested: usize, resp: &JsonValue) -> (r: usize)
    ensures
        r == missing_spans_spec(requested as nat, resp@),
{
    let returned: usize = match crate::json::array_member(resp, "spans") {
        Some(a) => {
            proof {
                lemma_items_view(a@);
            }
            a.len()
        },
        None => 0,
    };
    requested.saturating_sub(returned)
}

/// The warning for spans that a span-details reply lacks: none when it
/// lacks none.
pub open spec fn missing_spans_warning_spec(requested: nat, resp: Json) -> Option<Seq<char>> {
    let missing = missing_spans_spec(requested, resp);
    if missing == 0 {
        None
    } else {
        Some(
            "warning: "@ + decimal(missing) + " of "@ + decimal(requested)
                + " requested span(s) not found in trace hierarchy \u{2014} the span may exist but be orphaned (no path to a root span). Use 'spans get-content' to retrieve its content directly."@,
        )
    }
}

/// The warning for spans that a span-details reply lacks, if it lacks any.
pub fn missing_spans_warning(requested: usize, resp: &JsonValue) -> (r: Option<String>)
    ensures
        opt_string(r) == missing_spans_warning_spec(requested as nat, resp@),
{
    let missing = missing_spans(requested, resp);
    if missing == 0 {
        return None;
    }
    let mut w = owned("warning: ");
    let m = u64_decimal(missing as u64);
    push_text(&mut w, m.as_str());
    push_text(&mut w, " of ");
    let q = u64_decimal(requested as u64);
    push_text(&mut w, q.as_str());
    push_text(
        &mut w,
        " requested span(s) not found in trace hierarchy \u{2014} the span may exist but be orphaned (no path to a root span). Use 'spans get-content' to retrieve its content directly.",
    );
    Some(w)
}

// ---------------------------------------------------------------------------
// Experiments and eval statistics
// ---------------------------------------------------------------------------

/// A read or write on one experiment, with the arguments of its own.
pub enum ExperimentTool {
    /// The experiment's summary.
    Summary,
    /// One event of the experiment.
    EventGet { event_id: String },
    /// Eval-metric events to ingest (the parsed `--metrics` document, passed
    /// through as it is), with optional tags.
    EventsSubmit { metrics: JsonValue, tags: Option<Vec<String>> },
    /// The values of one metric, optionally segmented by a dimension.
    MetricValues {
        metric_label: String,
        segment_by_dimension: Option<String>,
        segment_dimension_value: Option<String>,
    },
    /// The values of one dimension.
    DimensionValues { dimension_key: String },
}

/// The fields that an experiment tool adds after `experiment_id`, in order.
pub open spec fn experiment_tool_fields(t: ExperimentTool) -> Seq<(Seq<char>, Json)> {
    match t {
        ExperimentTool::Summary => Seq::empty(),
        ExperimentTool::EventGet { event_id } => seq![("event_id"@, Json::Str(event_id@))],
        ExperimentTool::EventsSubmit { metrics, tags } => seq![("metrics"@, metrics@)] + list_entry(
            "tags"@,
            opt_tags(tags),
        ),
        ExperimentTool::MetricValues { metric_label, segment_by_dimension, segment_dimension_value } => seq![
            ("metric_label"@, Json::Str(metric_label@)),
        ] + text_entry("segment_by_dimension"@, opt_string(segment_by_dimension)) + text_entry(
            "segment_dimension_value"@,
            opt_string(segment_dimension_value),
        ),
        ExperimentTool::DimensionValues { dimension_key } => seq![("dimension_key"@, Json::Str(dimension_key@))],
    }
}

/// The body of an experiment tool's request: `experiment_id`, then the
/// tool's fields.
pub open spec fn experiment_tool_body_spec(t: ExperimentTool, experiment_id: Seq<char>) -> Json {
    Json::Object(seq![("experiment_id"@, Json::Str(experiment_id))] + experiment_tool_fields(t))
}

/// Builds the body of an experiment tool's request.
pub fn experiment_tool_body(tool: ExperimentTool, experiment_id: &str) -> (r: JsonValue)
    ensures
        r@ == experiment_tool_body_spec(tool, experiment_id@),
{
    let ghost tv = tool;
    let mut e: Vec<(String, JsonValue)> = Vec::new();
    assert(entries_view(e@) =~= Seq::<(Seq<char>, Json)>::empty());
    push_entry(&mut e, "experiment_id", JsonValue::String(owned(experiment_id)));
    let ghost head = entries_view(e@);
    match tool {
        ExperimentTool::Summary => {},
        ExperimentTool::EventGet { event_id } => {
            push_entry(&mut e, "event_id", JsonValue::String(event_id));
        },
        ExperimentTool::EventsSubmit { metrics, tags } => {
            push_entry(&mut e, "metrics", metrics);
            push_list_entry(&mut e, "tags", tags);
        },
        ExperimentTool::MetricValues { metric_label, segment_by_dimension, segment_dimension_value } => {
            push_entry(&mut e, "metric_label", JsonValue::String(metric_label));
            push_text_entry(&mut e, "segment_by_dimension", segment_by_dimension);
            push_text_entry(&mut e, "segment_dimension_value", segment_dimension_value);
        },
        ExperimentTool::DimensionValues { dimension_key } => {
            push_entry(&mut e, "dimension_key", JsonValue::String(dimension_key));
        },
    }
    proof {
        lemma_object_view(e);
    }
    assert(head =~= seq![("experiment_id"@, Json::Str(experiment_id@))]);
    assert(entries_view(e@) =~= head + experiment_tool_fields(tv));
    JsonValue::Object(e)
}

/// The body of an event submission, from the outcome of parsing `--metrics`
/// (the document, or the parser's error): the error names `--metrics`.
pub open spec fn events_submit_body_spec(
    experiment_id: Seq<char>,
    metrics: Result<Json, Seq<char>>,
    tags: Option<Seq<Seq<char>>>,
) -> Result<Json, Seq<char>> {
    match metrics {
        Err(e) => Err("--metrics must be a JSON array of eval-metric events: "@ + e),
        Ok(m) => Ok(
            Json::Object(seq![("experiment_id"@, Json::Str(experiment_id)), ("metrics"@, m)] + list_entry("tags"@, tags)),
        ),
    }
}

/// The view of a parsed document or the parser's error.
pub open spec fn parsed_view(r: Result<JsonValue, String>) -> Result<Json, Seq<char>> {
    match r {
        Ok(v) => Ok(v@),
        Err(e) => Err(e@),
    }
}

/// Builds the body of an event submission from the parsed `--metrics`.
pub fn events_submit_body(
    experiment_id: &str,
    metrics: Result<JsonValue, String>,
    tags: Option<Vec<String>>,
) -> (r: Result<JsonValue, String>)
    ensures
        match r {
            Ok(b) => events_submit_body_spec(experiment_id@, parsed_view(metrics), opt_tags(tags))
                == Ok::<Json, Seq<char>>(b@),
            Err(e) => events_submit_body_spec(experiment_id@, parsed_view(metrics), opt_tags(tags))
                == Err::<Json, Seq<char>>(e@),
        },
{
    match metrics {
        Err(e) => {
            let mut m = owned("--metrics must be a JSON array of eval-metric events: ");
            push_text(&mut m, e.as_str());
            Err(m)
        },
        Ok(v) => {
            let ghost gv = v;
            let ghost gt = tags;
            let b = experiment_tool_body(ExperimentTool::EventsSubmit { metrics: v, tags }, experiment_id);
            assert(seq![("experiment_id"@, Json::Str(experiment_id@))] + experiment_tool_fields(
                ExperimentTool::EventsSubmit { metrics: gv, tags: gt },
            ) =~= seq![("experiment_id"@, Json::Str(experiment_id@)), ("metrics"@, gv@)] + list_entry(
                "tags"@,
                opt_tags(gt),
            ));
            Ok(b)
        },
    }
}

/// The path that an experiment tool posts to.
pub open spec fn experiment_tool_path_spec(t: ExperimentTool) -> Seq<char> {
    match t {
        ExperimentTool::Summary => "/api/unstable/llm-obs-mcp/v1/experiment/summary"@,
        ExperimentTool::EventGet { .. } => "/api/unstable/llm-obs-mcp/v1/experiment/event"@,
        ExperimentTool::EventsSubmit { .. } => "/api/unstable/llm-obs-mcp/v1/experiment/ingest-events"@,
        ExperimentTool::MetricValues { .. } => "/api/unstable/llm-obs-mcp/v1/experiment/metric-values"@,
        ExperimentTool::DimensionValues { .. } => "/api/unstable/llm-obs-mcp/v1/experiment/dimension-values"@,
    }
}

/// The path that an experiment tool posts to.
pub fn experiment_tool_path(tool: &ExperimentTool) -> (r: &'static str)
    ensures
        r@ == experiment_tool_path_spec(*tool),
{
    match tool {
        ExperimentTool::Summary => "/api/unstable/llm-obs-mcp/v1/experiment/summary",
        ExperimentTool::EventGet { .. } => "/api/unstable/llm-obs-mcp/v1/experiment/event",
        ExperimentTool::EventsSubmit { .. } => "/api/unstable/llm-obs-mcp/v1/experiment/ingest-events",
        ExperimentTool::MetricValues { .. } => "/api/unstable/llm-obs-mcp/v1/experiment/metric-values",
        ExperimentTool::DimensionValues { .. } => "/api/unstable/llm-obs-mcp/v1/experiment/dimension-values",
    }
}

/// What an experiment tool says failed, before the error itself.
pub open spec fn experiment_tool_failure_spec(t: ExperimentTool) -> Seq<char> {
    match t {
        ExperimentTool::Summary => "failed to get experiment summary"@,
        ExperimentTool::EventGet { .. } => "failed to get experiment event"@,
        ExperimentTool::EventsSubmit { .. } => "failed to submit experiment events"@,
        ExperimentTool::MetricValues { .. } => "failed to get experiment metric values"@,
        ExperimentTool::DimensionValues { .. } => "failed to get experiment dimension values"@,
    }
}

/// What an experiment tool says failed, before the error itself.
pub fn experiment_tool_failure(tool: &ExperimentTool) -> (r: &'static str)
    ensures
        r@ == experiment_tool_failure_spec(*tool),
{
    match tool {
        ExperimentTool::Summary => "failed to get experiment summary",
        ExperimentTool::EventGet { .. } => "failed to get experiment event",
        ExperimentTool::EventsSubmit { .. } => "failed to submit experiment events",
        ExperimentTool::MetricValues { .. } => "failed to get experiment metric values",
        ExperimentTool::DimensionValues { .. } => "failed to get experiment dimension values",
    }
}

/// The body of an eval's aggregate statistics: `eval_name`, `ml_app` when
/// given, and the window in milliseconds as text; or the error of `--from`,
/// then of `--to`.
pub open spec fn eval_stats_body_spec(
    eval_name: Seq<char>,
    ml_app: Option<Seq<char>>,
    from_ms: Result<i64, Seq<char>>,
    to_ms: Result<i64, Seq<char>>,
) -> Result<Json, Seq<char>> {
    match from_ms {
        Err(e) => Err("invalid --from value: "@ + e),
        Ok(fm) => match to_ms {
            Err(e) => Err("invalid --to value: "@ + e),
            Ok(tm) => Ok(
                Json::Object(
                    seq![("eval_name"@, Json::Str(eval_name))] + text_entry("ml_app"@, ml_app) + seq![
                        ("from"@, Json::Str(crate::text::decimal_int(fm as int))),
                        ("to"@, Json::Str(crate::text::decimal_int(tm as int))),
                    ],
                ),
            ),
        },
    }
}

/// Builds the body of an eval's aggregate statistics from the parsed bounds
/// of its window (milliseconds, or the parser's error).
pub fn eval_stats_body(
    eval_name: &str,
    ml_app: Option<String>,
    from_ms: Result<i64, String>,
    to_ms: Result<i64, String>,
) -> (r: Result<JsonValue, String>)
    ensures
        match r {
            Ok(b) => eval_stats_body_spec(eval_name@, opt_string(ml_app), outcome_view(from_ms), outcome_view(to_ms))
                == Ok::<Json, Seq<char>>(b@),
            Err(e) => eval_stats_body_spec(eval_name@, opt_string(ml_app), outcome_view(from_ms), outcome_view(to_ms))
                == Err::<Json, Seq<char>>(e@),
        },
{
    let ghost av = opt_string(ml_app);
    let fm = match from_ms {
        Err(e) => {
            let mut m = owned("invalid --from value: ");
            push_text(&mut m, e.as_str());
            return Err(m);
        },
        Ok(x) => x,
    };
    let tm = match to_ms {
        Err(e) => {
            let mut m = owned("invalid --to value: ");
            push_text(&mut m, e.as_str());
            return Err(m);
        },
        Ok(x) => x,
    };
    let mut e: Vec<(String, JsonValue)> = Vec::new();
    assert(entries_view(e@) =~= Seq::<(Seq<char>, Json)>::empty());
    push_entry(&mut e, "eval_name", JsonValue::String(owned(eval_name)));
    let ghost head = entries_view(e@);
    push_text_entry(&mut e, "ml_app", ml_app);
    push_entry(&mut e, "from", JsonValue::String(crate::text::i64_decimal(fm)));
    push_entry(&mut e, "to", JsonValue::String(crate::text::i64_decimal(tm)));
    proof {
        lemma_object_view(e);
    }
    assert(head =~= seq![("eval_name"@, Json::Str(eval_name@))]);
    assert(entries_view(e@) =~= eval_stats_body_spec(eval_name@, av, outcome_view(from_ms), outcome_view(to_ms))->Ok_0->Object_0);
    Ok(JsonValue::Object(e))
}

// ---------------------------------------------------------------------------
// Topic discovery (patterns)
// ---------------------------------------------------------------------------

/// A topic-discovery request, with the arguments of its own.
pub enum PatternsTool {
    /// Every pattern config of the org.
    ConfigsList,
    /// The most recently modified pattern config.
    ConfigGet,
    /// The runs of a config.
    RunsList { config_id: String },
    /// The status of a config's latest run.
    RunsStatus { config_id: String },
    /// The topics of a run (the latest when none is named).
    Topics { config_id: String, run_id: Option<String> },
    /// The topics of a run with their points, optionally with metrics.
    TopicsWithPoints { config_id: String, run_id: Option<String>, include_metrics: bool },
    /// A page of the points of one topic.
    Points { topic_id: String, page_size: Option<u32>, page_token: Option<String> },
}

/// The body of a topic-discovery request.
pub open spec fn patterns_body_spec(t: PatternsTool) -> Json {
    Json::Object(
        match t {
            PatternsTool::ConfigsList => Seq::empty(),
            PatternsTool::ConfigGet => Seq::empty(),
            PatternsTool::RunsList { config_id } => seq![("config_id"@, Json::Str(config_id@))],
            PatternsTool::RunsStatus { config_id } => seq![("config_id"@, Json::Str(config_id@))],
            PatternsTool::Topics { config_id, run_id } => seq![("config_id"@, Json::Str(config_id@))] + text_entry(
                "run_id"@,
                opt_string(run_id),
            ),
            PatternsTool::TopicsWithPoints { config_id, run_id, include_metrics } => seq![
                ("config_id"@, Json::Str(config_id@)),
            ] + text_entry("run_id"@, opt_string(run_id)) + if include_metrics {
                seq![("include_metrics"@, Json::Bool(true))]
            } else {
                Seq::empty()
            },
            PatternsTool::Points { topic_id, page_size, page_token } => seq![("topic_id"@, Json::Str(topic_id@))]
                + num_entry("page_size"@, page_size) + text_entry("page_token"@, opt_string(page_token)),
        },
    )
}

/// Builds the body of a topic-discovery request.
pub fn patterns_body(tool: PatternsTool) -> (r: JsonValue)
    ensures
        r@ == patterns_body_spec(tool),
{
    let ghost tv = tool;
    let mut e: Vec<(String, JsonValue)> = Vec::new();
    assert(entries_view(e@) =~= Seq::<(Seq<char>, Json)>::empty());
    match tool {
        PatternsTool::ConfigsList => {},
        PatternsTool::ConfigGet => {},
        PatternsTool::RunsList { config_id } => {
            push_entry(&mut e, "config_id", JsonValue::String(config_id));
        },
        PatternsTool::RunsStatus { config_id } => {
            push_entry(&mut e, "config_id", JsonValue::String(config_id));
        },
        PatternsTool::Topics { config_id, run_id } => {
            push_entry(&mut e, "config_id", JsonValue::String(config_id));
            push_text_entry(&mut e, "run_id", run_id);
        },
        PatternsTool::TopicsWithPoints { config_id, run_id, include_metrics } => {
            push_entry(&mut e, "config_id", JsonValue::String(config_id));
            push_text_entry(&mut e, "run_id", run_id);
            if include_metrics {
                push_entry(&mut e, "include_metrics", JsonValue::Bool(true));
            }
        },
        PatternsTool::Points { topic_id, page_size, page_token } => {
            push_entry(&mut e, "topic_id", JsonValue::String(topic_id));
            push_num_entry(&mut e, "page_size", page_size);
            push_text_entry(&mut e, "page_token", page_token);
        },
    }
    proof {
        lemma_object_view(e);
    }
    assert(entries_view(e@) =~= patterns_body_spec(tv)->Object_0);
    JsonValue::Object(e)
}

/// The endpoint of a topic-discovery request, under the topic-discovery
/// base path.
pub open spec fn patterns_endpoint_spec(t: PatternsTool) -> Seq<char> {
    match t {
        PatternsTool::ConfigsList => "configs/list"@,
        PatternsTool::ConfigGet => "config/get"@,
        PatternsTool::RunsList { .. } => "runs/list"@,
        PatternsTool::RunsStatus { .. } => "run-status"@,
        PatternsTool::Topics { .. } => "topics"@,
        PatternsTool::TopicsWithPoints { .. } => "topics-with-points"@,
        PatternsTool::Points { .. } => "clustered-points"@,
    }
}

/// The base path of the topic-discovery endpoints.
pub const PATTERNS_BASE: &'static str = "/api/unstable/llm-obs-mcp/v1/topic-discovery";

/// The path that a topic-discovery request posts to: the base, `/`, and
/// the request's endpoint.
pub fn patterns_path(tool: &PatternsTool) -> (r: String)
    ensures
        r@ == PATTERNS_BASE@ + "/"@ + patterns_endpoint_spec(*tool),
{
    let endpoint = match tool {
        PatternsTool::ConfigsList => "configs/list",
        PatternsTool::ConfigGet => "config/get",
        PatternsTool::RunsList { .. } => "runs/list",
        PatternsTool::RunsStatus { .. } => "run-status",
        PatternsTool::Topics { .. } => "topics",
        PatternsTool::TopicsWithPoints { .. } => "topics-with-points",
        PatternsTool::Points { .. } => "clustered-points",
    };
    let mut p = owned(PATTERNS_BASE);
    push_text(&mut p, "/");
    push_text(&mut p, endpoint);
    p
}

/// What a topic-discovery request says failed, after `failed to `.
pub open spec fn patterns_failure_spec(t: PatternsTool) -> Seq<char> {
    match t {
        PatternsTool::ConfigsList => "list pattern configs"@,
        PatternsTool::ConfigGet => "get pattern config"@,
        PatternsTool::RunsList { .. } => "list pattern runs"@,
        PatternsTool::RunsStatus { .. } => "get pattern run status"@,
        PatternsTool::Topics { .. } => "get patterns"@,
        PatternsTool::TopicsWithPoints { .. } => "get patterns with points"@,
        PatternsTool::Points { .. } => "get pattern points"@,
    }
}

/// What a topic-discovery request says failed, after `failed to `.
pub fn patterns_failure(tool: &PatternsTool) -> (r: &'static str)
    ensures
        r@ == patterns_failure_spec(*tool),
{
    match tool {
        PatternsTool::ConfigsList => "list pattern configs",
        PatternsTool::ConfigGet => "get pattern config",
        PatternsTool::RunsList { .. } => "list pattern runs",
        PatternsTool::RunsStatus { .. } => "get pattern run status",
        PatternsTool::Topics { .. } => "get patterns",
        PatternsTool::TopicsWithPoints { .. } => "get patterns with points",
        PatternsTool::Points { .. } => "get pattern points",
    }
}

// ---------------------------------------------------------------------------
// Agent insight status and feedback
// ---------------------------------------------------------------------------

/// The body of an insight's status change, or the error for a status that
/// is not one of the insight statuses.
pub open spec fn insight_status_body_spec(insight_id: Seq<char>, status: Seq<char>) -> Result<Json, Seq<char>> {
    match choice_spec("--status"@, status, str_views(AGENT_INSIGHT_STATUSES@)) {
        Err(e) => Err(e),
        Ok(_) => Ok(Json::Object(seq![("insight_id"@, Json::Str(insight_id)), ("status"@, Json::Str(status))])),
    }
}

/// Builds the body of an insight's status change.
pub fn insight_status_body(insight_id: &str, status: &str) -> (r: Result<JsonValue, String>)
    ensures
        match r {
            Ok(b) => insight_status_body_spec(insight_id@, status@) == Ok::<Json, Seq<char>>(b@),
            Err(e) => insight_status_body_spec(insight_id@, status@) == Err::<Json, Seq<char>>(e@),
        },
{
    match validate_choice("--status", status, &AGENT_INSIGHT_STATUSES) {
        Err(e) => Err(e),
        Ok(_) => {
            let mut e: Vec<(String, JsonValue)> = Vec::new();
            assert(entries_view(e@) =~= Seq::<(Seq<char>, Json)>::empty());
            push_entry(&mut e, "insight_id", JsonValue::String(owned(insight_id)));
            push_entry(&mut e, "status", JsonValue::String(owned(status)));
            proof {
                lemma_object_view(e);
            }
            assert(entries_view(e@) =~= insight_status_body_spec(insight_id@, status@)->Ok_0->Object_0);
            Ok(JsonValue::Object(e))
        },
    }
}

/// The body of a feedback submission, or the error of the first bad entry.
pub open spec fn insight_feedback_body_spec(insight_id: Seq<char>, feedback: Seq<Seq<char>>) -> Result<Json, Seq<char>> {
    match feedback_items_spec(feedback) {
        Err(e) => Err(e),
        Ok(items) => Ok(
            Json::Object(seq![("insight_id"@, Json::Str(insight_id)), ("feedback_items"@, Json::Array(items))]),
        ),
    }
}

/// Builds the body of a feedback submission from `--feedback` entries.
pub fn insight_feedback_body(insight_id: &str, feedback: &Vec<String>) -> (r: Result<JsonValue, String>)
    ensures
        match r {
            Ok(b) => insight_feedback_body_spec(insight_id@, views(feedback@)) == Ok::<Json, Seq<char>>(b@),
            Err(e) => insight_feedback_body_spec(insight_id@, views(feedback@)) == Err::<Json, Seq<char>>(e@),
        },
{
    match parse_feedback_items(feedback) {
        Err(e) => Err(e),
        Ok(items) => {
            proof {
                crate::json::lemma_array_view(items);
            }
            let arr = JsonValue::Array(items);
            let mut e: Vec<(String, JsonValue)> = Vec::new();
            assert(entries_view(e@) =~= Seq::<(Seq<char>, Json)>::empty());
            push_entry(&mut e, "insight_id", JsonValue::String(owned(insight_id)));
            push_entry(&mut e, "feedback_items", arr);
            proof {
                lemma_object_view(e);
            }
            assert(entries_view(e@) =~= insight_feedback_body_spec(insight_id@, views(feedback@))->Ok_0->Object_0);
            Ok(JsonValue::Object(e))
        },
    }
}

} // verus!
