//! Symbol database commands: views of a scope search, indexing status,
//! scope names, probe locations and the retry policy of its requests.
use vstd::prelude::*;

use crate::json::{
    array_member, items_view, lemma_items_view, lemma_member_null, member, member_of, str_member, Json,
    JsonValue,
};
use crate::text::{join, join_strings, owned, push_text, text_eq, views};

verus! {

/// What a scope search shows.
#[derive(PartialEq, Eq, Structural, Clone, Copy, Debug)]
pub enum SymdbView {
    Full,
    Names,
    ProbeLocations,
}

/// The name of a view on the command line.
pub open spec fn view_name(v: SymdbView) -> Seq<char> {
    match v {
        SymdbView::Full => "full"@,
        SymdbView::Names => "names"@,
        SymdbView::ProbeLocations => "probe-locations"@,
    }
}

impl SymdbView {
    /// The name of the view on the command line.
    pub fn to_string(&self) -> (r: String)
        ensures
            r@ == view_name(*self),
    {
        match self {
            SymdbView::Full => owned("full"),
            SymdbView::Names => owned("names"),
            SymdbView::ProbeLocations => owned("probe-locations"),
        }
    }
}

// ---------------------------------------------------------------------------
// Requests
// ---------------------------------------------------------------------------

/// How many times a failed request is tried again.
pub const MAX_RETRIES: u32 = 3;

/// The wait before the first retry, in milliseconds; it doubles each time.
pub const RETRY_BASE_MS: u64 = 1000;

/// `2` to the power `n`.
pub open spec fn pow2(n: nat) -> nat
    decreases n,
{
    if n == 0 {
        1
    } else {
        2 * pow2((n - 1) as nat)
    }
}

/// After attempt `attempt` (from 0) failed with HTTP status `status` (none
/// for a failure without one), the wait in milliseconds before trying again,
/// or none when the error is final: only 502, 503 and 504 are retried, and
/// not after the last attempt.
pub open spec fn retry_delay_spec(status: Option<u16>, attempt: u32) -> Option<nat> {
    let retryable = match status {
        Some(s) => 502 <= s && s <= 504,
        None => false,
    };
    if !retryable || attempt >= MAX_RETRIES {
        None
    } else {
        Some((RETRY_BASE_MS as nat) * pow2(attempt as nat))
    }
}

/// Decides whether a failed request is tried again, and after how long.
pub fn retry_delay(status: Option<u16>, attempt: u32) -> (r: Option<u64>)
    ensures
        match r {
            Some(d) => retry_delay_spec(status, attempt) == Some(d as nat),
            None => retry_delay_spec(status, attempt).is_none(),
        },
{
    let retryable = match status {
        Some(s) => 502 <= s && s <= 504,
        None => false,
    };
    if !retryable || attempt >= MAX_RETRIES {
        return None;
    }
    let mut d: u64 = RETRY_BASE_MS;
    let mut i: u32 = 0;
    while i < attempt
        invariant
            i <= attempt,
            attempt < MAX_RETRIES,
            d == (RETRY_BASE_MS as nat) * pow2(i as nat),
        decreases attempt - i,
    {
        assert(pow2((i + 1) as nat) == 2 * pow2(i as nat));
        assert(pow2(i as nat) <= 4) by {
            assert(pow2(0) == 1);
            assert(pow2(1) == 2);
            assert(pow2(2) == 4);
        }
        d = d * 2;
        i = i + 1;
    }
    Some(d)
}

/// Each retry waits twice as long as the one before, and a request is
/// tried at most `MAX_RETRIES` more times.
pub proof fn law_retry_backoff_doubles(status: Option<u16>, attempt: u32)
    ensures
        (retry_delay_spec(status, attempt) is Some && attempt > 0) ==> retry_delay_spec(status, (attempt - 1) as u32)
            is Some && retry_delay_spec(status, attempt)->0 == 2 * retry_delay_spec(status, (attempt - 1) as u32)->0,
        attempt >= MAX_RETRIES ==> retry_delay_spec(status, attempt) is None,
        retry_delay_spec(status, 0) is Some ==> retry_delay_spec(status, 0)->0 == RETRY_BASE_MS,
{
}

/// The views of query parameters.
pub open spec fn pair_views(q: Seq<(String, String)>) -> Seq<(Seq<char>, Seq<char>)> {
    q.map_values(|p: (String, String)| (p.0@, p.1@))
}

/// The query of a scope search.
pub open spec fn search_params_spec(
    service: Seq<char>,
    query: Seq<char>,
    version: Option<Seq<char>>,
    allow_partial: bool,
) -> Seq<(Seq<char>, Seq<char>)> {
    let p0 = seq![("service"@, service), ("query"@, query)];
    let p1 = if allow_partial {
        p0.push(("allow_partial"@, "true"@))
    } else {
        p0
    };
    match version {
        Some(v) => p1.push(("version"@, v)),
        None => p1,
    }
}

/// The view of an optional text.
pub open spec fn opt_text(t: Option<&str>) -> Option<Seq<char>> {
    match t {
        Some(s) => Some(s@),
        None => None,
    }
}

/// Builds the query of a scope search.
pub fn search_params(service: &str, query: &str, version: Option<&str>, allow_partial: bool) -> (r: Vec<
    (String, String),
>)
    ensures
        pair_views(r@) == search_params_spec(service@, query@, opt_text(version), allow_partial),
{
    let mut p: Vec<(String, String)> = Vec::new();
    p.push((owned("service"), owned(service)));
    p.push((owned("query"), owned(query)));
    if allow_partial {
        p.push((owned("allow_partial"), owned("true")));
    }
    match version {
        Some(v) => p.push((owned("version"), owned(v))),
        None => {},
    }
    assert(pair_views(p@) =~= search_params_spec(service@, query@, opt_text(version), allow_partial));
    p
}

// ---------------------------------------------------------------------------
// Reading a search response
// ---------------------------------------------------------------------------

/// The items of a response (`data["data"]`), none where that is not an
/// array.
pub open spec fn response_items(data: Json) -> Seq<Json> {
    match member(data, "data"@) {
        Json::Array(items) => items,
        _ => Seq::empty(),
    }
}

/// Whether a service version has finished indexing: its status is one of
/// the final ones, or it has none.
pub open spec fn indexing_done(item: Json) -> bool {
    match member(member(item, "attributes"@), "indexing_status"@) {
        Json::Str(s) => s == "COMPLETED"@ || s == "SOME_FAILED"@ || s == "ALL_FAILED"@ || s == "NO_ATTACHMENTS"@,
        _ => true,
    }
}

/// Whether every service version of a response has finished indexing.
pub open spec fn all_indexing_complete_spec(data: Json) -> bool {
    forall|i: int| 0 <= i < response_items(data).len() ==> indexing_done(#[trigger] response_items(data)[i])
}

/// Whether a service version has finished indexing.
fn item_indexing_done(item: &JsonValue) -> (b: bool)
    ensures
        b == indexing_done(item@),
{
    let attrs = member_of(item, "attributes");
    let status = match attrs {
        Some(a) => str_member(a, "indexing_status"),
        None => {
            proof {
                lemma_member_null("indexing_status"@);
            }
            None
        },
    };
    match status {
        Some(s) => {
            let s = s.as_str();
            text_eq(s, "COMPLETED") || text_eq(s, "SOME_FAILED") || text_eq(s, "ALL_FAILED") || text_eq(
                s,
                "NO_ATTACHMENTS",
            )
        },
        None => true,
    }
}

/// Whether every service version in a search response has finished
/// indexing; a response without a `data` array counts as finished.
pub fn all_indexing_complete(data: &JsonValue) -> (b: bool)
    ensures
        b == all_indexing_complete_spec(data@),
{
    let items = match array_member(data, "data") {
        Some(items) => items,
        None => {
            return true;
        },
    };
    proof {
        lemma_items_view(items@);
    }
    let ghost iv = items_view(items@);
    assert(response_items(data@) == iv);
    let mut i: usize = 0;
    while i < items.len()
        invariant
            i <= items.len(),
            iv == items_view(items@),
            response_items(data@) == iv,
            iv.len() == items.len(),
            forall|j: int| 0 <= j < items.len() ==> #[trigger] iv[j] == items@[j]@,
            forall|j: int| 0 <= j < i ==> indexing_done(#[trigger] iv[j]),
        decreases items.len() - i,
    {
        if !item_indexing_done(&items[i]) {
            assert(!indexing_done(iv[i as int]));
            return false;
        }
        i = i + 1;
    }
    true
}

/// The scopes of a service version (`attributes.scopes`), none where that
/// is not an array.
pub open spec fn scopes_of(item: Json) -> Seq<Json> {
    match member(member(item, "attributes"@), "scopes"@) {
        Json::Array(s) => s,
        _ => Seq::empty(),
    }
}

/// The scopes of all the items, in order.
pub open spec fn all_scopes(items: Seq<Json>) -> Seq<Json>
    decreases items.len(),
{
    if items.len() == 0 {
        Seq::empty()
    } else {
        all_scopes(items.drop_last()) + scopes_of(items.last())
    }
}

/// The scopes of an item.
fn item_scopes(item: &JsonValue) -> (r: Option<&Vec<JsonValue>>)
    ensures
        match r {
            Some(s) => scopes_of(item@) == items_view(s@),
            None => scopes_of(item@) == Seq::<Json>::empty(),
        },
{
    match member_of(item, "attributes") {
        Some(a) => array_member(a, "scopes"),
        None => {
            proof {
                lemma_member_null("scopes"@);
            }
            None
        },
    }
}

/// The name of a scope (`scope.name`), where it is a string.
pub open spec fn scope_name(s: Json) -> Option<Seq<char>> {
    match member(member(s, "scope"@), "name"@) {
        Json::Str(n) => Some(n),
        _ => None,
    }
}

/// The scope names, each once, in the order they first appear.
pub open spec fn distinct_names(scopes: Seq<Json>) -> Seq<Seq<char>>
    decreases scopes.len(),
{
    if scopes.len() == 0 {
        Seq::empty()
    } else {
        let r = distinct_names(scopes.drop_last());
        match scope_name(scopes.last()) {
            Some(n) => if r.contains(n) {
                r
            } else {
                r.push(n)
            },
            None => r,
        }
    }
}

/// Each name appears once among the collected names, and every collected
/// name is the name of one of the scopes.
pub proof fn law_collected_names_distinct(scopes: Seq<Json>)
    ensures
        no_dups(distinct_names(scopes)),
        forall|i: int|
            0 <= i < distinct_names(scopes).len() ==> exists|j: int|
                0 <= j < scopes.len() && scope_name(scopes[j]) == Some(#[trigger] distinct_names(scopes)[i]),
    decreases scopes.len(),
{
    if scopes.len() > 0 {
        let head = scopes.drop_last();
        law_collected_names_distinct(head);
        let r = distinct_names(head);
        assert forall|i: int| 0 <= i < r.len() implies exists|j: int|
            0 <= j < scopes.len() && scope_name(scopes[j]) == Some(#[trigger] r[i]) by {
            let j = choose|j: int| 0 <= j < head.len() && scope_name(head[j]) == Some(r[i]);
            assert(scopes[j] == head[j]);
        }
        match scope_name(scopes.last()) {
            Some(n) => if !r.contains(n) {
                assert forall|i: int, j: int| 0 <= i < j < r.push(n).len() implies r.push(n)[i] != r.push(n)[j] by {
                    if j == r.len() {
                        assert(r.push(n)[i] == r[i]);
                    }
                }
                assert(scope_name(scopes[scopes.len() - 1]) == Some(n));
            },
            None => {},
        }
    }
}

/// The name of a scope.
fn scope_name_of(s: &JsonValue) -> (r: Option<&String>)
    ensures
        match r {
            Some(n) => scope_name(s@) == Some(n@),
            None => scope_name(s@).is_none(),
        },
{
    match member_of(s, "scope") {
        Some(sc) => str_member(sc, "name"),
        None => {
            proof {
                lemma_member_null("name"@);
            }
            None
        },
    }
}

/// Whether a list of strings holds `s`.
fn contains_string(v: &Vec<String>, s: &str) -> (b: bool)
    ensures
        b == views(v@).contains(s@),
{
    let mut i: usize = 0;
    while i < v.len()
        invariant
            i <= v.len(),
            views(v@).len() == v.len(),
            forall|j: int| 0 <= j < i ==> #[trigger] views(v@)[j] != s@,
        decreases v.len() - i,
    {
        assert(views(v@)[i as int] == v@[i as int]@);
        if text_eq(v[i].as_str(), s) {
            return true;
        }
        i = i + 1;
    }
    false
}

/// The names of the scopes in a search response, each once, in the order
/// they first appear.
pub fn collect_names(data: &JsonValue) -> (r: Vec<String>)
    ensures
        views(r@) == distinct_names(all_scopes(response_items(data@))),
{
    let mut names: Vec<String> = Vec::new();
    let items = match array_member(data, "data") {
        Some(items) => items,
        None => {
            assert(views(names@) =~= Seq::<Seq<char>>::empty());
            return names;
        },
    };
    proof {
        lemma_items_view(items@);
    }
    let ghost iv = items_view(items@);
    assert(views(names@) =~= distinct_names(all_scopes(iv.subrange(0, 0))));
    let mut i: usize = 0;
    while i < items.len()
        invariant
            i <= items.len(),
            iv == items_view(items@),
            response_items(data@) == iv,
            iv.len() == items.len(),
            forall|j: int| 0 <= j < items.len() ==> #[trigger] iv[j] == items@[j]@,
            views(names@) == distinct_names(all_scopes(iv.subrange(0, i as int))),
        decreases items.len() - i,
    {
        let ghost done = all_scopes(iv.subrange(0, i as int));
        proof {
            assert(iv.subrange(0, i + 1).drop_last() =~= iv.subrange(0, i as int));
            assert(all_scopes(iv.subrange(0, i + 1)) == done + scopes_of(iv[i as int]));
        }
        match item_scopes(&items[i]) {
            Some(scopes) => {
                proof {
                    lemma_items_view(scopes@);
                }
                let ghost sv = items_view(scopes@);
                assert(done + sv.subrange(0, 0) =~= done);
                let mut j: usize = 0;
                while j < scopes.len()
                    invariant
                        j <= scopes.len(),
                        sv == items_view(scopes@),
                        sv.len() == scopes.len(),
                        forall|k: int| 0 <= k < scopes.len() ==> #[trigger] sv[k] == scopes@[k]@,
                        views(names@) == distinct_names(done + sv.subrange(0, j as int)),
                    decreases scopes.len() - j,
                {
                    proof {
                        assert((done + sv.subrange(0, j + 1)).drop_last() =~= done + sv.subrange(0, j as int));
                        assert((done + sv.subrange(0, j + 1)).last() == sv[j as int]);
                    }
                    match scope_name_of(&scopes[j]) {
                        Some(n) => {
                            if !contains_string(&names, n.as_str()) {
                                let ghost before = names@;
                                names.push(n.clone());
                                assert(views(names@) =~= views(before).push(n@));
                            }
                        },
                        None => {},
                    }
                    j = j + 1;
                }
                assert(sv.subrange(0, scopes.len() as int) =~= sv);
            },
            None => {
                assert(done + scopes_of(iv[i as int]) =~= done);
            },
        }
        i = i + 1;
    }
    assert(iv.subrange(0, items.len() as int) =~= iv);
    names
}

// ---------------------------------------------------------------------------
// Probe locations
// ---------------------------------------------------------------------------

/// The argument types among a scope's symbols: the `type` of each symbol
/// whose `symbol_type` is `ARG`, in order.
pub open spec fn arg_types(symbols: Seq<Json>) -> Seq<Seq<char>>
    decreases symbols.len(),
{
    if symbols.len() == 0 {
        Seq::empty()
    } else {
        let r = arg_types(symbols.drop_last());
        let sym = symbols.last();
        if member(sym, "symbol_type"@) == Json::Str("ARG"@) {
            match member(sym, "type"@) {
                Json::Str(t) => r.push(t),
                _ => r,
            }
        } else {
            r
        }
    }
}

/// A probe location `type:method`, followed by the argument types in
/// parentheses where the scope's symbols list any.
pub open spec fn probe_location_spec(scope: Json, owner_type: Seq<char>, method_name: Seq<char>) -> Seq<char> {
    let base = owner_type + ":"@ + method_name;
    match member(member(scope, "scope"@), "symbols"@) {
        Json::Array(syms) => {
            let args = arg_types(syms);
            if args.len() > 0 {
                base + "("@ + join(args, ", "@) + ")"@
            } else {
                base
            }
        },
        _ => base,
    }
}

/// The argument types among a scope's symbols.
fn arg_types_of(symbols: &Vec<JsonValue>) -> (r: Vec<String>)
    ensures
        views(r@) == arg_types(items_view(symbols@)),
{
    proof {
        lemma_items_view(symbols@);
    }
    let ghost sv = items_view(symbols@);
    let mut r: Vec<String> = Vec::new();
    let mut i: usize = 0;
    assert(views(r@) =~= arg_types(sv.subrange(0, 0)));
    while i < symbols.len()
        invariant
            i <= symbols.len(),
            sv == items_view(symbols@),
            sv.len() == symbols.len(),
            forall|k: int| 0 <= k < symbols.len() ==> #[trigger] sv[k] == symbols@[k]@,
            views(r@) == arg_types(sv.subrange(0, i as int)),
        decreases symbols.len() - i,
    {
        proof {
            assert(sv.subrange(0, i + 1).drop_last() =~= sv.subrange(0, i as int));
            assert(sv.subrange(0, i + 1).last() == sv[i as int]);
        }
        let is_arg = match str_member(&symbols[i], "symbol_type") {
            Some(t) => text_eq(t.as_str(), "ARG"),
            None => false,
        };
        if is_arg {
            match str_member(&symbols[i], "type") {
                Some(t) => {
                    let ghost before = r@;
                    r.push(t.clone());
                    assert(views(r@) =~= views(before).push(t@));
                },
                None => {},
            }
        }
        i = i + 1;
    }
    assert(sv.subrange(0, symbols.len() as int) =~= sv);
    r
}

/// Builds a probe location from a scope entry: `type:method`, or
/// `type:method(argType1, argType2, ...)` where the scope has `ARG` symbols.
pub fn format_probe_location(scope: &JsonValue, owner_type: &str, method_name: &str) -> (r: String)
    ensures
        r@ == probe_location_spec(scope@, owner_type@, method_name@),
{
    let mut base = owned(owner_type);
    push_text(&mut base, ":");
    push_text(&mut base, method_name);
    let symbols = match member_of(scope, "scope") {
        Some(sc) => array_member(sc, "symbols"),
        None => {
            proof {
                lemma_member_null("symbols"@);
            }
            None
        },
    };
    match symbols {
        Some(syms) => {
            let args = arg_types_of(syms);
            if args.len() > 0 {
                push_text(&mut base, "(");
                let joined = join_strings(&args, ", ");
                push_text(&mut base, joined.as_str());
                push_text(&mut base, ")");
            }
            base
        },
        None => base,
    }
}

// ---------------------------------------------------------------------------
// Language of a service
// ---------------------------------------------------------------------------

/// The language of a service from its metadata (`data[0].attributes.language`),
/// or the error naming the service.
pub open spec fn service_language_spec(data: Json, service: Seq<char>) -> Result<Seq<char>, Seq<char>> {
    match member(data, "data"@) {
        Json::Array(entries) if entries.len() > 0 => match member(
            member(entries[0], "attributes"@),
            "language"@,
        ) {
            Json::Str(l) => Ok(l),
            _ => Err("could not detect language for service "@ + service),
        },
        _ => Err("could not detect language for service "@ + service),
    }
}

/// Reads the language of a service from its symbol metadata.
pub fn language_from_metadata(data: &JsonValue, service: &str) -> (r: Result<String, String>)
    ensures
        match r {
            Ok(l) => service_language_spec(data@, service@) == Ok::<Seq<char>, Seq<char>>(l@),
            Err(e) => service_language_spec(data@, service@) == Err::<Seq<char>, Seq<char>>(e@),
        },
{
    let mut err = owned("could not detect language for service ");
    push_text(&mut err, service);
    let entries = match array_member(data, "data") {
        Some(e) => e,
        None => {
            return Err(err);
        },
    };
    if entries.len() == 0 {
        return Err(err);
    }
    proof {
        lemma_items_view(entries@);
    }
    let lang = match member_of(&entries[0], "attributes") {
        Some(a) => str_member(a, "language"),
        None => {
            proof {
                lemma_member_null("language"@);
            }
            None
        },
    };
    match lang {
        Some(l) => Ok(l.clone()),
        None => Err(err),
    }
}

// ---------------------------------------------------------------------------
// Probe collector
// ---------------------------------------------------------------------------

/// The probe location of a scope entry, where its `probe_location` names a
/// type and a method.
pub open spec fn probe_loc(s: Json) -> Option<Seq<char>> {
    let pl = member(s, "probe_location"@);
    match (member(pl, "type_name"@), member(pl, "method_name"@)) {
        (Json::Str(t), Json::Str(m)) => Some(probe_location_spec(s, t, m)),
        _ => None,
    }
}

/// The id of a class scope without a probe location of its own.
pub open spec fn class_scope_id(s: Json) -> Option<Seq<char>> {
    if member(member(s, "scope"@), "scope_type"@) == Json::Str("CLASS"@) {
        match member(member(s, "scope"@), "id"@) {
            Json::Str(i) => Some(i),
            _ => None,
        }
    } else {
        None
    }
}

/// What a collection pass knows: the locations and class ids seen so far,
/// and the new locations and class ids found by this pass.
pub struct CollectState {
    pub seen_locations: Seq<Seq<char>>,
    pub seen_class_ids: Seq<Seq<char>>,
    pub lines: Seq<Seq<char>>,
    pub new_class_ids: Seq<Seq<char>>,
}

/// One scope entry of a pass: a probe location not seen before is a new
/// line; a class scope (only in a search response, not in children) whose
/// id was not seen before is a class to expand.
pub open spec fn scope_step(st: CollectState, s: Json, expand_classes: bool) -> CollectState {
    if member(s, "probe_location"@) != Json::Null {
        match probe_loc(s) {
            Some(l) => if st.seen_locations.contains(l) {
                st
            } else {
                CollectState {
                    seen_locations: st.seen_locations.push(l),
                    lines: st.lines.push(l),
                    ..st
                }
            },
            None => st,
        }
    } else if expand_classes {
        match class_scope_id(s) {
            Some(id) => if st.seen_class_ids.contains(id) {
                st
            } else {
                CollectState {
                    seen_class_ids: st.seen_class_ids.push(id),
                    new_class_ids: st.new_class_ids.push(id),
                    ..st
                }
            },
            None => st,
        }
    } else {
        st
    }
}

/// A pass over scope entries, in order.
pub open spec fn scan(st: CollectState, scopes: Seq<Json>, expand_classes: bool) -> CollectState
    decreases scopes.len(),
{
    if scopes.len() == 0 {
        st
    } else {
        scope_step(scan(st, scopes.drop_last(), expand_classes), scopes.last(), expand_classes)
    }
}

/// The scope entries of the children responses that were fetched.
pub open spec fn children_scopes(results: Seq<Option<Json>>) -> Seq<Json>
    decreases results.len(),
{
    if results.len() == 0 {
        Seq::empty()
    } else {
        children_scopes(results.drop_last()) + match results.last() {
            Some(c) => all_scopes(response_items(c)),
            None => Seq::empty(),
        }
    }
}

/// The views of optional documents.
pub open spec fn opt_views(v: Seq<Option<JsonValue>>) -> Seq<Option<Json>> {
    v.map_values(|o: Option<JsonValue>| match o {
        Some(c) => Some(c@),
        None => None,
    })
}

/// No text occurs twice.
pub open spec fn no_dups(s: Seq<Seq<char>>) -> bool {
    forall|i: int, j: int| 0 <= i < j < s.len() ==> s[i] != s[j]
}

/// The state at the start of a pass.
pub open spec fn pass_start(seen_locations: Seq<Seq<char>>, seen_class_ids: Seq<Seq<char>>) -> CollectState {
    CollectState { seen_locations, seen_class_ids, lines: Seq::empty(), new_class_ids: Seq::empty() }
}

/// A pass over two runs of scopes is a pass over the first, then the second.
pub proof fn lemma_scan_append(st: CollectState, a: Seq<Json>, b: Seq<Json>, expand_classes: bool)
    ensures
        scan(st, a + b, expand_classes) == scan(scan(st, a, expand_classes), b, expand_classes),
    decreases b.len(),
{
    if b.len() == 0 {
        assert(a + b =~= a);
    } else {
        assert((a + b).drop_last() =~= a + b.drop_last());
        assert((a + b).last() == b.last());
        lemma_scan_append(st, a, b.drop_last(), expand_classes);
    }
}

/// A pass over children expands no class.
pub proof fn lemma_scan_keeps_classes(st: CollectState, scopes: Seq<Json>)
    ensures
        scan(st, scopes, false).seen_class_ids == st.seen_class_ids,
        scan(st, scopes, false).new_class_ids == st.new_class_ids,
    decreases scopes.len(),
{
    if scopes.len() > 0 {
        lemma_scan_keeps_classes(st, scopes.drop_last());
    }
}

/// The state of the collector and the lists of a pass.
pub open spec fn current(c: (Seq<Seq<char>>, Seq<Seq<char>>), lines: Seq<Seq<char>>, new_ids: Seq<Seq<char>>) -> CollectState {
    CollectState { seen_locations: c.0, seen_class_ids: c.1, lines, new_class_ids: new_ids }
}

/// What a pass keeps: the locations and class ids seen are those seen
/// before it followed by those it found, none of them twice.
pub open spec fn pass_inv(st: CollectState, l0: Seq<Seq<char>>, c0: Seq<Seq<char>>) -> bool {
    &&& st.seen_locations == l0 + st.lines
    &&& st.seen_class_ids == c0 + st.new_class_ids
    &&& no_dups(st.seen_locations)
    &&& no_dups(st.seen_class_ids)
}

/// Appending a text not in a list keeps it free of repeats.
proof fn lemma_push_new(s: Seq<Seq<char>>, x: Seq<char>)
    requires
        no_dups(s),
        !s.contains(x),
    ensures
        no_dups(s.push(x)),
{
    assert forall|i: int, j: int| 0 <= i < j < s.push(x).len() implies s.push(x)[i] != s.push(x)[j] by {
        if j == s.len() {
            assert(s[i] == s.push(x)[i]);
        }
    }
}

/// Every scope entry keeps the invariant of a pass.
proof fn lemma_scan_inv(st: CollectState, scopes: Seq<Json>, expand_classes: bool, l0: Seq<Seq<char>>, c0: Seq<Seq<char>>)
    requires
        pass_inv(st, l0, c0),
    ensures
        pass_inv(scan(st, scopes, expand_classes), l0, c0),
    decreases scopes.len(),
{
    if scopes.len() > 0 {
        lemma_scan_inv(st, scopes.drop_last(), expand_classes, l0, c0);
        let prev = scan(st, scopes.drop_last(), expand_classes);
        let s = scopes.last();
        if member(s, "probe_location"@) != Json::Null {
            match probe_loc(s) {
                Some(l) => if !prev.seen_locations.contains(l) {
                    lemma_push_new(prev.seen_locations, l);
                    assert(l0 + prev.lines.push(l) =~= (l0 + prev.lines).push(l));
                },
                None => {},
            }
        } else if expand_classes {
            match class_scope_id(s) {
                Some(id) => if !prev.seen_class_ids.contains(id) {
                    lemma_push_new(prev.seen_class_ids, id);
                    assert(c0 + prev.new_class_ids.push(id) =~= (c0 + prev.new_class_ids).push(id));
                },
                None => {},
            }
        }
    }
}

/// A collection pass reports only probe locations not reported before, each
/// once, and lists only classes not expanded before, each once; what the
/// collector has seen afterwards is what it had seen followed by what the
/// pass reported, still without repeats.
pub proof fn law_collect_reports_only_new(
    seen_locations: Seq<Seq<char>>,
    seen_class_ids: Seq<Seq<char>>,
    scopes: Seq<Json>,
    expand_classes: bool,
)
    requires
        no_dups(seen_locations),
        no_dups(seen_class_ids),
    ensures
        ({
            let st = scan(pass_start(seen_locations, seen_class_ids), scopes, expand_classes);
            &&& st.seen_locations == seen_locations + st.lines
            &&& st.seen_class_ids == seen_class_ids + st.new_class_ids
            &&& no_dups(st.lines)
            &&& no_dups(st.new_class_ids)
            &&& forall|i: int| 0 <= i < st.lines.len() ==> !seen_locations.contains(#[trigger] st.lines[i])
            &&& forall|i: int|
                0 <= i < st.new_class_ids.len() ==> !seen_class_ids.contains(#[trigger] st.new_class_ids[i])
            &&& no_dups(st.seen_locations)
            &&& no_dups(st.seen_class_ids)
        }),
{
    let st0 = pass_start(seen_locations, seen_class_ids);
    assert(seen_locations + st0.lines =~= seen_locations);
    assert(seen_class_ids + st0.new_class_ids =~= seen_class_ids);
    lemma_scan_inv(st0, scopes, expand_classes, seen_locations, seen_class_ids);
    let st = scan(st0, scopes, expand_classes);
    let n = seen_locations.len();
    let m = seen_class_ids.len();
    assert forall|i: int, j: int| 0 <= i < j < st.lines.len() implies st.lines[i] != st.lines[j] by {
        assert(st.seen_locations[n + i] == st.lines[i]);
        assert(st.seen_locations[n + j] == st.lines[j]);
    }
    assert forall|i: int, j: int| 0 <= i < j < st.new_class_ids.len() implies st.new_class_ids[i] != st.new_class_ids[j] by {
        assert(st.seen_class_ids[m + i] == st.new_class_ids[i]);
        assert(st.seen_class_ids[m + j] == st.new_class_ids[j]);
    }
    assert forall|i: int| 0 <= i < st.lines.len() implies !seen_locations.contains(#[trigger] st.lines[i]) by {
        if seen_locations.contains(st.lines[i]) {
            let k = choose|k: int| 0 <= k < n && seen_locations[k] == st.lines[i];
            assert(st.seen_locations[k] == st.seen_locations[n + i]);
        }
    }
    assert forall|i: int| 0 <= i < st.new_class_ids.len() implies !seen_class_ids.contains(
        #[trigger] st.new_class_ids[i],
    ) by {
        if seen_class_ids.contains(st.new_class_ids[i]) {
            let k = choose|k: int| 0 <= k < m && seen_class_ids[k] == st.new_class_ids[i];
            assert(st.seen_class_ids[k] == st.seen_class_ids[m + i]);
        }
    }
}

/// The state after a series of passes (each a run of scope entries and
/// whether classes are expanded in it), from the given locations and class
/// ids seen: what has been seen, and everything the passes reported and
/// listed for expansion, in order.
pub open spec fn after_passes(
    seen_locations: Seq<Seq<char>>,
    seen_class_ids: Seq<Seq<char>>,
    passes: Seq<(Seq<Json>, bool)>,
) -> CollectState
    decreases passes.len(),
{
    if passes.len() == 0 {
        pass_start(seen_locations, seen_class_ids)
    } else {
        let before = after_passes(seen_locations, seen_class_ids, passes.drop_last());
        let st = scan(pass_start(before.seen_locations, before.seen_class_ids), passes.last().0, passes.last().1);
        CollectState {
            seen_locations: st.seen_locations,
            seen_class_ids: st.seen_class_ids,
            lines: before.lines + st.lines,
            new_class_ids: before.new_class_ids + st.new_class_ids,
        }
    }
}

/// Over the whole life of a collector, however many passes it makes: no
/// probe location is reported twice, no class is listed for expansion twice
/// (so its children are fetched at most once), nothing seen at the start is
/// reported again, and what the collector has seen is what it had seen
/// followed by everything reported.
pub proof fn law_collector_reports_each_once(
    seen_locations: Seq<Seq<char>>,
    seen_class_ids: Seq<Seq<char>>,
    passes: Seq<(Seq<Json>, bool)>,
)
    requires
        no_dups(seen_locations),
        no_dups(seen_class_ids),
    ensures
        ({
            let st = after_passes(seen_locations, seen_class_ids, passes);
            &&& st.seen_locations == seen_locations + st.lines
            &&& st.seen_class_ids == seen_class_ids + st.new_class_ids
            &&& no_dups(st.lines)
            &&& no_dups(st.new_class_ids)
            &&& forall|i: int| 0 <= i < st.lines.len() ==> !seen_locations.contains(#[trigger] st.lines[i])
            &&& forall|i: int|
                0 <= i < st.new_class_ids.len() ==> !seen_class_ids.contains(#[trigger] st.new_class_ids[i])
        }),
    decreases passes.len(),
{
    let st = after_passes(seen_locations, seen_class_ids, passes);
    if passes.len() == 0 {
        assert(seen_locations + st.lines =~= seen_locations);
        assert(seen_class_ids + st.new_class_ids =~= seen_class_ids);
    } else {
        law_collector_reports_each_once(seen_locations, seen_class_ids, passes.drop_last());
        let before = after_passes(seen_locations, seen_class_ids, passes.drop_last());
        let n = seen_locations.len();
        let m = seen_class_ids.len();
        // The seen lists before the last pass have no repeats.
        assert forall|i: int, j: int| 0 <= i < j < before.seen_locations.len() implies before.seen_locations[i]
            != before.seen_locations[j] by {
            if j < n {
            } else if i < n {
                assert(before.seen_locations[j] == before.lines[j - n]);
            } else {
                assert(before.seen_locations[i] == before.lines[i - n]);
                assert(before.seen_locations[j] == before.lines[j - n]);
            }
        }
        assert forall|i: int, j: int| 0 <= i < j < before.seen_class_ids.len() implies before.seen_class_ids[i]
            != before.seen_class_ids[j] by {
            if j < m {
            } else if i < m {
                assert(before.seen_class_ids[j] == before.new_class_ids[j - m]);
            } else {
                assert(before.seen_class_ids[i] == before.new_class_ids[i - m]);
                assert(before.seen_class_ids[j] == before.new_class_ids[j - m]);
            }
        }
        law_collect_reports_only_new(before.seen_locations, before.seen_class_ids, passes.last().0, passes.last().1);
        let last = scan(pass_start(before.seen_locations, before.seen_class_ids), passes.last().0, passes.last().1);
        assert(st.seen_locations =~= seen_locations + st.lines);
        assert(st.seen_class_ids =~= seen_class_ids + st.new_class_ids);
        assert forall|i: int, j: int| 0 <= i < j < st.lines.len() implies st.lines[i] != st.lines[j] by {
            assert(st.seen_locations[n + i] == st.lines[i]);
            assert(st.seen_locations[n + j] == st.lines[j]);
        }
        assert forall|i: int, j: int| 0 <= i < j < st.new_class_ids.len() implies st.new_class_ids[i]
            != st.new_class_ids[j] by {
            assert(st.seen_class_ids[m + i] == st.new_class_ids[i]);
            assert(st.seen_class_ids[m + j] == st.new_class_ids[j]);
        }
        assert forall|i: int| 0 <= i < st.lines.len() implies !seen_locations.contains(#[trigger] st.lines[i]) by {
            if seen_locations.contains(st.lines[i]) {
                let k = choose|k: int| 0 <= k < n && seen_locations[k] == st.lines[i];
                assert(st.seen_locations[k] == st.seen_locations[n + i]);
            }
        }
        assert forall|i: int| 0 <= i < st.new_class_ids.len() implies !seen_class_ids.contains(
            #[trigger] st.new_class_ids[i],
        ) by {
            if seen_class_ids.contains(st.new_class_ids[i]) {
                let k = choose|k: int| 0 <= k < m && seen_class_ids[k] == st.new_class_ids[i];
                assert(st.seen_class_ids[k] == st.seen_class_ids[m + i]);
            }
        }
    }
}

/// Remembers the probe locations and class scopes already reported, so that
/// polling again reports only new locations and expands each class once.
pub struct ProbeCollector {
    seen_locations: Vec<String>,
    seen_class_ids: Vec<String>,
}

impl View for ProbeCollector {
    type V = (Seq<Seq<char>>, Seq<Seq<char>>);

    closed spec fn view(&self) -> (Seq<Seq<char>>, Seq<Seq<char>>) {
        (views(self.seen_locations@), views(self.seen_class_ids@))
    }
}

impl ProbeCollector {
    /// Nothing seen twice.
    pub open spec fn wf(&self) -> bool {
        no_dups(self@.0) && no_dups(self@.1)
    }

    /// A collector that has seen nothing.
    pub fn new() -> (c: Self)
        ensures
            c@ == (Seq::<Seq<char>>::empty(), Seq::<Seq<char>>::empty()),
            c.wf(),
    {
        let c = ProbeCollector { seen_locations: Vec::new(), seen_class_ids: Vec::new() };
        assert(c@.0 =~= Seq::<Seq<char>>::empty());
        assert(c@.1 =~= Seq::<Seq<char>>::empty());
        c
    }

    /// One scope entry of a pass.
    fn step(&mut self, s: &JsonValue, expand_classes: bool, lines: &mut Vec<String>, new_ids: &mut Vec<String>)
        ensures
            ({
                let st = scope_step(
                    CollectState {
                        seen_locations: old(self)@.0,
                        seen_class_ids: old(self)@.1,
                        lines: views(old(lines)@),
                        new_class_ids: views(old(new_ids)@),
                    },
                    s@,
                    expand_classes,
                );
                &&& final(self)@ == (st.seen_locations, st.seen_class_ids)
                &&& views(final(lines)@) == st.lines
                &&& views(final(new_ids)@) == st.new_class_ids
            }),
    {
        match member_of(s, "probe_location") {
            Some(pl) => {
                if let JsonValue::Null = pl {
                    self.class_step(s, expand_classes, new_ids);
                } else {
                    let t = str_member(pl, "type_name");
                    let m = str_member(pl, "method_name");
                    match (t, m) {
                        (Some(t), Some(m)) => {
                            let loc = format_probe_location(s, t.as_str(), m.as_str());
                            if !contains_string(&self.seen_locations, loc.as_str()) {
                                let ghost b1 = self.seen_locations@;
                                let ghost b2 = lines@;
                                self.seen_locations.push(loc.clone());
                                lines.push(loc);
                                assert(views(self.seen_locations@) =~= views(b1).push(loc@));
                                assert(views(lines@) =~= views(b2).push(loc@));
                            }
                        },
                        _ => {},
                    }
                }
            },
            None => {
                self.class_step(s, expand_classes, new_ids);
            },
        }
    }

    /// A scope entry without a probe location.
    fn class_step(&mut self, s: &JsonValue, expand_classes: bool, new_ids: &mut Vec<String>)
        requires
            member(s@, "probe_location"@) == Json::Null,
        ensures
            final(self)@.0 == old(self)@.0,
            ({
                let st = scope_step(
                    CollectState {
                        seen_locations: old(self)@.0,
                        seen_class_ids: old(self)@.1,
                        lines: Seq::empty(),
                        new_class_ids: views(old(new_ids)@),
                    },
                    s@,
                    expand_classes,
                );
                &&& final(self)@.1 == st.seen_class_ids
                &&& views(final(new_ids)@) == st.new_class_ids
            }),
    {
        if !expand_classes {
            return;
        }
        let sc = member_of(s, "scope");
        let (kind, id) = match sc {
            Some(sc) => (str_member(sc, "scope_type"), str_member(sc, "id")),
            None => {
                proof {
                    lemma_member_null("scope_type"@);
                    lemma_member_null("id"@);
                }
                (None, None)
            },
        };
        let is_class = match kind {
            Some(k) => text_eq(k.as_str(), "CLASS"),
            None => false,
        };
        if !is_class {
            return;
        }
        match id {
            Some(id) => {
                if !contains_string(&self.seen_class_ids, id.as_str()) {
                    let ghost b1 = self.seen_class_ids@;
                    let ghost b2 = new_ids@;
                    self.seen_class_ids.push(id.clone());
                    new_ids.push(id.clone());
                    assert(views(self.seen_class_ids@) =~= views(b1).push(id@));
                    assert(views(new_ids@) =~= views(b2).push(id@));
                }
            },
            None => {},
        }
    }

    /// A pass over the scopes of the given items.
    fn scan_items(&mut self, items: &Vec<JsonValue>, expand_classes: bool, lines: &mut Vec<String>, new_ids: &mut Vec<String>)
        ensures
            current(final(self)@, views(final(lines)@), views(final(new_ids)@)) == scan(
                current(old(self)@, views(old(lines)@), views(old(new_ids)@)),
                all_scopes(items_view(items@)),
                expand_classes,
            ),
    {
        let ghost st0 = current(self@, views(lines@), views(new_ids@));
        proof {
            lemma_items_view(items@);
        }
        let ghost iv = items_view(items@);
        assert(iv.subrange(0, 0) =~= Seq::<Json>::empty());
        let mut i: usize = 0;
        while i < items.len()
            invariant
                i <= items.len(),
                iv == items_view(items@),
                iv.len() == items.len(),
                forall|k: int| 0 <= k < items.len() ==> #[trigger] iv[k] == items@[k]@,
                current(self@, views(lines@), views(new_ids@)) == scan(st0, all_scopes(iv.subrange(0, i as int)), expand_classes),
            decreases items.len() - i,
        {
            let ghost done = all_scopes(iv.subrange(0, i as int));
            proof {
                assert(iv.subrange(0, i + 1).drop_last() =~= iv.subrange(0, i as int));
                assert(all_scopes(iv.subrange(0, i + 1)) == done + scopes_of(iv[i as int]));
            }
            match item_scopes(&items[i]) {
                Some(scopes) => {
                    proof {
                        lemma_items_view(scopes@);
                    }
                    let ghost sv = items_view(scopes@);
                    assert(done + sv.subrange(0, 0) =~= done);
                    let mut j: usize = 0;
                    while j < scopes.len()
                        invariant
                            j <= scopes.len(),
                            sv == items_view(scopes@),
                            sv.len() == scopes.len(),
                            forall|k: int| 0 <= k < scopes.len() ==> #[trigger] sv[k] == scopes@[k]@,
                            current(self@, views(lines@), views(new_ids@)) == scan(st0, done + sv.subrange(0, j as int), expand_classes),
                        decreases scopes.len() - j,
                    {
                        proof {
                            assert((done + sv.subrange(0, j + 1)).drop_last() =~= done + sv.subrange(0, j as int));
                            assert((done + sv.subrange(0, j + 1)).last() == sv[j as int]);
                        }
                        self.step(&scopes[j], expand_classes, lines, new_ids);
                        j = j + 1;
                    }
                    assert(sv.subrange(0, scopes.len() as int) =~= sv);
                },
                None => {
                    assert(done + scopes_of(iv[i as int]) =~= done);
                },
            }
            i = i + 1;
        }
        assert(iv.subrange(0, items.len() as int) =~= iv);
    }

    /// Reads a search response: returns the probe locations not reported
    /// before, and the ids of the class scopes not expanded before, whose
    /// children are to be fetched.
    pub fn collect_scopes(&mut self, data: &JsonValue) -> (r: (Vec<String>, Vec<String>))
        ensures
            ({
                let st = scan(pass_start(old(self)@.0, old(self)@.1), all_scopes(response_items(data@)), true);
                &&& final(self)@ == (st.seen_locations, st.seen_class_ids)
                &&& views(r.0@) == st.lines
                &&& views(r.1@) == st.new_class_ids
            }),
            old(self).wf() ==> final(self).wf(),
    {
        proof {
            if self.wf() {
                law_collect_reports_only_new(self@.0, self@.1, all_scopes(response_items(data@)), true);
            }
        }
        let mut lines: Vec<String> = Vec::new();
        let mut new_ids: Vec<String> = Vec::new();
        assert(views(lines@) =~= Seq::<Seq<char>>::empty());
        assert(views(new_ids@) =~= Seq::<Seq<char>>::empty());
        match array_member(data, "data") {
            Some(items) => {
                self.scan_items(items, true, &mut lines, &mut new_ids);
            },
            None => {},
        }
        (lines, new_ids)
    }

    /// Reads the children of the expanded classes (`None` where fetching
    /// them failed): returns the probe locations not reported before.
    pub fn collect_children(&mut self, results: &Vec<Option<JsonValue>>) -> (r: Vec<String>)
        ensures
            ({
                let st = scan(pass_start(old(self)@.0, old(self)@.1), children_scopes(opt_views(results@)), false);
                &&& final(self)@ == (st.seen_locations, st.seen_class_ids)
                &&& views(r@) == st.lines
            }),
            old(self).wf() ==> final(self).wf(),
    {
        proof {
            if self.wf() {
                law_collect_reports_only_new(self@.0, self@.1, children_scopes(opt_views(results@)), false);
            }
        }
        let ghost st0 = pass_start(self@.0, self@.1);
        let mut lines: Vec<String> = Vec::new();
        let mut new_ids: Vec<String> = Vec::new();
        assert(views(lines@) =~= Seq::<Seq<char>>::empty());
        assert(views(new_ids@) =~= Seq::<Seq<char>>::empty());
        assert(opt_views(results@).subrange(0, 0) =~= Seq::<Option<Json>>::empty());
        let mut k: usize = 0;
        while k < results.len()
            invariant
                k <= results.len(),
                opt_views(results@).len() == results.len(),
                current(self@, views(lines@), views(new_ids@)) == scan(
                    st0,
                    children_scopes(opt_views(results@).subrange(0, k as int)),
                    false,
                ),
                views(new_ids@) == Seq::<Seq<char>>::empty(),
            decreases results.len() - k,
        {
            let ghost rv = opt_views(results@);
            let ghost done = children_scopes(rv.subrange(0, k as int));
            proof {
                assert(rv.subrange(0, k + 1).drop_last() =~= rv.subrange(0, k as int));
                assert(rv[k as int] == match results@[k as int] {
                    Some(c) => Some(c@),
                    None => None::<Json>,
                });
            }
            match &results[k] {
                Some(c) => {
                    match array_member(c, "data") {
                        Some(items) => {
                            let ghost before = current(self@, views(lines@), views(new_ids@));
                            proof {
                                lemma_scan_append(st0, done, all_scopes(items_view(items@)), false);
                                lemma_scan_keeps_classes(before, all_scopes(items_view(items@)));
                            }
                            self.scan_items(items, false, &mut lines, &mut new_ids);
                        },
                        None => {
                            assert(all_scopes(response_items(c@)) =~= Seq::<Json>::empty());
                            assert(done + Seq::<Json>::empty() =~= done);
                        },
                    }
                },
                None => {
                    assert(done + Seq::<Json>::empty() =~= done);
                },
            }
            k = k + 1;
        }
        assert(opt_views(results@).subrange(0, results.len() as int) =~= opt_views(results@));
        lines
    }
}

} // verus!
