//! The JSON documents that commands receive from the API and hand to the
//! output formatters.
//!
//! `JsonValue` is the executable document; `Json` is its mathematical model.
//! Objects keep their entries in order (the order the API sent them, or the
//! order the library inserted them). Looking a key up finds its last entry,
//! and inserting a key that is present replaces that entry's value in place,
//! so a map in which keys occur once behaves exactly like an insertion-ordered
//! map.
use vstd::prelude::*;

use crate::text::chars_of;

verus! {

/// The model of a JSON document. Numbers are kept as their canonical text.
pub enum Json {
    Null,
    Bool(bool),
    Number(Seq<char>),
    Str(Seq<char>),
    Array(Seq<Json>),
    Object(Seq<(Seq<char>, Json)>),
}

/// A JSON document.
#[derive(Debug, PartialEq)]
pub enum JsonValue {
    Null,
    Bool(bool),
    /// A number, held as the text that JSON writes for it (`42`, `1.25`).
    Number(String),
    String(String),
    Array(Vec<JsonValue>),
    /// An object: its entries in order.
    Object(Vec<(String, JsonValue)>),
}

impl View for JsonValue {
    type V = Json;

    open spec fn view(&self) -> Json {
        json_model(*self)
    }
}

/// The model of a document.
pub open spec fn json_model(v: JsonValue) -> Json
    decreases v, 1nat,
{
    match v {
        JsonValue::Null => Json::Null,
        JsonValue::Bool(b) => Json::Bool(b),
        JsonValue::Number(n) => Json::Number(n@),
        JsonValue::String(s) => Json::Str(s@),
        JsonValue::Array(a) => {
            proof {
                broadcast use vstd::std_specs::vec::axiom_vec_decreases_to_view;

                assert(decreases_to!(v => v->Array_0));
                assert(decreases_to!(v->Array_0 => v->Array_0@));
            }
            Json::Array(items_view(a@))
        },
        JsonValue::Object(e) => {
            proof {
                broadcast use vstd::std_specs::vec::axiom_vec_decreases_to_view;

                assert(decreases_to!(v => v->Object_0));
                assert(decreases_to!(v->Object_0 => v->Object_0@));
            }
            Json::Object(entries_view(e@))
        },
    }
}

/// The model of a list of values.
pub open spec fn items_view(a: Seq<JsonValue>) -> Seq<Json>
    decreases a, 0nat,
{
    if a.len() == 0 {
        Seq::empty()
    } else {
        proof {
            broadcast use vstd::seq::axiom_seq_index_decreases, vstd::seq::axiom_seq_subrange_decreases;

            assert(decreases_to!(a => a[a.len() - 1]));
            assert(decreases_to!(a => a.subrange(0, a.len() - 1)));
        }
        items_view(a.drop_last()).push(json_model(a.last()))
    }
}

/// The model of a list of object entries.
pub open spec fn entries_view(e: Seq<(String, JsonValue)>) -> Seq<(Seq<char>, Json)>
    decreases e, 0nat,
{
    if e.len() == 0 {
        Seq::empty()
    } else {
        proof {
            broadcast use vstd::seq::axiom_seq_index_decreases, vstd::seq::axiom_seq_subrange_decreases;

            assert(decreases_to!(e => e[e.len() - 1]));
            assert(decreases_to!(e[e.len() - 1] => e[e.len() - 1].1));
            assert(decreases_to!(e => e.subrange(0, e.len() - 1)));
        }
        entries_view(e.drop_last()).push((e.last().0@, json_model(e.last().1)))
    }
}

/// The items' models, one by one.
pub proof fn lemma_items_view(a: Seq<JsonValue>)
    ensures
        items_view(a).len() == a.len(),
        forall|i: int| 0 <= i < a.len() ==> #[trigger] items_view(a)[i] == a[i]@,
    decreases a.len(),
{
    if a.len() > 0 {
        lemma_items_view(a.drop_last());
    }
}

/// The entries' models, one by one.
pub proof fn lemma_entries_view(e: Seq<(String, JsonValue)>)
    ensures
        entries_view(e).len() == e.len(),
        forall|i: int| 0 <= i < e.len() ==> #[trigger] entries_view(e)[i] == (e[i].0@, e[i].1@),
    decreases e.len(),
{
    if e.len() > 0 {
        lemma_entries_view(e.drop_last());
    }
}

/// The view of an array is the view of its items.
pub proof fn lemma_array_view(a: Vec<JsonValue>)
    ensures
        JsonValue::Array(a)@ == Json::Array(items_view(a@)),
{
}

/// The view of an object is the view of its entries.
pub proof fn lemma_object_view(e: Vec<(String, JsonValue)>)
    ensures
        JsonValue::Object(e)@ == Json::Object(entries_view(e@)),
{
}

/// A value and its model are the same kind of value.
pub proof fn lemma_view_kind(v: JsonValue)
    ensures
        (v@ is Object) <==> (v is Object),
        (v@ is Array) <==> (v is Array),
        (v@ is Str) <==> (v is String),
        (v@ is Null) <==> (v is Null),
        (v@ is Bool) <==> (v is Bool),
        (v@ is Number) <==> (v is Number),
{
    match v {
        JsonValue::Null => {},
        JsonValue::Bool(_) => {},
        JsonValue::Number(_) => {},
        JsonValue::String(_) => {},
        JsonValue::Array(_) => {},
        JsonValue::Object(_) => {},
    }
}

// ---------------------------------------------------------------------------
// Object entries
// ---------------------------------------------------------------------------

/// The position of the last entry whose key is `k`, or -1.
pub open spec fn key_pos(e: Seq<(Seq<char>, Json)>, k: Seq<char>) -> int
    decreases e.len(),
{
    if e.len() == 0 {
        -1
    } else if e.last().0 == k {
        e.len() - 1
    } else {
        key_pos(e.drop_last(), k)
    }
}

/// The value stored under `k`, if any.
pub open spec fn lookup(e: Seq<(Seq<char>, Json)>, k: Seq<char>) -> Option<Json> {
    let i = key_pos(e, k);
    if 0 <= i < e.len() {
        Some(e[i].1)
    } else {
        None
    }
}

/// The entries after storing `v` under `k`: the value of an existing entry is
/// replaced in place, a new key is appended.
pub open spec fn insert_entry(e: Seq<(Seq<char>, Json)>, k: Seq<char>, v: Json) -> Seq<
    (Seq<char>, Json),
> {
    let i = key_pos(e, k);
    if 0 <= i < e.len() {
        e.update(i, (k, v))
    } else {
        e.push((k, v))
    }
}

/// The keys of a list of entries, in order.
pub open spec fn keys_of(e: Seq<(Seq<char>, Json)>) -> Seq<Seq<char>> {
    e.map_values(|p: (Seq<char>, Json)| p.0)
}

/// `key_pos` finds the last matching entry.
pub proof fn lemma_key_pos(e: Seq<(Seq<char>, Json)>, k: Seq<char>)
    ensures
        -1 <= key_pos(e, k) < e.len(),
        key_pos(e, k) >= 0 ==> e[key_pos(e, k)].0 == k,
        forall|j: int| key_pos(e, k) < j < e.len() ==> e[j].0 != k,
        key_pos(e, k) == -1 <==> forall|j: int| 0 <= j < e.len() ==> e[j].0 != k,
    decreases e.len(),
{
    if e.len() > 0 && e.last().0 != k {
        lemma_key_pos(e.drop_last(), k);
        assert forall|j: int| 0 <= j < e.len() - 1 implies e.drop_last()[j] == e[j] by {}
    }
}

/// Looking a key up in a non-empty list of entries: the last entry when it
/// has the key, otherwise the lookup in the entries before it.
pub proof fn lemma_lookup_step(e: Seq<(Seq<char>, Json)>, k: Seq<char>)
    requires
        e.len() > 0,
    ensures
        lookup(e, k) == if e.last().0 == k {
            Some(e.last().1)
        } else {
            lookup(e.drop_last(), k)
        },
{
    lemma_key_pos(e.drop_last(), k);
}

/// Looking a key up in two lists of entries one after the other: the later
/// list wins where it has the key.
pub proof fn lemma_lookup_append(a: Seq<(Seq<char>, Json)>, b: Seq<(Seq<char>, Json)>, k: Seq<char>)
    ensures
        lookup(a + b, k) == match lookup(b, k) {
            Some(x) => Some(x),
            None => lookup(a, k),
        },
    decreases b.len(),
{
    if b.len() == 0 {
        assert(a + b =~= a);
    } else {
        assert((a + b).drop_last() =~= a + b.drop_last());
        assert((a + b).last() == b.last());
        lemma_lookup_step(a + b, k);
        lemma_lookup_step(b, k);
        lemma_lookup_append(a, b.drop_last(), k);
    }
}

/// Looking a key up after appending one entry.
pub proof fn lemma_lookup_push(e: Seq<(Seq<char>, Json)>, x: (Seq<char>, Json), k: Seq<char>)
    ensures
        lookup(e.push(x), k) == if x.0 == k {
            Some(x.1)
        } else {
            lookup(e, k)
        },
{
    lemma_lookup_step(e.push(x), k);
    assert(e.push(x).drop_last() =~= e);
}

/// Looking a key up in a single entry.
pub proof fn lemma_lookup_single(key: Seq<char>, v: Json, k: Seq<char>)
    ensures
        lookup(seq![(key, v)], k) == if key == k {
            Some(v)
        } else {
            None::<Json>
        },
{
    lemma_lookup_step(seq![(key, v)], k);
    assert(seq![(key, v)].drop_last() =~= Seq::<(Seq<char>, Json)>::empty());
}

/// A value seen through a key: `v[k]` of serde_json, which is `null` for a
/// missing key or a non-object.
pub open spec fn member(v: Json, k: Seq<char>) -> Json {
    match v {
        Json::Object(e) => match lookup(e, k) {
            Some(x) => x,
            None => Json::Null,
        },
        _ => Json::Null,
    }
}

/// The entries' models of a prefix are a prefix of the entries' models.
pub proof fn lemma_entries_view_prefix(e: Seq<(String, JsonValue)>, n: int)
    requires
        0 <= n <= e.len(),
    ensures
        entries_view(e.subrange(0, n)) == entries_view(e).subrange(0, n),
{
    lemma_entries_view(e);
    lemma_entries_view(e.subrange(0, n));
    assert(entries_view(e.subrange(0, n)) =~= entries_view(e).subrange(0, n));
}

/// `key_pos` on a prefix that ends with a matching key.
proof fn lemma_key_pos_step(s: Seq<(Seq<char>, Json)>, k: Seq<char>)
    requires
        s.len() > 0,
    ensures
        s.last().0 == k ==> key_pos(s, k) == s.len() - 1,
        s.last().0 != k ==> key_pos(s, k) == key_pos(s.drop_last(), k),
{
}

/// The position of the last entry whose key is `key`.
pub fn find_key(e: &Vec<(String, JsonValue)>, key: &str) -> (r: Option<usize>)
    ensures
        match r {
            Some(i) => key_pos(entries_view(e@), key@) == i as int,
            None => key_pos(entries_view(e@), key@) == -1,
        },
{
    let kv = chars_of(key);
    assert(e@.subrange(0, e.len() as int) =~= e@);
    let mut i = e.len();
    while i > 0
        invariant
            i <= e.len(),
            key_pos(entries_view(e@), key@) == key_pos(entries_view(e@.subrange(0, i as int)), key@),
            kv@ == key@,
        decreases i,
    {
        let ghost raw = e@.subrange(0, i as int);
        let ghost sub = entries_view(raw);
        proof {
            lemma_entries_view(raw);
            lemma_key_pos_step(sub, key@);
            lemma_entries_view_prefix(raw, i - 1);
            assert(raw.subrange(0, i - 1) =~= e@.subrange(0, i - 1));
            assert(sub.drop_last() =~= sub.subrange(0, i - 1));
        }
        let ek = chars_of(e[i - 1].0.as_str());
        if crate::text::chars_eq(&ek, &kv) {
            return Some(i - 1);
        }
        i = i - 1;
    }
    None
}

/// Stores `value` under `key`, replacing the value of an existing entry in place.
pub fn obj_insert(e: &mut Vec<(String, JsonValue)>, key: String, value: JsonValue)
    ensures
        entries_view(final(e)@) == insert_entry(entries_view(old(e)@), key@, value@),
{
    let ghost before = e@;
    proof {
        lemma_entries_view(before);
        lemma_key_pos(entries_view(before), key@);
    }
    match find_key(e, key.as_str()) {
        Some(i) => {
            e.set(i, (key, value));
            proof {
                lemma_entries_view(e@);
            }
            assert(entries_view(e@) =~= entries_view(before).update(i as int, (key@, value@)));
        },
        None => {
            e.push((key, value));
            proof {
                lemma_entries_view(e@);
            }
            assert(entries_view(e@) =~= entries_view(before).push((key@, value@)));
        },
    }
}

/// The value stored under `key` in an object's entries.
pub fn obj_get<'a>(e: &'a Vec<(String, JsonValue)>, key: &str) -> (r: Option<&'a JsonValue>)
    ensures
        match r {
            Some(x) => lookup(entries_view(e@), key@) == Some(x@),
            None => lookup(entries_view(e@), key@).is_none(),
        },
{
    proof {
        lemma_entries_view(e@);
        lemma_key_pos(entries_view(e@), key@);
    }
    match find_key(e, key) {
        Some(i) => Some(&e[i].1),
        None => None,
    }
}

impl JsonValue {
    /// A copy of this document.
    pub fn deep_clone(&self) -> (r: JsonValue)
        ensures
            r@ == self@,
        decreases self,
    {
        match self {
            JsonValue::Null => JsonValue::Null,
            JsonValue::Bool(b) => JsonValue::Bool(*b),
            JsonValue::Number(n) => JsonValue::Number(n.clone()),
            JsonValue::String(s) => JsonValue::String(s.clone()),
            JsonValue::Array(a) => {
                let mut out: Vec<JsonValue> = Vec::new();
                let mut i: usize = 0;
                while i < a.len()
                    invariant
                        *self == JsonValue::Array(*a),
                        i <= a.len(),
                        out.len() == i,
                        forall|k: int| 0 <= k < i ==> out@[k]@ == a@[k]@,
                    decreases a.len() - i,
                {
                    proof {
                        broadcast use vstd::std_specs::vec::axiom_vec_index_decreases;

                        assert(decreases_to!(*self => self->Array_0));
                        assert(decreases_to!(*self => a[i as int]));
                    }
                    let c = a[i].deep_clone();
                    out.push(c);
                    i = i + 1;
                }
                proof {
                    lemma_items_view(out@);
                    lemma_items_view(a@);
                }
                assert(items_view(out@) =~= items_view(a@));
                let r = JsonValue::Array(out);
                proof {
                    lemma_array_view(out);
                    lemma_array_view(*a);
                }
                r
            },
            JsonValue::Object(e) => {
                let mut out: Vec<(String, JsonValue)> = Vec::new();
                let mut i: usize = 0;
                while i < e.len()
                    invariant
                        *self == JsonValue::Object(*e),
                        i <= e.len(),
                        out.len() == i,
                        forall|k: int| 0 <= k < i ==> out@[k].0@ == e@[k].0@ && out@[k].1@ == e@[k].1@,
                    decreases e.len() - i,
                {
                    proof {
                        broadcast use vstd::std_specs::vec::axiom_vec_index_decreases;

                        assert(decreases_to!(*self => self->Object_0));
                        assert(decreases_to!(*self => e[i as int]));
                        assert(decreases_to!(e[i as int] => e[i as int].1));
                    }
                    let k = e[i].0.clone();
                    let c = e[i].1.deep_clone();
                    out.push((k, c));
                    i = i + 1;
                }
                proof {
                    lemma_entries_view(out@);
                    lemma_entries_view(e@);
                }
                assert(entries_view(out@) =~= entries_view(e@));
                let r = JsonValue::Object(out);
                proof {
                    lemma_object_view(out);
                    lemma_object_view(*e);
                }
                r
            },
        }
    }

    /// The value under `key` when this is an object holding it.
    pub fn get(&self, key: &str) -> (r: Option<&JsonValue>)
        ensures
            match r {
                Some(x) => self@ is Object && lookup(self@->Object_0, key@) == Some(x@),
                None => !(self@ is Object) || lookup(self@->Object_0, key@).is_none(),
            },
    {
        match self {
            JsonValue::Object(e) => {
                proof {
                    lemma_object_view(*e);
                }
                obj_get(e, key)
            },
            _ => None,
        }
    }

    /// The text of a string value.
    pub fn as_str(&self) -> (r: Option<&String>)
        ensures
            match r {
                Some(s) => self@ == Json::Str(s@),
                None => !(self@ is Str),
            },
    {
        match self {
            JsonValue::String(s) => Some(s),
            _ => None,
        }
    }

    /// The items of an array value.
    pub fn as_array(&self) -> (r: Option<&Vec<JsonValue>>)
        ensures
            match r {
                Some(a) => self@ == Json::Array(items_view(a@)),
                None => !(self@ is Array),
            },
    {
        match self {
            JsonValue::Array(a) => {
                proof {
                    lemma_array_view(*a);
                }
                Some(a)
            },
            _ => None,
        }
    }
}

/// An array of strings.
pub open spec fn str_items(ss: Seq<Seq<char>>) -> Seq<Json> {
    ss.map_values(|t: Seq<char>| Json::Str(t))
}

/// The JSON array of the given strings, in order.
pub fn string_array(v: &Vec<String>) -> (r: JsonValue)
    ensures
        r@ == Json::Array(str_items(crate::text::views(v@))),
{
    let mut items: Vec<JsonValue> = Vec::new();
    let mut i: usize = 0;
    while i < v.len()
        invariant
            i <= v.len(),
            items_view(items@) == str_items(crate::text::views(v@.subrange(0, i as int))),
        decreases v.len() - i,
    {
        let ghost before = items@;
        let c = v[i].clone();
        assert(c@ == v@[i as int]@);
        let item = JsonValue::String(c);
        assert(item@ == Json::Str(v@[i as int]@));
        items.push(item);
        proof {
            lemma_items_view(before);
            lemma_items_view(items@);
            let w = crate::text::views(v@.subrange(0, i + 1));
            let w0 = crate::text::views(v@.subrange(0, i as int));
            assert(w =~= w0.push(v@[i as int]@));
            assert(items_view(items@) =~= items_view(before).push(Json::Str(v@[i as int]@)));
            assert(str_items(w) =~= str_items(w0).push(Json::Str(v@[i as int]@)));
        }
        i = i + 1;
    }
    assert(v@.subrange(0, v.len() as int) =~= v@);
    proof {
        lemma_array_view(items);
    }
    JsonValue::Array(items)
}

// ---------------------------------------------------------------------------
// The `data` array of an API response
// ---------------------------------------------------------------------------

/// The items, in order, that `keep` accepts.
pub open spec fn retained(items: Seq<Json>, keep: spec_fn(Json) -> bool) -> Seq<Json>
    decreases items.len(),
{
    if items.len() == 0 {
        Seq::empty()
    } else {
        let rest = retained(items.drop_last(), keep);
        if keep(items.last()) {
            rest.push(items.last())
        } else {
            rest
        }
    }
}

/// The `data` array of a response object, where it has one.
pub open spec fn data_array_of(resp: Json) -> Option<Seq<Json>> {
    match resp {
        Json::Object(e) => match lookup(e, "data"@) {
            Some(Json::Array(items)) => Some(items),
            _ => None,
        },
        _ => None,
    }
}

/// A response with its `data` array narrowed to the items `keep` accepts
/// (`Vec::retain`); a response without such an array is left as it is.
pub open spec fn retain_data(resp: Json, keep: spec_fn(Json) -> bool) -> Json {
    match resp {
        Json::Object(e) => {
            let i = key_pos(e, "data"@);
            if 0 <= i < e.len() && e[i].1 is Array {
                Json::Object(e.update(i, ("data"@, Json::Array(retained(e[i].1->Array_0, keep)))))
            } else {
                resp
            }
        },
        _ => resp,
    }
}

/// The retained items are accepted ones, and keeping again keeps them all.
proof fn lemma_retained(items: Seq<Json>, keep: spec_fn(Json) -> bool)
    ensures
        forall|i: int| 0 <= i < retained(items, keep).len() ==> keep(#[trigger] retained(items, keep)[i]),
        retained(retained(items, keep), keep) == retained(items, keep),
        retained(items, keep).len() <= items.len(),
    decreases items.len(),
{
    if items.len() > 0 {
        let rest = retained(items.drop_last(), keep);
        lemma_retained(items.drop_last(), keep);
        if keep(items.last()) {
            let r = rest.push(items.last());
            assert(r.drop_last() =~= rest);
        }
    }
}

/// Narrowing a response's `data` array keeps only items the test accepts,
/// in their order, and narrowing again changes nothing.
pub proof fn law_retain_data(resp: Json, keep: spec_fn(Json) -> bool)
    ensures
        match data_array_of(resp) {
            Some(items) => data_array_of(retain_data(resp, keep)) == Some(retained(items, keep)),
            None => retain_data(resp, keep) == resp,
        },
        match data_array_of(retain_data(resp, keep)) {
            Some(kept) => forall|i: int| 0 <= i < kept.len() ==> keep(#[trigger] kept[i]),
            None => true,
        },
        retain_data(retain_data(resp, keep), keep) == retain_data(resp, keep),
{
    match resp {
        Json::Object(e) => {
            lemma_key_pos(e, "data"@);
            let i = key_pos(e, "data"@);
            if 0 <= i < e.len() && e[i].1 is Array {
                let items = e[i].1->Array_0;
                lemma_retained(items, keep);
                let e2 = e.update(i, ("data"@, Json::Array(retained(items, keep))));
                assert forall|j: int| 0 <= j < e2.len() implies #[trigger] e2[j].0 == e[j].0 by {}
                lemma_key_pos_same_keys(e, e2, "data"@);
                let e3 = e2.update(i, ("data"@, Json::Array(retained(retained(items, keep), keep))));
                assert(e3 =~= e2);
            }
        },
        _ => {},
    }
}

/// Entries with the same keys in the same places find a key at the same
/// place.
proof fn lemma_key_pos_same_keys(a: Seq<(Seq<char>, Json)>, b: Seq<(Seq<char>, Json)>, k: Seq<char>)
    requires
        a.len() == b.len(),
        forall|j: int| 0 <= j < a.len() ==> #[trigger] b[j].0 == a[j].0,
    ensures
        key_pos(a, k) == key_pos(b, k),
    decreases a.len(),
{
    if a.len() > 0 {
        assert(b[b.len() - 1].0 == a[a.len() - 1].0);
        lemma_key_pos_same_keys(a.drop_last(), b.drop_last(), k);
    }
}

/// The items of a response's `data` array.
pub fn data_items(resp: &JsonValue) -> (r: Option<&Vec<JsonValue>>)
    ensures
        match r {
            Some(a) => data_array_of(resp@) == Some(items_view(a@)),
            None => data_array_of(resp@).is_none(),
        },
{
    match resp.get("data") {
        Some(d) => d.as_array(),
        None => None,
    }
}

/// Copies of the items whose flag is set.
fn flagged_items(items: &Vec<JsonValue>, flags: &Vec<bool>, Ghost(keep): Ghost<spec_fn(Json) -> bool>) -> (r: Vec<
    JsonValue,
>)
    requires
        flags.len() == items.len(),
        forall|i: int| 0 <= i < items.len() ==> flags@[i] == keep(#[trigger] items@[i]@),
    ensures
        items_view(r@) == retained(items_view(items@), keep),
{
    let ghost iv = items_view(items@);
    proof {
        lemma_items_view(items@);
    }
    let mut kept: Vec<JsonValue> = Vec::new();
    let mut i: usize = 0;
    while i < items.len()
        invariant
            i <= items.len(),
            flags.len() == items.len(),
            forall|j: int| 0 <= j < items.len() ==> flags@[j] == keep(#[trigger] items@[j]@),
            iv == items_view(items@),
            iv.len() == items.len(),
            forall|j: int| 0 <= j < items.len() ==> #[trigger] iv[j] == items@[j]@,
            items_view(kept@) == retained(iv.subrange(0, i as int), keep),
        decreases items.len() - i,
    {
        proof {
            assert(iv.subrange(0, i + 1).drop_last() =~= iv.subrange(0, i as int));
            assert(iv.subrange(0, i + 1).last() == iv[i as int]);
            assert(flags@[i as int] == keep(items@[i as int]@));
        }
        if flags[i] {
            let ghost before = kept@;
            let c = items[i].deep_clone();
            kept.push(c);
            proof {
                lemma_items_view(before);
                lemma_items_view(kept@);
                assert(items_view(kept@) =~= items_view(before).push(iv[i as int]));
            }
        }
        i = i + 1;
    }
    assert(iv.subrange(0, items.len() as int) =~= iv);
    kept
}

/// Narrows a response's `data` array to the items whose flag is set, the
/// flags being `keep` applied to each item.
pub(crate) fn retain_data_flags(resp: &mut JsonValue, flags: &Vec<bool>, Ghost(keep): Ghost<spec_fn(Json) -> bool>)
    requires
        match data_array_of(old(resp)@) {
            Some(a) => flags.len() == a.len() && forall|i: int| 0 <= i < a.len() ==> flags@[i] == keep(#[trigger] a[i]),
            None => true,
        },
    ensures
        final(resp)@ == retain_data(old(resp)@, keep),
{
    let ghost orig = resp@;
    let mut taken = JsonValue::Null;
    core::mem::swap(&mut taken, resp);
    assert(taken@ == orig);
    match taken {
        JsonValue::Object(mut e) => {
            let ghost ev = entries_view(e@);
            proof {
                lemma_entries_view(e@);
                lemma_object_view(e);
            }
            assert(orig == Json::Object(ev));
            match find_key(&e, "data") {
                Some(i) => {
                    proof {
                        lemma_key_pos(ev, "data"@);
                    }
                    let (k, v) = e.remove(i);
                    assert(k@ == "data"@ && v@ == ev[i as int].1);
                    match v {
                        JsonValue::Array(items) => {
                            proof {
                                lemma_array_view(items);
                                lemma_items_view(items@);
                                assert(data_array_of(orig) == Some(items_view(items@)));
                                assert forall|j: int| 0 <= j < items.len() implies flags@[j] == keep(
                                    #[trigger] items@[j]@,
                                ) by {
                                    assert(items_view(items@)[j] == items@[j]@);
                                }
                            }
                            let kept = flagged_items(&items, flags, Ghost(keep));
                            proof {
                                lemma_array_view(kept);
                            }
                            e.insert(i, (k, JsonValue::Array(kept)));
                            proof {
                                lemma_entries_view(e@);
                            }
                            assert(entries_view(e@) =~= ev.update(
                                i as int,
                                ("data"@, Json::Array(retained(ev[i as int].1->Array_0, keep))),
                            ));
                            *resp = JsonValue::Object(e);
                        },
                        other => {
                            e.insert(i, (k, other));
                            proof {
                                lemma_entries_view(e@);
                            }
                            assert(entries_view(e@) =~= ev);
                            *resp = JsonValue::Object(e);
                        },
                    }
                },
                None => {
                    *resp = JsonValue::Object(e);
                },
            }
        },
        other => {
            *resp = other;
        },
    }
}

// ---------------------------------------------------------------------------
// Reading through keys
// ---------------------------------------------------------------------------

/// A value seen through a key (`v[key]`), absent where that is `null` for a
/// missing key or a non-object.
pub fn member_of<'a>(v: &'a JsonValue, key: &str) -> (r: Option<&'a JsonValue>)
    ensures
        match r {
            Some(x) => member(v@, key@) == x@,
            None => member(v@, key@) == Json::Null,
        },
{
    v.get(key)
}

/// The text of `v[key]`, where that is a string.
pub fn str_member<'a>(v: &'a JsonValue, key: &str) -> (r: Option<&'a String>)
    ensures
        match r {
            Some(s) => member(v@, key@) == Json::Str(s@),
            None => !(member(v@, key@) is Str),
        },
{
    match v.get(key) {
        Some(x) => x.as_str(),
        None => None,
    }
}

/// The items of `v[key]`, where that is an array.
pub fn array_member<'a>(v: &'a JsonValue, key: &str) -> (r: Option<&'a Vec<JsonValue>>)
    ensures
        match r {
            Some(a) => member(v@, key@) == Json::Array(items_view(a@)),
            None => !(member(v@, key@) is Array),
        },
{
    match v.get(key) {
        Some(x) => x.as_array(),
        None => None,
    }
}

/// `member` of `null` is `null`.
pub proof fn lemma_member_null(k: Seq<char>)
    ensures
        member(Json::Null, k) == Json::Null,
{
}

} // verus!
