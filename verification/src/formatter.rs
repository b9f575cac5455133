//! Output formatting: table cells, CSV and TSV rendering, the agent-mode
//! envelope and API error messages.
use vstd::prelude::*;

use crate::json::{
    entries_view, insert_entry, items_view, lemma_entries_view, lemma_items_view, lemma_key_pos,
    keys_of, lookup, key_pos, member, obj_get, obj_insert, Json, JsonValue,
};
use crate::json_text::{compact, to_compact_string};
use crate::order::{insert_key, key_less, key_lt, lemma_insert_key, lemma_key_lt_irreflexive, lemma_key_lt_total, strictly_sorted};
use crate::text::{
    chars_of, decimal, join, push_char, push_text, replace_char, replace_char_chars,
    string_from_chars, u64_decimal, views,
};

verus! {

// ---------------------------------------------------------------------------
// Escaping
// ---------------------------------------------------------------------------

/// The text that Go's `encoding/json` writes for `&`, `<` and `>`.
pub open spec fn go_html_escape_spec(s: Seq<char>) -> Seq<char> {
    replace_char(
        replace_char(
            replace_char(s, '&', seq!['\\', 'u', '0', '0', '2', '6']),
            '<',
            seq!['\\', 'u', '0', '0', '3', 'c'],
        ),
        '>',
        seq!['\\', 'u', '0', '0', '3', 'e'],
    )
}

/// A character that neither the text (unless it is the replaced one) nor
/// the replacement holds is not in the result of a replacement.
proof fn lemma_replace_char_absent(s: Seq<char>, c: char, r: Seq<char>, d: char)
    requires
        !r.contains(d),
        d == c || !s.contains(d),
    ensures
        !replace_char(s, c, r).contains(d),
    decreases s.len(),
{
    if s.len() > 0 {
        let head = s.drop_last();
        assert(d == c || !head.contains(d)) by {
            if d != c && head.contains(d) {
                let i = choose|i: int| 0 <= i < head.len() && head[i] == d;
                assert(s[i] == d);
            }
        }
        lemma_replace_char_absent(head, c, r, d);
        let a = replace_char(head, c, r);
        let b = if s.last() == c {
            r
        } else {
            seq![s.last()]
        };
        assert(!b.contains(d)) by {
            if s.last() != c && b.contains(d) {
                assert(b[0] == d);
                assert(s[s.len() - 1] == d);
            }
        }
        assert forall|i: int| 0 <= i < (a + b).len() implies (a + b)[i] != d by {
            if i < a.len() {
                assert((a + b)[i] == a[i]);
            } else {
                assert((a + b)[i] == b[i - a.len()]);
            }
        }
    }
}

/// The Go-compatible escaping leaves no `&`, `<` or `>` in the text.
pub proof fn law_go_html_escape_removes_specials(s: Seq<char>)
    ensures
        !go_html_escape_spec(s).contains('&'),
        !go_html_escape_spec(s).contains('<'),
        !go_html_escape_spec(s).contains('>'),
{
    let amp = seq!['\\', 'u', '0', '0', '2', '6'];
    let lt = seq!['\\', 'u', '0', '0', '3', 'c'];
    let gt = seq!['\\', 'u', '0', '0', '3', 'e'];
    assert(!amp.contains('&') && !amp.contains('<') && !amp.contains('>')) by {
        assert forall|i: int| 0 <= i < amp.len() implies amp[i] != '&' && amp[i] != '<' && amp[i] != '>' by {}
    }
    assert(!lt.contains('&') && !lt.contains('<') && !lt.contains('>')) by {
        assert forall|i: int| 0 <= i < lt.len() implies lt[i] != '&' && lt[i] != '<' && lt[i] != '>' by {}
    }
    assert(!gt.contains('&') && !gt.contains('<') && !gt.contains('>')) by {
        assert forall|i: int| 0 <= i < gt.len() implies gt[i] != '&' && gt[i] != '<' && gt[i] != '>' by {}
    }
    let a = replace_char(s, '&', amp);
    let b = replace_char(a, '<', lt);
    lemma_replace_char_absent(s, '&', amp, '&');
    lemma_replace_char_absent(a, '<', lt, '&');
    lemma_replace_char_absent(b, '>', gt, '&');
    lemma_replace_char_absent(a, '<', lt, '<');
    lemma_replace_char_absent(b, '>', gt, '<');
    lemma_replace_char_absent(b, '>', gt, '>');
}

/// Escapes `&`, `<` and `>` as `\u0026`, `\u003c` and `\u003e`, as Go's
/// `encoding/json` does, so that output matches the Go client byte for byte.
pub fn go_html_escape(json: &str) -> (r: String)
    ensures
        r@ == go_html_escape_spec(json@),
{
    let v = chars_of(json);
    let amp = chars_of("\\u0026");
    let lt = chars_of("\\u003c");
    let gt = chars_of("\\u003e");
    proof {
        reveal_strlit("\\u0026");
        reveal_strlit("\\u003c");
        reveal_strlit("\\u003e");
        assert(amp@ =~= seq!['\\', 'u', '0', '0', '2', '6']);
        assert(lt@ =~= seq!['\\', 'u', '0', '0', '3', 'c']);
        assert(gt@ =~= seq!['\\', 'u', '0', '0', '3', 'e']);
    }
    let a = replace_char_chars(&v, '&', &amp);
    let b = replace_char_chars(&a, '<', &lt);
    let c = replace_char_chars(&b, '>', &gt);
    string_from_chars(&c)
}

/// CSV quoting: a field holding a comma, a double quote, a line feed or a
/// carriage return is wrapped in double quotes, with inner quotes doubled.
pub open spec fn csv_escape_spec(s: Seq<char>) -> Seq<char> {
    if s.contains(',') || s.contains('"') || s.contains('\n') || s.contains('\r') {
        seq!['"'] + replace_char(s, '"', seq!['"', '"']) + seq!['"']
    } else {
        s
    }
}

/// Escapes one CSV field.
pub fn csv_escape(s: &str) -> (r: String)
    ensures
        r@ == csv_escape_spec(s@),
{
    let v = chars_of(s);
    if crate::text::has_char(&v, ',') || crate::text::has_char(&v, '"') || crate::text::has_char(
        &v,
        '\n',
    ) || crate::text::has_char(&v, '\r') {
        let mut q: Vec<char> = Vec::new();
        q.push('"');
        q.push('"');
        let inner = replace_char_chars(&v, '"', &q);
        let mut out: Vec<char> = Vec::new();
        out.push('"');
        let mut i: usize = 0;
        while i < inner.len()
            invariant
                i <= inner.len(),
                out@ == seq!['"'] + inner@.subrange(0, i as int),
            decreases inner.len() - i,
        {
            out.push(inner[i]);
            assert(out@ =~= seq!['"'] + inner@.subrange(0, i + 1));
            i = i + 1;
        }
        out.push('"');
        assert(inner@.subrange(0, inner.len() as int) =~= inner@);
        assert(q@ =~= seq!['"', '"']);
        assert(out@ =~= csv_escape_spec(s@));
        string_from_chars(&out)
    } else {
        string_from_chars(&v)
    }
}

/// TSV escaping: tab characters become the two characters `\t`; nothing is quoted.
pub open spec fn tsv_escape_spec(s: Seq<char>) -> Seq<char> {
    replace_char(s, '\t', seq!['\\', 't'])
}

/// Escapes one TSV field.
pub fn tsv_escape(s: &str) -> (r: String)
    ensures
        r@ == tsv_escape_spec(s@),
{
    let v = chars_of(s);
    let mut t: Vec<char> = Vec::new();
    t.push('\\');
    t.push('t');
    assert(t@ =~= seq!['\\', 't']);
    let out = replace_char_chars(&v, '\t', &t);
    string_from_chars(&out)
}

/// Three dots.
pub open spec fn ellipsis() -> Seq<char> {
    seq!['.', '.', '.']
}

/// At most `max` characters of `s`: a longer text keeps its first `max - 3`
/// characters followed by `...`, or, when `max < 3` leaves no room for the
/// dots, just its first `max` characters.
pub open spec fn truncate_spec(s: Seq<char>, max: nat) -> Seq<char> {
    if s.len() > max {
        if max >= 3 {
            s.take(max - 3) + ellipsis()
        } else {
            s.take(max as int)
        }
    } else {
        s
    }
}

/// Truncation leaves a text of at most `max` characters: a short text is
/// unchanged, a long one is a prefix of it, followed by `...` where `max`
/// leaves room for the dots.
pub proof fn law_truncate_at_most_max(s: Seq<char>, max: nat)
    ensures
        truncate_spec(s, max).len() <= max,
        s.len() <= max ==> truncate_spec(s, max) == s,
        s.len() > max && max >= 3 ==> truncate_spec(s, max) == s.take(max - 3) + seq!['.', '.', '.'],
        s.len() > max && max < 3 ==> truncate_spec(s, max) == s.take(max as int),
{
    assert(ellipsis() =~= seq!['.', '.', '.']);
}

/// Truncates `s` to at most `max` characters, appending `...` when shortened.
/// Counts characters, never bytes, so multi-byte text is cut cleanly.
pub fn truncate_ellipsis(s: &str, max: usize) -> (r: String)
    ensures
        r@ == truncate_spec(s@, max as nat),
        r@.len() <= max,
{
    let v = chars_of(s);
    if v.len() > max {
        if max >= 3 {
            let mut out = crate::text::slice_chars(&v, 0, max - 3);
            out.push('.');
            out.push('.');
            out.push('.');
            assert(out@ =~= truncate_spec(s@, max as nat));
            string_from_chars(&out)
        } else {
            let out = crate::text::slice_chars(&v, 0, max);
            assert(out@ =~= truncate_spec(s@, max as nat));
            string_from_chars(&out)
        }
    } else {
        string_from_chars(&v)
    }
}

// ---------------------------------------------------------------------------
// API errors
// ---------------------------------------------------------------------------

/// The guidance printed for an HTTP status, or nothing.
pub open spec fn status_hint(code: u16) -> Seq<char> {
    if code >= 500 {
        "API server error — try again later"@
    } else if code == 429 {
        "rate limited — wait and retry"@
    } else if code == 403 {
        "access denied — check permissions"@
    } else if code == 401 {
        "authentication failed — check credentials or run 'pup auth login'"@
    } else if code == 404 {
        "resource not found — verify the ID"@
    } else if code == 400 {
        "invalid request — check parameters"@
    } else {
        Seq::empty()
    }
}

/// The message of a failed API operation: the operation, the HTTP status
/// when known, the response body when non-empty, and a hint for the status.
pub open spec fn api_error_spec(op: Seq<char>, status: Option<u16>, body: Option<Seq<char>>) -> Seq<
    char,
> {
    let head = "failed to "@ + op;
    let with_status = match status {
        Some(c) => head + " (HTTP "@ + decimal(c as nat) + ")"@,
        None => head,
    };
    let with_body = match body {
        Some(b) => if b.len() > 0 {
            with_status + "\nAPI response: "@ + b
        } else {
            with_status
        },
        None => with_status,
    };
    match status {
        Some(c) => if status_hint(c).len() > 0 {
            with_body + "\nHint: "@ + status_hint(c)
        } else {
            with_body
        },
        None => with_body,
    }
}

/// The hint for an HTTP status.
fn hint_for(code: u16) -> (r: &'static str)
    ensures
        r@ == status_hint(code),
{
    if code >= 500 {
        "API server error — try again later"
    } else if code == 429 {
        "rate limited — wait and retry"
    } else if code == 403 {
        "access denied — check permissions"
    } else if code == 401 {
        "authentication failed — check credentials or run 'pup auth login'"
    } else if code == 404 {
        "resource not found — verify the ID"
    } else if code == 400 {
        "invalid request — check parameters"
    } else {
        proof {
            reveal_strlit("");
        }
        ""
    }
}

/// Formats an API error with contextual guidance.
pub fn format_api_error(operation: &str, status: Option<u16>, body: Option<&str>) -> (r: String)
    ensures
        r@ == api_error_spec(
            operation@,
            status,
            match body {
                Some(b) => Some(b@),
                None => None,
            },
        ),
{
    let mut msg = crate::text::owned("failed to ");
    push_text(&mut msg, operation);
    if let Some(code) = status {
        push_text(&mut msg, " (HTTP ");
        let d = u64_decimal(code as u64);
        push_text(&mut msg, d.as_str());
        push_text(&mut msg, ")");
    }
    if let Some(b) = body {
        let bv = chars_of(b);
        if bv.len() > 0 {
            push_text(&mut msg, "\nAPI response: ");
            push_text(&mut msg, b);
        }
    }
    if let Some(code) = status {
        let hint = hint_for(code);
        let hv = chars_of(hint);
        if hv.len() > 0 {
            push_text(&mut msg, "\nHint: ");
            push_text(&mut msg, hint);
        }
    }
    msg
}

// ---------------------------------------------------------------------------
// Table and CSV cells
// ---------------------------------------------------------------------------

/// `{N fields}`.
pub open spec fn fields_label(n: nat) -> Seq<char> {
    seq!['{'] + decimal(n) + " fields}"@
}

/// The text of a boolean.
pub open spec fn bool_text(b: bool) -> Seq<char> {
    if b {
        seq!['t', 'r', 'u', 'e']
    } else {
        seq!['f', 'a', 'l', 's', 'e']
    }
}

/// The table cell for a value: empty for a missing value or `null`, strings
/// cut at fifty characters, numbers and booleans as written, arrays as a
/// preview of their first four items, objects as `{N fields}`.
pub open spec fn cell_spec(v: Option<Json>) -> Seq<char> {
    match v {
        None => Seq::empty(),
        Some(j) => cell_value_spec(j),
    }
}

/// The table cell for a present value.
pub open spec fn cell_value_spec(j: Json) -> Seq<char>
    decreases j, 0nat,
{
    match j {
        Json::Null => Seq::empty(),
        Json::Str(s) => truncate_spec(s, 50),
        Json::Number(n) => n,
        Json::Bool(b) => bool_text(b),
        Json::Array(items) => {
            proof {
                assert(decreases_to!(j => items));
            }
            if items.len() == 0 {
                seq!['[', ']']
            } else {
                let n: nat = if items.len() > 4 {
                    4
                } else {
                    items.len()
                };
                let parts = item_parts(items, n);
                let all = if items.len() > 4 {
                    parts.push(seq!['+'] + decimal((items.len() - 4) as nat) + " more"@)
                } else {
                    parts
                };
                truncate_spec(seq!['['] + join(all, seq![',', ' ']) + seq![']'], 50)
            }
        },
        Json::Object(e) => fields_label(e.len()),
    }
}

/// A table cell shows a scalar as it is written: a missing value or `null`
/// as nothing, a number as its text, `true` and `false` as those words, a
/// string of at most fifty characters unchanged and a longer one as its
/// first forty-seven characters and `...`; no cell of a scalar is longer
/// than fifty characters unless the number's own text is.
pub proof fn law_scalar_cells(s: Seq<char>, n: Seq<char>, b: bool)
    ensures
        cell_spec(None) == Seq::<char>::empty(),
        cell_spec(Some(Json::Null)) == Seq::<char>::empty(),
        cell_spec(Some(Json::Number(n))) == n,
        cell_spec(Some(Json::Bool(b))) == if b {
            seq!['t', 'r', 'u', 'e']
        } else {
            seq!['f', 'a', 'l', 's', 'e']
        },
        s.len() <= 50 ==> cell_spec(Some(Json::Str(s))) == s,
        s.len() > 50 ==> cell_spec(Some(Json::Str(s))) == s.take(47) + seq!['.', '.', '.'],
        cell_spec(Some(Json::Str(s))).len() <= 50,
{
    law_truncate_at_most_max(s, 50);
}

/// The previews of the first `n` items of an array.
pub open spec fn item_parts(items: Seq<Json>, n: nat) -> Seq<Seq<char>>
    decreases items, n,
{
    if n == 0 || n > items.len() {
        Seq::empty()
    } else {
        proof {
            broadcast use vstd::seq::axiom_seq_index_decreases;

            assert(decreases_to!(items => items[n - 1]));
        }
        item_parts(items, (n - 1) as nat).push(array_item_spec(items[n - 1]))
    }
}

/// The keys looked at, in order, to label an object inside an array preview.
pub open spec fn label_keys() -> Seq<Seq<char>> {
    seq!["name"@, "title"@, "id"@, "type"@]
}

/// The first of `keys` under which the object holds a string.
pub open spec fn first_string_under(e: Seq<(Seq<char>, Json)>, keys: Seq<Seq<char>>) -> Option<
    Seq<char>,
>
    decreases keys.len(),
{
    if keys.len() == 0 {
        None
    } else {
        match lookup(e, keys[0]) {
            Some(Json::Str(s)) => Some(s),
            _ => first_string_under(e, keys.drop_first()),
        }
    }
}

/// The compact label of one array item: an object's name, title, id or type
/// (the first present as a string, cut at sixteen characters) or
/// `{N fields}`; any other value as its cell.
pub open spec fn array_item_spec(v: Json) -> Seq<char>
    decreases v, 1nat,
{
    match v {
        Json::Object(e) => match first_string_under(e, label_keys()) {
            Some(s) => truncate_spec(s, 16),
            None => fields_label(e.len()),
        },
        _ => cell_value_spec(v),
    }
}

/// A CSV or TSV cell: the full text of a value, with no truncation; arrays
/// and objects as compact JSON.
pub open spec fn csv_cell_spec(v: Option<Json>) -> Seq<char> {
    match v {
        None => Seq::empty(),
        Some(j) => match j {
            Json::Null => Seq::empty(),
            Json::Str(s) => s,
            Json::Number(n) => n,
            Json::Bool(b) => bool_text(b),
            _ => compact(j),
        },
    }
}

/// `{N fields}` for an object with `n` entries.
fn fields_text(n: usize) -> (r: String)
    ensures
        r@ == fields_label(n as nat),
{
    let mut r = String::new();
    push_char(&mut r, '{');
    let d = u64_decimal(n as u64);
    push_text(&mut r, d.as_str());
    push_text(&mut r, " fields}");
    assert(r@ =~= fields_label(n as nat));
    r
}

/// The text of a boolean.
fn bool_string(b: bool) -> (r: String)
    ensures
        r@ == bool_text(b),
{
    let r = if b {
        crate::text::owned("true")
    } else {
        crate::text::owned("false")
    };
    proof {
        reveal_strlit("true");
        reveal_strlit("false");
    }
    assert(r@ =~= bool_text(b));
    r
}

/// Renders a value as a table cell.
pub fn format_cell(value: Option<&JsonValue>) -> (r: String)
    ensures
        r@ == cell_spec(
            match value {
                Some(v) => Some(v@),
                None => None,
            },
        ),
{
    match value {
        None => String::new(),
        Some(v) => format_value_cell(v),
    }
}

/// Renders a present value as a table cell.
fn format_value_cell(value: &JsonValue) -> (r: String)
    ensures
        r@ == cell_value_spec(value@),
    decreases value, 0nat,
{
    match value {
        JsonValue::Null => String::new(),
        JsonValue::String(s) => truncate_ellipsis(s.as_str(), 50),
        JsonValue::Number(n) => n.clone(),
        JsonValue::Bool(b) => bool_string(*b),
        JsonValue::Array(arr) => {
            proof {
                crate::json::lemma_array_view(*arr);
                lemma_items_view(arr@);
            }
            if arr.len() == 0 {
                let r = crate::text::owned("[]");
                proof {
                    reveal_strlit("[]");
                }
                assert(r@ =~= seq!['[', ']']);
                return r;
            }
            let n: usize = if arr.len() > 4 {
                4
            } else {
                arr.len()
            };
            let ghost items = items_view(arr@);
            let mut parts: Vec<String> = Vec::new();
            let mut i: usize = 0;
            while i < n
                invariant
                    *value == JsonValue::Array(*arr),
                    items == items_view(arr@),
                    items.len() == arr.len(),
                    forall|k: int| 0 <= k < arr.len() ==> #[trigger] items[k] == arr@[k]@,
                    n <= arr.len(),
                    i <= n,
                    views(parts@) == item_parts(items, i as nat),
                decreases n - i,
            {
                proof {
                    broadcast use vstd::std_specs::vec::axiom_vec_index_decreases;

                    assert(decreases_to!(*value => value->Array_0));
                    assert(decreases_to!(*value => arr[i as int]));
                }
                let p = format_array_item(&arr[i]);
                let ghost before = parts@;
                parts.push(p);
                assert(views(parts@) =~= views(before).push(p@));
                i = i + 1;
            }
            if arr.len() > 4 {
                let mut more = String::new();
                push_char(&mut more, '+');
                let d = u64_decimal((arr.len() - 4) as u64);
                push_text(&mut more, d.as_str());
                push_text(&mut more, " more");
                let ghost before = parts@;
                parts.push(more);
                assert(views(parts@) =~= views(before).push(more@));
            }
            let joined = crate::text::join_strings(&parts, ", ");
            let mut whole = String::new();
            push_char(&mut whole, '[');
            push_text(&mut whole, joined.as_str());
            push_char(&mut whole, ']');
            proof {
                reveal_strlit(", ");
            }
            assert(", "@ =~= seq![',', ' ']);
            truncate_ellipsis(whole.as_str(), 50)
        },
        JsonValue::Object(map) => {
            proof {
                crate::json::lemma_object_view(*map);
                lemma_entries_view(map@);
            }
            fields_text(map.len())
        },
    }
}

/// The string stored under `key`, when the value there is a string.
fn str_under<'a>(e: &'a Vec<(String, JsonValue)>, key: &str) -> (r: Option<&'a String>)
    ensures
        match r {
            Some(s) => lookup(entries_view(e@), key@) == Some(Json::Str(s@)),
            None => !(lookup(entries_view(e@), key@) matches Some(Json::Str(_))),
        },
{
    match obj_get(e, key) {
        Some(x) => match x {
            JsonValue::String(s) => Some(s),
            _ => None,
        },
        None => None,
    }
}

/// The first of the label keys under which `e` holds a string.
fn first_label(e: &Vec<(String, JsonValue)>) -> (r: Option<&String>)
    ensures
        match r {
            Some(s) => first_string_under(entries_view(e@), label_keys()) == Some(s@),
            None => first_string_under(entries_view(e@), label_keys()).is_none(),
        },
{
    proof {
        reveal_strlit("name");
        reveal_strlit("title");
        reveal_strlit("id");
        reveal_strlit("type");
        reveal_with_fuel(first_string_under, 5);
        let ks = label_keys();
        assert(ks.drop_first() =~= seq!["title"@, "id"@, "type"@]);
        assert(ks.drop_first().drop_first() =~= seq!["id"@, "type"@]);
        assert(ks.drop_first().drop_first().drop_first() =~= seq!["type"@]);
        assert(ks.drop_first().drop_first().drop_first().drop_first() =~= Seq::<Seq<char>>::empty());
    }
    if let Some(s) = str_under(e, "name") {
        return Some(s);
    }
    if let Some(s) = str_under(e, "title") {
        return Some(s);
    }
    if let Some(s) = str_under(e, "id") {
        return Some(s);
    }
    if let Some(s) = str_under(e, "type") {
        return Some(s);
    }
    None
}

/// The compact label of one array item in a table cell preview.
pub fn format_array_item(value: &JsonValue) -> (r: String)
    ensures
        r@ == array_item_spec(value@),
    decreases value, 1nat,
{
    match value {
        JsonValue::Object(map) => {
            proof {
                crate::json::lemma_object_view(*map);
                lemma_entries_view(map@);
            }
            match first_label(map) {
                Some(s) => truncate_ellipsis(s.as_str(), 16),
                None => fields_text(map.len()),
            }
        },
        _ => format_value_cell(value),
    }
}

/// Renders a value as a CSV or TSV cell.
pub fn csv_cell(value: Option<&JsonValue>) -> (r: String)
    ensures
        r@ == csv_cell_spec(
            match value {
                Some(v) => Some(v@),
                None => None,
            },
        ),
{
    match value {
        None => String::new(),
        Some(JsonValue::Null) => String::new(),
        Some(JsonValue::String(s)) => s.clone(),
        Some(JsonValue::Number(n)) => n.clone(),
        Some(JsonValue::Bool(b)) => bool_string(*b),
        Some(other) => to_compact_string(other),
    }
}

// ---------------------------------------------------------------------------
// Rows
// ---------------------------------------------------------------------------

/// The displayable rows of a response: the items of an array, the rows of
/// the value under `data` when an object wraps one, the object itself
/// otherwise, and nothing for any other value.
pub open spec fn rows_spec(v: Json) -> Seq<Json>
    decreases v,
{
    match v {
        Json::Array(items) => items,
        Json::Object(e) => {
            let i = key_pos(e, "data"@);
            if 0 <= i < e.len() {
                proof {
                    broadcast use vstd::seq::axiom_seq_index_decreases;

                    assert(decreases_to!(v => e));
                    assert(decreases_to!(e => e[i]));
                    assert(decreases_to!(e[i] => e[i].1));
                }
                rows_spec(e[i].1)
            } else {
                seq![v]
            }
        },
        _ => Seq::empty(),
    }
}

/// The rows of a response: an array's items are its rows, one by one; an
/// object that holds `data` has exactly the rows of the value under `data`,
/// whatever that value is; any other object is a single row, itself; and
/// any other value has no rows.
pub proof fn law_rows_of_response(v: Json)
    ensures
        v is Array ==> rows_spec(v) == v->Array_0,
        v is Object && lookup(v->Object_0, "data"@) is Some ==> rows_spec(v) == rows_spec(
            lookup(v->Object_0, "data"@)->Some_0,
        ),
        v is Object && lookup(v->Object_0, "data"@) is None ==> rows_spec(v) == seq![v],
        !(v is Array) && !(v is Object) ==> rows_spec(v).len() == 0,
{
    match v {
        Json::Object(e) => {
            crate::json::lemma_key_pos(e, "data"@);
        },
        _ => {},
    }
}

/// Extracts the displayable rows of a response.
pub fn extract_rows(value: &JsonValue) -> (r: Vec<JsonValue>)
    ensures
        items_view(r@) == rows_spec(value@),
    decreases value,
{
    match value {
        JsonValue::Array(arr) => {
            proof {
                crate::json::lemma_array_view(*arr);
            }
            let mut out: Vec<JsonValue> = Vec::new();
            let mut i: usize = 0;
            while i < arr.len()
                invariant
                    i <= arr.len(),
                    out.len() == i,
                    forall|k: int| 0 <= k < i ==> out@[k]@ == arr@[k]@,
                decreases arr.len() - i,
            {
                out.push(arr[i].deep_clone());
                i = i + 1;
            }
            proof {
                lemma_items_view(out@);
                lemma_items_view(arr@);
            }
            assert(items_view(out@) =~= items_view(arr@));
            out
        },
        JsonValue::Object(map) => {
            proof {
                crate::json::lemma_object_view(*map);
                lemma_entries_view(map@);
                lemma_key_pos(entries_view(map@), "data"@);
            }
            match crate::json::find_key(map, "data") {
                Some(i) => {
                    proof {
                        broadcast use vstd::std_specs::vec::axiom_vec_index_decreases;

                        assert(decreases_to!(*value => value->Object_0));
                        assert(decreases_to!(*value => map[i as int]));
                        assert(decreases_to!(map[i as int] => map[i as int].1));
                    }
                    extract_rows(&map[i].1)
                },
                None => {
                    let mut out: Vec<JsonValue> = Vec::new();
                    out.push(value.deep_clone());
                    proof {
                        lemma_items_view(out@);
                    }
                    assert(items_view(out@) =~= seq![value@]);
                    out
                },
            }
        },
        _ => {
            let out: Vec<JsonValue> = Vec::new();
            proof {
                lemma_items_view(out@);
            }
            assert(items_view(out@) =~= Seq::<Json>::empty());
            out
        },
    }
}

/// `a.b`: two key parts joined by a dot.
pub open spec fn dot(a: Seq<char>, b: Seq<char>) -> Seq<char> {
    a + seq!['.'] + b
}

/// Entries after inserting `inner2`'s first `m` entries under `prefix.key`.
pub open spec fn flat_level2(
    acc: Seq<(Seq<char>, Json)>,
    prefix: Seq<char>,
    inner2: Seq<(Seq<char>, Json)>,
    m: nat,
) -> Seq<(Seq<char>, Json)>
    decreases m,
{
    if m == 0 || m > inner2.len() {
        acc
    } else {
        insert_entry(
            flat_level2(acc, prefix, inner2, (m - 1) as nat),
            dot(prefix, inner2[m - 1].0),
            inner2[m - 1].1,
        )
    }
}

/// Entries after flattening the first `m` entries of the object under `k`.
pub open spec fn flat_level1(
    acc: Seq<(Seq<char>, Json)>,
    k: Seq<char>,
    inner: Seq<(Seq<char>, Json)>,
    m: nat,
) -> Seq<(Seq<char>, Json)>
    decreases m,
{
    if m == 0 || m > inner.len() {
        acc
    } else {
        let acc2 = flat_level1(acc, k, inner, (m - 1) as nat);
        let ik = inner[m - 1].0;
        match inner[m - 1].1 {
            Json::Object(inner2) => flat_level2(acc2, dot(k, ik), inner2, inner2.len()),
            iv => insert_entry(acc2, dot(k, ik), iv),
        }
    }
}

/// The entries of a row after flattening its first `n` entries.
pub open spec fn flat_entries(e: Seq<(Seq<char>, Json)>, n: nat) -> Seq<(Seq<char>, Json)>
    decreases n,
{
    if n == 0 || n > e.len() {
        Seq::empty()
    } else {
        let acc = flat_entries(e, (n - 1) as nat);
        match e[n - 1].1 {
            Json::Object(inner) => flat_level1(acc, e[n - 1].0, inner, inner.len()),
            v => insert_entry(acc, e[n - 1].0, v),
        }
    }
}

/// A row with nested objects up to two levels deep flattened into
/// dot-separated keys: `{"a": {"b": 1, "c": {"d": 2}}}` becomes
/// `{"a.b": 1, "a.c.d": 2}`. Values that are not objects are unchanged.
pub open spec fn flatten_row_spec(v: Json) -> Json {
    match v {
        Json::Object(e) => Json::Object(flat_entries(e, e.len())),
        _ => v,
    }
}

/// `a.b` as a string.
fn dotted(a: &String, b: &String) -> (r: String)
    ensures
        r@ == dot(a@, b@),
{
    let mut r = a.clone();
    push_char(&mut r, '.');
    push_text(&mut r, b.as_str());
    r
}

/// Flattens up to two levels of nested objects into dot-notation keys.
pub fn flatten_row(value: &JsonValue) -> (r: JsonValue)
    ensures
        r@ == flatten_row_spec(value@),
{
    match value {
        JsonValue::Object(map) => {
            proof {
                crate::json::lemma_object_view(*map);
                lemma_entries_view(map@);
            }
            let ghost ev = entries_view(map@);
            let mut flat: Vec<(String, JsonValue)> = Vec::new();
            let mut i: usize = 0;
            proof {
                lemma_entries_view(flat@);
            }
            while i < map.len()
                invariant
                    ev == entries_view(map@),
                    ev.len() == map.len(),
                    forall|k: int| 0 <= k < map.len() ==> #[trigger] ev[k] == (map@[k].0@, map@[k].1@),
                    i <= map.len(),
                    entries_view(flat@) == flat_entries(ev, i as nat),
                decreases map.len() - i,
            {
                match &map[i].1 {
                    JsonValue::Object(inner) => {
                        proof {
                            crate::json::lemma_object_view(*inner);
                            lemma_entries_view(inner@);
                        }
                        let ghost iv = entries_view(inner@);
                        let ghost acc = entries_view(flat@);
                        let mut j: usize = 0;
                        while j < inner.len()
                            invariant
                                iv == entries_view(inner@),
                                iv.len() == inner.len(),
                                i < map.len(),
                                forall|k: int| 0 <= k < inner.len() ==> #[trigger] iv[k] == (inner@[k].0@, inner@[k].1@),
                                j <= inner.len(),
                                entries_view(flat@) == flat_level1(acc, map@[i as int].0@, iv, j as nat),
                            decreases inner.len() - j,
                        {
                            match &inner[j].1 {
                                JsonValue::Object(inner2) => {
                                    proof {
                                        crate::json::lemma_object_view(*inner2);
                                        lemma_entries_view(inner2@);
                                    }
                                    let ghost i2v = entries_view(inner2@);
                                    let ghost acc2 = entries_view(flat@);
                                    let prefix = dotted(&map[i].0, &inner[j].0);
                                    let mut m: usize = 0;
                                    while m < inner2.len()
                                        invariant
                                            i2v == entries_view(inner2@),
                                            i2v.len() == inner2.len(),
                                            forall|k: int| 0 <= k < inner2.len() ==> #[trigger] i2v[k] == (inner2@[k].0@, inner2@[k].1@),
                                            m <= inner2.len(),
                                            entries_view(flat@) == flat_level2(acc2, prefix@, i2v, m as nat),
                                        decreases inner2.len() - m,
                                    {
                                        let key = dotted(&prefix, &inner2[m].0);
                                        let val = inner2[m].1.deep_clone();
                                        obj_insert(&mut flat, key, val);
                                        m = m + 1;
                                    }
                                },
                                other => {
                                    let key = dotted(&map[i].0, &inner[j].0);
                                    let val = other.deep_clone();
                                    obj_insert(&mut flat, key, val);
                                },
                            }
                            j = j + 1;
                        }
                    },
                    other => {
                        let val = other.deep_clone();
                        obj_insert(&mut flat, map[i].0.clone(), val);
                    },
                }
                i = i + 1;
            }
            let r = JsonValue::Object(flat);
            proof {
                crate::json::lemma_object_view(flat);
            }
            r
        },
        _ => value.deep_clone(),
    }
}

/// The key of a child of `prefix`: the child's own key at the top level,
/// `prefix.key` below it.
pub open spec fn child_key(prefix: Seq<char>, k: Seq<char>) -> Seq<char> {
    if prefix.len() == 0 {
        k
    } else {
        dot(prefix, k)
    }
}

/// The entries after inserting every leaf of `v` under dot-separated keys
/// that start with `prefix`.
pub open spec fn deep_spec(acc: Seq<(Seq<char>, Json)>, prefix: Seq<char>, v: Json) -> Seq<
    (Seq<char>, Json),
>
    decreases v, 1nat,
{
    match v {
        Json::Object(e) => {
            proof {
                assert(decreases_to!(v => e));
            }
            deep_entries(acc, prefix, e, e.len())
        },
        _ => insert_entry(acc, prefix, v),
    }
}

/// The entries after flattening the first `n` entries of an object at `prefix`.
pub open spec fn deep_entries(
    acc: Seq<(Seq<char>, Json)>,
    prefix: Seq<char>,
    e: Seq<(Seq<char>, Json)>,
    n: nat,
) -> Seq<(Seq<char>, Json)>
    decreases e, n,
{
    if n == 0 || n > e.len() {
        acc
    } else {
        proof {
            broadcast use vstd::seq::axiom_seq_index_decreases;

            assert(decreases_to!(e => e[n - 1]));
            assert(decreases_to!(e[n - 1] => e[n - 1].1));
        }
        deep_spec(
            deep_entries(acc, prefix, e, (n - 1) as nat),
            child_key(prefix, e[n - 1].0),
            e[n - 1].1,
        )
    }
}

/// Recursively flattens an object into dot-notation keys at any depth:
/// `{"a": {"b": {"c": 1}}}` gives `a.b.c = 1`.
pub fn flatten_deep(value: &JsonValue, prefix: &String, out: &mut Vec<(String, JsonValue)>)
    ensures
        entries_view(final(out)@) == deep_spec(entries_view(old(out)@), prefix@, value@),
    decreases value,
{
    match value {
        JsonValue::Object(map) => {
            proof {
                crate::json::lemma_object_view(*map);
                lemma_entries_view(map@);
            }
            let ghost ev = entries_view(map@);
            let ghost acc = entries_view(out@);
            let mut i: usize = 0;
            while i < map.len()
                invariant
                    *value == JsonValue::Object(*map),
                    ev == entries_view(map@),
                    ev.len() == map.len(),
                    forall|k: int| 0 <= k < map.len() ==> #[trigger] ev[k] == (map@[k].0@, map@[k].1@),
                    i <= map.len(),
                    entries_view(out@) == deep_entries(acc, prefix@, ev, i as nat),
                decreases map.len() - i,
            {
                proof {
                    broadcast use vstd::std_specs::vec::axiom_vec_index_decreases;

                    assert(decreases_to!(*value => value->Object_0));
                    assert(decreases_to!(*value => map[i as int]));
                    assert(decreases_to!(map[i as int] => map[i as int].1));
                }
                let pv = chars_of(prefix.as_str());
                let key = if pv.len() == 0 {
                    map[i].0.clone()
                } else {
                    dotted(prefix, &map[i].0)
                };
                flatten_deep(&map[i].1, &key, out);
                i = i + 1;
            }
        },
        _ => {
            obj_insert(out, prefix.clone(), value.deep_clone());
        },
    }
}

// ---------------------------------------------------------------------------
// Sorting object keys
// ---------------------------------------------------------------------------

/// `(k, v)` stored into entries sorted by key: the value of an entry with key
/// `k` is replaced, otherwise the entry goes before the first larger key.
pub open spec fn insert_sorted_entry(s: Seq<(Seq<char>, Json)>, k: Seq<char>, v: Json) -> Seq<
    (Seq<char>, Json),
>
    decreases s.len(),
{
    if s.len() == 0 {
        seq![(k, v)]
    } else if s[0].0 == k {
        s.update(0, (k, v))
    } else if key_lt(k, s[0].0) {
        seq![(k, v)] + s
    } else {
        seq![s[0]] + insert_sorted_entry(s.drop_first(), k, v)
    }
}

/// A document with the keys of every object sorted, at every depth. When a
/// key occurs more than once, its last value is kept (as a sorted map would).
pub open spec fn sort_json(v: Json) -> Json
    decreases v, 1nat,
{
    match v {
        Json::Object(e) => {
            proof {
                assert(decreases_to!(v => e));
            }
            Json::Object(sorted_entries(e, e.len()))
        },
        Json::Array(items) => {
            proof {
                assert(decreases_to!(v => items));
            }
            Json::Array(sorted_items(items, items.len()))
        },
        _ => v,
    }
}

/// The first `n` entries of an object, sorted, with their values sorted.
pub open spec fn sorted_entries(e: Seq<(Seq<char>, Json)>, n: nat) -> Seq<(Seq<char>, Json)>
    decreases e, n,
{
    if n == 0 || n > e.len() {
        Seq::empty()
    } else {
        proof {
            broadcast use vstd::seq::axiom_seq_index_decreases;

            assert(decreases_to!(e => e[n - 1]));
            assert(decreases_to!(e[n - 1] => e[n - 1].1));
        }
        insert_sorted_entry(sorted_entries(e, (n - 1) as nat), e[n - 1].0, sort_json(e[n - 1].1))
    }
}

/// The first `n` items of an array, each sorted.
pub open spec fn sorted_items(items: Seq<Json>, n: nat) -> Seq<Json>
    decreases items, n,
{
    if n == 0 || n > items.len() {
        Seq::empty()
    } else {
        proof {
            broadcast use vstd::seq::axiom_seq_index_decreases;

            assert(decreases_to!(items => items[n - 1]));
        }
        sorted_items(items, (n - 1) as nat).push(sort_json(items[n - 1]))
    }
}

/// The keys after a sorted insertion are the sorted insertion of the key.
pub proof fn lemma_insert_sorted_entry_keys(s: Seq<(Seq<char>, Json)>, k: Seq<char>, v: Json)
    ensures
        keys_of(insert_sorted_entry(s, k, v)) == insert_key(keys_of(s), k),
    decreases s.len(),
{
    if s.len() > 0 {
        assert(keys_of(s)[0] == s[0].0);
        assert(keys_of(s).drop_first() =~= keys_of(s.drop_first()));
        if s[0].0 == k {
            assert(keys_of(s.update(0, (k, v))) =~= keys_of(s));
        } else if key_lt(k, s[0].0) {
            assert(keys_of(seq![(k, v)] + s) =~= seq![k] + keys_of(s));
        } else {
            lemma_insert_sorted_entry_keys(s.drop_first(), k, v);
            assert(keys_of(seq![s[0]] + insert_sorted_entry(s.drop_first(), k, v)) =~= seq![s[0].0]
                + keys_of(insert_sorted_entry(s.drop_first(), k, v)));
        }
    } else {
        assert(keys_of(seq![(k, v)]) =~= seq![k]);
    }
}

/// Looking a key up after a sorted insertion into entries whose keys are
/// strictly sorted.
pub proof fn lemma_insert_sorted_entry_lookup(
    s: Seq<(Seq<char>, Json)>,
    k: Seq<char>,
    v: Json,
    q: Seq<char>,
)
    requires
        strictly_sorted(keys_of(s)),
    ensures
        lookup(insert_sorted_entry(s, k, v), q) == if q == k {
            Some(v)
        } else {
            lookup(s, q)
        },
    decreases s.len(),
{
    let r = insert_sorted_entry(s, k, v);
    lemma_insert_sorted_entry_keys(s, k, v);
    lemma_insert_key(keys_of(s), k);
    lemma_unique_lookup(r, q);
    lemma_unique_lookup(s, q);
    crate::json::lemma_key_pos(s, q);
    crate::json::lemma_key_pos(r, q);
    if q == k {
        assert(keys_of(r).contains(k));
        let i = choose|i: int| 0 <= i < keys_of(r).len() && keys_of(r)[i] == k;
        lemma_insert_sorted_entry_value(s, k, v, i);
    } else {
        if lookup(s, q).is_some() {
            let i = key_pos(s, q);
            assert(keys_of(s)[i] == q);
            assert(keys_of(s).contains(q));
            assert(keys_of(r).contains(q));
            let m = choose|m: int| 0 <= m < keys_of(r).len() && keys_of(r)[m] == q;
            lemma_insert_sorted_entry_other(s, k, v, m, i);
        } else {
            if lookup(r, q).is_some() {
                let m = key_pos(r, q);
                assert(keys_of(r)[m] == q);
                assert(keys_of(r).contains(q));
                assert(keys_of(s).contains(q));
                let i = choose|i: int| 0 <= i < keys_of(s).len() && keys_of(s)[i] == q;
                assert(s[i].0 == q);
                crate::json::lemma_key_pos(s, q);
            }
        }
    }
}

/// In entries with strictly sorted keys, a key's entry is the only one with it.
proof fn lemma_unique_lookup(s: Seq<(Seq<char>, Json)>, q: Seq<char>)
    requires
        strictly_sorted(keys_of(s)),
    ensures
        forall|i: int| 0 <= i < s.len() && s[i].0 == q ==> lookup(s, q) == Some(s[i].1),
{
    crate::json::lemma_key_pos(s, q);
    assert forall|i: int| 0 <= i < s.len() && s[i].0 == q implies lookup(s, q) == Some(s[i].1) by {
        let p = key_pos(s, q);
        if p != i {
            assert(p > i);
            assert(keys_of(s)[i] == q && keys_of(s)[p] == q);
            lemma_key_lt_irreflexive(q);
        }
    }
}

/// The inserted key carries the inserted value.
proof fn lemma_insert_sorted_entry_value(s: Seq<(Seq<char>, Json)>, k: Seq<char>, v: Json, i: int)
    requires
        0 <= i < insert_sorted_entry(s, k, v).len(),
        insert_sorted_entry(s, k, v)[i].0 == k,
        strictly_sorted(keys_of(insert_sorted_entry(s, k, v))),
    ensures
        insert_sorted_entry(s, k, v)[i].1 == v,
    decreases s.len(),
{
    let r = insert_sorted_entry(s, k, v);
    if s.len() > 0 && s[0].0 != k && !key_lt(k, s[0].0) {
        if i == 0 {
            assert(r[0] == s[0]);
        } else {
            let t = s.drop_first();
            let rt = insert_sorted_entry(t, k, v);
            assert(rt[i - 1] == r[i]);
            assert(strictly_sorted(keys_of(rt))) by {
                assert forall|a: int, b: int| 0 <= a < b < keys_of(rt).len() implies key_lt(
                    keys_of(rt)[a],
                    keys_of(rt)[b],
                ) by {
                    assert(keys_of(rt)[a] == keys_of(r)[a + 1]);
                    assert(keys_of(rt)[b] == keys_of(r)[b + 1]);
                }
            }
            lemma_insert_sorted_entry_value(t, k, v, i - 1);
        }
    } else if s.len() > 0 && s[0].0 != k {
        if i > 0 {
            assert(keys_of(r)[0] == k && keys_of(r)[i] == k);
            lemma_key_lt_irreflexive(k);
        }
    } else if s.len() > 0 {
        if i > 0 {
            assert(keys_of(r)[0] == k && keys_of(r)[i] == k);
            lemma_key_lt_irreflexive(k);
        }
    }
}

/// Other keys keep their values.
proof fn lemma_insert_sorted_entry_other(
    s: Seq<(Seq<char>, Json)>,
    k: Seq<char>,
    v: Json,
    m: int,
    i: int,
)
    requires
        0 <= m < insert_sorted_entry(s, k, v).len(),
        0 <= i < s.len(),
        insert_sorted_entry(s, k, v)[m].0 == s[i].0,
        s[i].0 != k,
        strictly_sorted(keys_of(s)),
        strictly_sorted(keys_of(insert_sorted_entry(s, k, v))),
    ensures
        insert_sorted_entry(s, k, v)[m].1 == s[i].1,
    decreases s.len(),
{
    let r = insert_sorted_entry(s, k, v);
    let q = s[i].0;
    if s[0].0 == k {
        if m != i {
            assert(keys_of(r)[m] == q);
            assert(keys_of(r)[i] == q);
            lemma_key_lt_irreflexive(q);
        }
    } else if key_lt(k, s[0].0) {
        if m - 1 != i {
            assert(keys_of(r)[m] == q);
            assert(keys_of(r)[i + 1] == q);
            lemma_key_lt_irreflexive(q);
        }
    } else {
        let t = s.drop_first();
        if i == 0 {
            if m != 0 {
                assert(keys_of(r)[m] == q && keys_of(r)[0] == q);
                lemma_key_lt_irreflexive(q);
            }
        } else {
            if m == 0 {
                assert(keys_of(s)[0] == q && keys_of(s)[i] == q);
                lemma_key_lt_irreflexive(q);
            } else {
                let rt = insert_sorted_entry(t, k, v);
                assert(rt[m - 1] == r[m]);
                assert(t[i - 1] == s[i]);
                assert(strictly_sorted(keys_of(t))) by {
                    assert forall|a: int, b: int| 0 <= a < b < keys_of(t).len() implies key_lt(
                        keys_of(t)[a],
                        keys_of(t)[b],
                    ) by {
                        assert(keys_of(t)[a] == keys_of(s)[a + 1]);
                        assert(keys_of(t)[b] == keys_of(s)[b + 1]);
                    }
                }
                assert(strictly_sorted(keys_of(rt))) by {
                    assert forall|a: int, b: int| 0 <= a < b < keys_of(rt).len() implies key_lt(
                        keys_of(rt)[a],
                        keys_of(rt)[b],
                    ) by {
                        assert(keys_of(rt)[a] == keys_of(r)[a + 1]);
                        assert(keys_of(rt)[b] == keys_of(r)[b + 1]);
                    }
                }
                lemma_insert_sorted_entry_other(t, k, v, m - 1, i - 1);
            }
        }
    }
}

/// Inserting past a prefix of smaller keys leaves the prefix in place.
proof fn lemma_insert_sorted_entry_split(s: Seq<(Seq<char>, Json)>, k: Seq<char>, v: Json, j: int)
    requires
        0 <= j <= s.len(),
        forall|i: int| 0 <= i < j ==> key_lt(s[i].0, k),
    ensures
        insert_sorted_entry(s, k, v) == s.take(j) + insert_sorted_entry(s.skip(j), k, v),
    decreases j,
{
    if j > 0 {
        lemma_key_lt_irreflexive(k);
        lemma_key_lt_total(s[0].0, k);
        lemma_insert_sorted_entry_split(s.drop_first(), k, v, j - 1);
        assert(s.drop_first().take(j - 1) =~= s.take(j).drop_first());
        assert(s.drop_first().skip(j - 1) =~= s.skip(j));
        assert(s.take(j) =~= seq![s[0]] + s.take(j).drop_first());
    } else {
        assert(s.skip(0) =~= s);
        assert(s.take(0) + insert_sorted_entry(s.skip(0), k, v) =~= insert_sorted_entry(s, k, v));
    }
}

/// Stores `(k, v)` into entries whose keys are strictly sorted.
fn insert_sorted_exec(s: &mut Vec<(String, JsonValue)>, k: String, v: JsonValue)
    requires
        strictly_sorted(keys_of(entries_view(old(s)@))),
    ensures
        entries_view(final(s)@) == insert_sorted_entry(entries_view(old(s)@), k@, v@),
{
    let ghost sv = entries_view(s@);
    proof {
        lemma_entries_view(s@);
    }
    let kv = chars_of(k.as_str());
    let mut j: usize = 0;
    while j < s.len()
        invariant
            sv == entries_view(s@),
            sv.len() == s.len(),
            forall|i: int| 0 <= i < s.len() ==> #[trigger] sv[i] == (s@[i].0@, s@[i].1@),
            kv@ == k@,
            j <= s.len(),
            forall|i: int| 0 <= i < j ==> key_lt(sv[i].0, k@),
        ensures
            j <= s.len(),
            forall|i: int| 0 <= i < j ==> key_lt(sv[i].0, k@),
            j < s.len() ==> !key_lt(sv[j as int].0, k@),
        decreases s.len() - j,
    {
        let sj = chars_of(s[j].0.as_str());
        if !key_less(&sj, &kv) {
            break;
        }
        j = j + 1;
    }
    proof {
        lemma_insert_sorted_entry_split(sv, k@, v@, j as int);
    }
    let ghost rest = sv.skip(j as int);
    if j < s.len() {
        assert(rest[0] == sv[j as int]);
        let sj = chars_of(s[j].0.as_str());
        if crate::text::chars_eq(&sj, &kv) {
            s.set(j, (k, v));
            proof {
                lemma_entries_view(s@);
            }
            assert(entries_view(s@) =~= sv.take(j as int) + rest.update(0, (k@, v@)));
        } else {
            proof {
                lemma_key_lt_total(sv[j as int].0, k@);
            }
            s.insert(j, (k, v));
            proof {
                lemma_entries_view(s@);
            }
            assert(entries_view(s@) =~= sv.take(j as int) + (seq![(k@, v@)] + rest));
        }
    } else {
        s.push((k, v));
        proof {
            lemma_entries_view(s@);
        }
        assert(entries_view(s@) =~= sv.take(j as int) + seq![(k@, v@)]);
    }
}

/// The keys of sorted entries are strictly sorted.
proof fn lemma_sorted_entries_sorted(e: Seq<(Seq<char>, Json)>, n: nat)
    ensures
        strictly_sorted(keys_of(sorted_entries(e, n))),
    decreases n,
{
    if n > 0 && n <= e.len() {
        lemma_sorted_entries_sorted(e, (n - 1) as nat);
        let prev = sorted_entries(e, (n - 1) as nat);
        lemma_insert_sorted_entry_keys(prev, e[n - 1].0, sort_json(e[n - 1].1));
        lemma_insert_key(keys_of(prev), e[n - 1].0);
    } else {
        assert(keys_of(sorted_entries(e, n)) =~= Seq::<Seq<char>>::empty());
    }
}

/// Recursively sorts all object keys alphabetically.
pub fn sort_json_value(v: &JsonValue) -> (r: JsonValue)
    ensures
        r@ == sort_json(v@),
    decreases v,
{
    match v {
        JsonValue::Object(map) => {
            proof {
                crate::json::lemma_object_view(*map);
                lemma_entries_view(map@);
            }
            let ghost ev = entries_view(map@);
            let mut sorted: Vec<(String, JsonValue)> = Vec::new();
            proof {
                lemma_entries_view(sorted@);
            }
            let mut i: usize = 0;
            while i < map.len()
                invariant
                    *v == JsonValue::Object(*map),
                    ev == entries_view(map@),
                    ev.len() == map.len(),
                    forall|k: int| 0 <= k < map.len() ==> #[trigger] ev[k] == (map@[k].0@, map@[k].1@),
                    i <= map.len(),
                    entries_view(sorted@) == sorted_entries(ev, i as nat),
                decreases map.len() - i,
            {
                proof {
                    broadcast use vstd::std_specs::vec::axiom_vec_index_decreases;

                    assert(decreases_to!(*v => v->Object_0));
                    assert(decreases_to!(*v => map[i as int]));
                    assert(decreases_to!(map[i as int] => map[i as int].1));
                    lemma_sorted_entries_sorted(ev, i as nat);
                }
                let val = sort_json_value(&map[i].1);
                insert_sorted_exec(&mut sorted, map[i].0.clone(), val);
                i = i + 1;
            }
            let r = JsonValue::Object(sorted);
            proof {
                crate::json::lemma_object_view(sorted);
            }
            r
        },
        JsonValue::Array(arr) => {
            proof {
                crate::json::lemma_array_view(*arr);
                lemma_items_view(arr@);
            }
            let ghost iv = items_view(arr@);
            let mut out: Vec<JsonValue> = Vec::new();
            proof {
                lemma_items_view(out@);
            }
            let mut i: usize = 0;
            while i < arr.len()
                invariant
                    *v == JsonValue::Array(*arr),
                    iv == items_view(arr@),
                    iv.len() == arr.len(),
                    forall|k: int| 0 <= k < arr.len() ==> #[trigger] iv[k] == arr@[k]@,
                    i <= arr.len(),
                    items_view(out@) == sorted_items(iv, i as nat),
                decreases arr.len() - i,
            {
                proof {
                    broadcast use vstd::std_specs::vec::axiom_vec_index_decreases;

                    assert(decreases_to!(*v => v->Array_0));
                    assert(decreases_to!(*v => arr[i as int]));
                }
                let x = sort_json_value(&arr[i]);
                let ghost before = out@;
                out.push(x);
                proof {
                    lemma_items_view(out@);
                    lemma_items_view(before);
                }
                assert(items_view(out@) =~= items_view(before).push(x@));
                i = i + 1;
            }
            let r = JsonValue::Array(out);
            proof {
                crate::json::lemma_array_view(out);
            }
            r
        },
        _ => v.deep_clone(),
    }
}

/// Sorting an object leaves its keys in strictly increasing order, each once.
pub proof fn law_sorted_object_keys_increase(v: Json)
    requires
        v is Object,
    ensures
        sort_json(v) is Object,
        strictly_sorted(keys_of(sort_json(v)->Object_0)),
{
    lemma_sorted_entries_sorted(v->Object_0, v->Object_0.len());
}

/// Sorting an object keeps every key and its value: looking a key up in the
/// sorted object gives the sorted form of what it held before (its last
/// value), and a key absent before stays absent.
pub proof fn law_sorted_object_lookup(v: Json, q: Seq<char>)
    requires
        v is Object,
    ensures
        lookup(sort_json(v)->Object_0, q) == match lookup(v->Object_0, q) {
            Some(x) => Some(sort_json(x)),
            None => None,
        },
{
    let e = v->Object_0;
    lemma_sorted_entries_lookup(e, e.len(), q);
    assert(e.take(e.len() as int) =~= e);
}

/// Looking up in the sorted first `n` entries.
proof fn lemma_sorted_entries_lookup(e: Seq<(Seq<char>, Json)>, n: nat, q: Seq<char>)
    requires
        n <= e.len(),
    ensures
        lookup(sorted_entries(e, n), q) == match lookup(e.take(n as int), q) {
            Some(x) => Some(sort_json(x)),
            None => None,
        },
    decreases n,
{
    if n == 0 {
        crate::json::lemma_key_pos(sorted_entries(e, n), q);
        assert(e.take(0) =~= Seq::<(Seq<char>, Json)>::empty());
    } else {
        lemma_sorted_entries_lookup(e, (n - 1) as nat, q);
        lemma_sorted_entries_sorted(e, (n - 1) as nat);
        let prev = sorted_entries(e, (n - 1) as nat);
        lemma_insert_sorted_entry_lookup(prev, e[n - 1].0, sort_json(e[n - 1].1), q);
        let t = e.take(n as int);
        assert(t.drop_last() =~= e.take(n - 1));
        assert(t.last() == e[n - 1]);
        crate::json::lemma_key_pos(t, q);
        crate::json::lemma_key_pos(e.take(n - 1), q);
        if t.last().0 != q {
            assert(key_pos(t, q) == key_pos(t.drop_last(), q));
            if key_pos(t, q) >= 0 {
                assert(t[key_pos(t, q)] == t.drop_last()[key_pos(t, q)]);
            }
        }
    }
}

// ---------------------------------------------------------------------------
// CSV and TSV
// ---------------------------------------------------------------------------

/// Escaping of one field: CSV quoting, or TSV tab escaping.
pub open spec fn field_escape(tsv: bool, s: Seq<char>) -> Seq<char> {
    if tsv {
        tsv_escape_spec(s)
    } else {
        csv_escape_spec(s)
    }
}

/// The field separator: a tab for TSV, a comma for CSV.
pub open spec fn field_sep(tsv: bool) -> Seq<char> {
    if tsv {
        seq!['\t']
    } else {
        seq![',']
    }
}

/// A row flattened to dot-separated keys at any depth.
pub open spec fn deep_row(v: Json) -> Seq<(Seq<char>, Json)> {
    deep_spec(Seq::empty(), Seq::empty(), v)
}

/// The sorted keys after adding the first `m` keys of `ks`.
pub open spec fn add_keys(acc: Seq<Seq<char>>, ks: Seq<Seq<char>>, m: nat) -> Seq<Seq<char>>
    decreases m,
{
    if m == 0 || m > ks.len() {
        acc
    } else {
        insert_key(add_keys(acc, ks, (m - 1) as nat), ks[m - 1])
    }
}

/// The sorted, distinct keys of the first `n` rows.
pub open spec fn header_keys(rows: Seq<Seq<(Seq<char>, Json)>>, n: nat) -> Seq<Seq<char>>
    decreases n,
{
    if n == 0 || n > rows.len() {
        Seq::empty()
    } else {
        let ks = keys_of(rows[n - 1]);
        add_keys(header_keys(rows, (n - 1) as nat), ks, ks.len())
    }
}

/// The header line of a CSV or TSV document.
pub open spec fn header_line(headers: Seq<Seq<char>>, tsv: bool) -> Seq<char> {
    join(headers.map_values(|h: Seq<char>| field_escape(tsv, h)), field_sep(tsv))
}

/// One data line of a CSV or TSV document.
pub open spec fn data_line(headers: Seq<Seq<char>>, row: Seq<(Seq<char>, Json)>, tsv: bool) -> Seq<
    char,
> {
    join(
        headers.map_values(|h: Seq<char>| field_escape(tsv, csv_cell_spec(lookup(row, h)))),
        field_sep(tsv),
    )
}

/// The CSV (or TSV) text of a response: nothing when it has no rows;
/// otherwise a header line of every key of the deep-flattened rows, sorted,
/// then one line per row with its value for each key (empty when missing).
pub open spec fn delimited_spec(data: Json, tsv: bool) -> Seq<char> {
    let rows = rows_spec(data);
    if rows.len() == 0 {
        Seq::empty()
    } else {
        let flat = rows.map_values(|r: Json| deep_row(r));
        let headers = header_keys(flat, flat.len());
        join(
            seq![header_line(headers, tsv)] + flat.map_values(
                |row: Seq<(Seq<char>, Json)>| data_line(headers, row, tsv),
            ),
            seq!['\n'],
        )
    }
}

/// The header keys are sorted, each present once, and are exactly the keys
/// that occur in some row.
pub proof fn lemma_header_keys(rows: Seq<Seq<(Seq<char>, Json)>>, n: nat)
    requires
        n <= rows.len(),
    ensures
        strictly_sorted(header_keys(rows, n)),
        forall|k: Seq<char>| #[trigger]
            header_keys(rows, n).contains(k) <==> exists|i: int|
                0 <= i < n && keys_of(rows[i]).contains(k),
    decreases n,
{
    if n > 0 {
        lemma_header_keys(rows, (n - 1) as nat);
        let ks = keys_of(rows[n - 1]);
        lemma_add_keys(header_keys(rows, (n - 1) as nat), ks, ks.len());
        let h = header_keys(rows, n);
        let prev = header_keys(rows, (n - 1) as nat);
        assert(ks.take(ks.len() as int) =~= ks);
        assert forall|k: Seq<char>| #[trigger] h.contains(k) <==> exists|i: int|
            0 <= i < n && keys_of(rows[i]).contains(k) by {
            if h.contains(k) {
                if prev.contains(k) {
                    let i = choose|i: int| 0 <= i < n - 1 && #[trigger] keys_of(rows[i]).contains(k);
                    assert(0 <= i < n && keys_of(rows[i]).contains(k));
                } else {
                    assert(ks.take(ks.len() as int).contains(k));
                    assert(keys_of(rows[n - 1]).contains(k));
                }
            }
            if exists|i: int| 0 <= i < n && keys_of(rows[i]).contains(k) {
                let i = choose|i: int| 0 <= i < n && #[trigger] keys_of(rows[i]).contains(k);
                if i < n - 1 {
                    assert(prev.contains(k));
                } else {
                    assert(ks.take(ks.len() as int).contains(k));
                }
                assert(h.contains(k));
            }
        }
    } else {
        assert(header_keys(rows, n) =~= Seq::<Seq<char>>::empty());
    }
}

/// The header of a CSV or TSV document lists every key of the flattened
/// rows, each once, in increasing order.
pub proof fn law_delimited_header_keys(data: Json)
    ensures
        ({
            let flat = rows_spec(data).map_values(|r: Json| deep_row(r));
            let h = header_keys(flat, flat.len());
            &&& strictly_sorted(h)
            &&& forall|k: Seq<char>| #[trigger]
                h.contains(k) <==> exists|i: int| 0 <= i < flat.len() && keys_of(flat[i]).contains(k)
        }),
{
    let flat = rows_spec(data).map_values(|r: Json| deep_row(r));
    lemma_header_keys(flat, flat.len());
}

/// Adding keys keeps the list sorted and adds exactly those keys.
proof fn lemma_add_keys(acc: Seq<Seq<char>>, ks: Seq<Seq<char>>, m: nat)
    requires
        strictly_sorted(acc),
        m <= ks.len(),
    ensures
        strictly_sorted(add_keys(acc, ks, m)),
        forall|k: Seq<char>| #[trigger]
            add_keys(acc, ks, m).contains(k) <==> (acc.contains(k) || ks.take(m as int).contains(
                k,
            )),
    decreases m,
{
    if m > 0 {
        lemma_add_keys(acc, ks, (m - 1) as nat);
        lemma_insert_key(add_keys(acc, ks, (m - 1) as nat), ks[m - 1]);
        let a = add_keys(acc, ks, m);
        assert forall|k: Seq<char>| #[trigger] a.contains(k) <==> (acc.contains(k) || ks.take(
            m as int,
        ).contains(k)) by {
            if ks.take(m - 1).contains(k) {
                let i = choose|i: int| 0 <= i < m - 1 && #[trigger] ks.take(m - 1)[i] == k;
                assert(ks.take(m as int)[i] == k);
            }
            if ks.take(m as int).contains(k) {
                let i = choose|i: int| 0 <= i < m && #[trigger] ks.take(m as int)[i] == k;
                if i < m - 1 {
                    assert(ks.take(m - 1)[i] == k);
                }
            }
            if k == ks[m - 1] {
                assert(ks.take(m as int)[m - 1] == k);
            }
        }
    } else {
        assert(ks.take(0) =~= Seq::<Seq<char>>::empty());
    }
}

/// The sorted, distinct keys of all the rows.
fn collect_headers(rows: &Vec<Vec<(String, JsonValue)>>) -> (r: Vec<String>)
    ensures
        views(r@) == header_keys(
            rows@.map_values(|e: Vec<(String, JsonValue)>| entries_view(e@)),
            rows.len() as nat,
        ),
{
    let ghost flat = rows@.map_values(|e: Vec<(String, JsonValue)>| entries_view(e@));
    let mut headers: Vec<String> = Vec::new();
    let mut n: usize = 0;
    assert(views(headers@) =~= Seq::<Seq<char>>::empty());
    while n < rows.len()
        invariant
            flat == rows@.map_values(|e: Vec<(String, JsonValue)>| entries_view(e@)),
            n <= rows.len(),
            views(headers@) == header_keys(flat, n as nat),
        decreases rows.len() - n,
    {
        proof {
            lemma_header_keys(flat, n as nat);
            lemma_entries_view(rows@[n as int]@);
        }
        let row = &rows[n];
        let ghost ks = keys_of(flat[n as int]);
        let ghost acc = views(headers@);
        let mut m: usize = 0;
        while m < row.len()
            invariant
                n < rows.len(),
                *row == rows@[n as int],
                ks == keys_of(flat[n as int]),
                flat[n as int] == entries_view(row@),
                entries_view(row@).len() == row.len(),
                forall|k: int| 0 <= k < row.len() ==> #[trigger] entries_view(row@)[k] == (row@[k].0@, row@[k].1@),
                strictly_sorted(acc),
                m <= row.len(),
                views(headers@) == add_keys(acc, ks, m as nat),
            decreases row.len() - m,
        {
            proof {
                lemma_add_keys(acc, ks, m as nat);
            }
            crate::order::insert_key_exec(&mut headers, &row[m].0);
            m = m + 1;
        }
        n = n + 1;
    }
    headers
}

/// Escapes one field for CSV or TSV.
fn escape_field(tsv: bool, s: &str) -> (r: String)
    ensures
        r@ == field_escape(tsv, s@),
{
    if tsv {
        tsv_escape(s)
    } else {
        csv_escape(s)
    }
}

/// Renders rows as CSV (`tsv` false) or TSV (`tsv` true).
fn format_delimited(data: &JsonValue, tsv: bool) -> (r: String)
    ensures
        r@ == delimited_spec(data@, tsv),
{
    let raw_rows = extract_rows(data);
    proof {
        lemma_items_view(raw_rows@);
    }
    if raw_rows.len() == 0 {
        return String::new();
    }
    let ghost rows = rows_spec(data@);
    let mut flat_rows: Vec<Vec<(String, JsonValue)>> = Vec::new();
    let mut i: usize = 0;
    while i < raw_rows.len()
        invariant
            rows == items_view(raw_rows@),
            rows.len() == raw_rows.len(),
            forall|k: int| 0 <= k < raw_rows.len() ==> #[trigger] rows[k] == raw_rows@[k]@,
            i <= raw_rows.len(),
            flat_rows.len() == i,
            forall|k: int| 0 <= k < i ==> #[trigger] entries_view(flat_rows@[k]@) == deep_row(rows[k]),
        decreases raw_rows.len() - i,
    {
        let mut out: Vec<(String, JsonValue)> = Vec::new();
        proof {
            lemma_entries_view(out@);
        }
        assert(entries_view(out@) =~= Seq::<(Seq<char>, Json)>::empty());
        let empty = String::new();
        flatten_deep(&raw_rows[i], &empty, &mut out);
        flat_rows.push(out);
        i = i + 1;
    }
    let ghost flat = rows.map_values(|r: Json| deep_row(r));
    assert(flat =~= flat_rows@.map_values(|e: Vec<(String, JsonValue)>| entries_view(e@)));
    let headers = collect_headers(&flat_rows);
    let ghost hs = views(headers@);
    let sep = if tsv {
        "\t"
    } else {
        ","
    };
    proof {
        reveal_strlit("\t");
        reveal_strlit(",");
    }
    assert(sep@ =~= field_sep(tsv));
    let mut lines: Vec<String> = Vec::new();
    let mut head: Vec<String> = Vec::new();
    let mut h: usize = 0;
    while h < headers.len()
        invariant
            hs == views(headers@),
            h <= headers.len(),
            views(head@) == hs.take(h as int).map_values(|x: Seq<char>| field_escape(tsv, x)),
        decreases headers.len() - h,
    {
        let e = escape_field(tsv, headers[h].as_str());
        let ghost before = head@;
        head.push(e);
        assert(views(head@) =~= views(before).push(e@));
        assert(hs.take(h + 1) =~= hs.take(h as int).push(hs[h as int]));
        assert(hs.take(h + 1).map_values(|x: Seq<char>| field_escape(tsv, x)) =~= hs.take(
            h as int,
        ).map_values(|x: Seq<char>| field_escape(tsv, x)).push(field_escape(tsv, hs[h as int])));
        h = h + 1;
    }
    assert(hs.take(headers.len() as int) =~= hs);
    lines.push(crate::text::join_strings(&head, sep));
    let mut r: usize = 0;
    while r < flat_rows.len()
        invariant
            hs == views(headers@),
            flat == flat_rows@.map_values(|e: Vec<(String, JsonValue)>| entries_view(e@)),
            sep@ == field_sep(tsv),
            r <= flat_rows.len(),
            lines.len() == r + 1,
            views(lines@) == seq![header_line(hs, tsv)] + flat.take(r as int).map_values(
                |row: Seq<(Seq<char>, Json)>| data_line(hs, row, tsv),
            ),
        decreases flat_rows.len() - r,
    {
        let row = &flat_rows[r];
        let mut cells: Vec<String> = Vec::new();
        let mut h: usize = 0;
        while h < headers.len()
            invariant
                hs == views(headers@),
                r < flat_rows.len(),
                *row == flat_rows@[r as int],
                h <= headers.len(),
                views(cells@) == hs.take(h as int).map_values(
                    |x: Seq<char>| field_escape(tsv, csv_cell_spec(lookup(entries_view(row@), x))),
                ),
            decreases headers.len() - h,
        {
            let v = obj_get(row, headers[h].as_str());
            let c = csv_cell(v);
            let e = escape_field(tsv, c.as_str());
            let ghost before = cells@;
            cells.push(e);
            assert(views(cells@) =~= views(before).push(e@));
            assert(hs.take(h + 1) =~= hs.take(h as int).push(hs[h as int]));
            assert(hs.take(h + 1).map_values(
                |x: Seq<char>| field_escape(tsv, csv_cell_spec(lookup(entries_view(row@), x))),
            ) =~= hs.take(h as int).map_values(
                |x: Seq<char>| field_escape(tsv, csv_cell_spec(lookup(entries_view(row@), x))),
            ).push(field_escape(tsv, csv_cell_spec(lookup(entries_view(row@), hs[h as int])))));
            h = h + 1;
        }
        assert(hs.take(headers.len() as int) =~= hs);
        let line = crate::text::join_strings(&cells, sep);
        let ghost before = lines@;
        lines.push(line);
        assert(flat[r as int] == entries_view(row@));
        assert(views(lines@) =~= views(before).push(line@));
        assert(flat.take(r + 1) =~= flat.take(r as int).push(flat[r as int]));
        assert(flat.take(r + 1).map_values(|row: Seq<(Seq<char>, Json)>| data_line(hs, row, tsv))
            =~= flat.take(r as int).map_values(
            |row: Seq<(Seq<char>, Json)>| data_line(hs, row, tsv),
        ).push(data_line(hs, flat[r as int], tsv)));
        r = r + 1;
    }
    assert(flat.take(flat_rows.len() as int) =~= flat);
    let out = crate::text::join_strings(&lines, "\n");
    proof {
        reveal_strlit("\n");
    }
    assert("\n"@ =~= seq!['\n']);
    out
}

/// Renders a response as CSV.
pub fn format_csv_to_string(data: &JsonValue) -> (r: String)
    ensures
        r@ == delimited_spec(data@, false),
{
    format_delimited(data, false)
}

/// Renders a response as TSV.
pub fn format_tsv_to_string(data: &JsonValue) -> (r: String)
    ensures
        r@ == delimited_spec(data@, true),
{
    format_delimited(data, true)
}

// ---------------------------------------------------------------------------
// Tables
// ---------------------------------------------------------------------------

/// The rows of a table: the response's rows, flattened two levels deep.
pub open spec fn table_rows(data: Json) -> Seq<Json> {
    rows_spec(data).map_values(|r: Json| flatten_row_spec(r))
}

/// `acc` followed by those of the first `m` keys of `ks` it does not hold yet.
pub open spec fn append_new(acc: Seq<Seq<char>>, ks: Seq<Seq<char>>, m: nat) -> Seq<Seq<char>>
    decreases m,
{
    if m == 0 || m > ks.len() {
        acc
    } else {
        let a = append_new(acc, ks, (m - 1) as nat);
        if a.contains(ks[m - 1]) {
            a
        } else {
            a.push(ks[m - 1])
        }
    }
}

/// The keys of the first `n` rows that are objects, each once, in order of
/// first appearance.
pub open spec fn first_keys(rows: Seq<Json>, n: nat) -> Seq<Seq<char>>
    decreases n,
{
    if n == 0 || n > rows.len() {
        Seq::empty()
    } else {
        let acc = first_keys(rows, (n - 1) as nat);
        match rows[n - 1] {
            Json::Object(e) => append_new(acc, keys_of(e), e.len()),
            _ => acc,
        }
    }
}

/// Columns shown first when present, in this order.
pub open spec fn priority_keys() -> Seq<Seq<char>> {
    seq![
        "id"@,
        "title"@,
        "name"@,
        "type"@,
        "status"@,
        "state"@,
        "severity"@,
        "created_at"@,
        "updated_at"@,
        "created"@,
        "modified"@,
        "attributes.timestamp"@,
        "attributes.service"@,
        "attributes.host"@,
        "attributes.status"@,
        "attributes.message"@,
    ]
}

/// The first `n` priority keys that occur among `all`.
pub open spec fn present_priority(all: Seq<Seq<char>>, n: nat) -> Seq<Seq<char>>
    decreases n,
{
    if n == 0 || n > priority_keys().len() {
        Seq::empty()
    } else {
        let acc = present_priority(all, (n - 1) as nat);
        if all.contains(priority_keys()[n - 1]) {
            acc.push(priority_keys()[n - 1])
        } else {
            acc
        }
    }
}

/// `acc` extended with the first `m` of `hs` that it lacks, while it has
/// fewer than twelve columns.
pub open spec fn fill_columns(acc: Seq<Seq<char>>, hs: Seq<Seq<char>>, m: nat) -> Seq<Seq<char>>
    decreases m,
{
    if m == 0 || m > hs.len() {
        acc
    } else {
        let a = fill_columns(acc, hs, (m - 1) as nat);
        if a.len() >= 12 || a.contains(hs[m - 1]) {
            a
        } else {
            a.push(hs[m - 1])
        }
    }
}

/// The table's columns: the priority columns present, then the other keys
/// in order of first appearance, up to twelve columns.
pub open spec fn table_columns(rows: Seq<Json>) -> Seq<Seq<char>> {
    let all = first_keys(rows, rows.len());
    fill_columns(present_priority(all, 16), all, all.len())
}

/// One row's cells, one per column (empty for a row that is not an object).
pub open spec fn row_cells(row: Json, cols: Seq<Seq<char>>) -> Seq<Seq<char>> {
    cols.map_values(
        |h: Seq<char>|
            match row {
                Json::Object(e) => cell_spec(lookup(e, h)),
                _ => Seq::empty(),
            },
    )
}

/// True when `v` holds a string equal to `k`.
fn holds_key(v: &Vec<String>, k: &str) -> (r: bool)
    ensures
        r == views(v@).contains(k@),
{
    let kv = chars_of(k);
    let mut i: usize = 0;
    while i < v.len()
        invariant
            kv@ == k@,
            i <= v.len(),
            forall|j: int| 0 <= j < i ==> v@[j]@ != k@,
        decreases v.len() - i,
    {
        let x = chars_of(v[i].as_str());
        if crate::text::chars_eq(&x, &kv) {
            assert(views(v@)[i as int] == k@);
            return true;
        }
        i = i + 1;
    }
    false
}

/// The `i`th priority column.
fn priority_key(i: usize) -> (r: &'static str)
    requires
        i < 16,
    ensures
        r@ == priority_keys()[i as int],
{
    if i == 0 { "id" } else if i == 1 { "title" } else if i == 2 { "name" } else if i == 3 { "type" }
    else if i == 4 { "status" } else if i == 5 { "state" } else if i == 6 { "severity" }
    else if i == 7 { "created_at" } else if i == 8 { "updated_at" } else if i == 9 { "created" }
    else if i == 10 { "modified" } else if i == 11 { "attributes.timestamp" }
    else if i == 12 { "attributes.service" } else if i == 13 { "attributes.host" }
    else if i == 14 { "attributes.status" } else { "attributes.message" }
}

/// The columns and cells of the table for a response, or `None` when it has
/// no rows.
pub fn table_layout(data: &JsonValue) -> (r: Option<(Vec<String>, Vec<Vec<String>>)>)
    ensures
        match r {
            None => table_rows(data@).len() == 0,
            Some((cols, cells)) => {
                &&& table_rows(data@).len() > 0
                &&& views(cols@) == table_columns(table_rows(data@))
                &&& cells.len() == table_rows(data@).len()
                &&& forall|i: int|
                    0 <= i < cells.len() ==> views(#[trigger] cells@[i]@) == row_cells(
                        table_rows(data@)[i],
                        views(cols@),
                    )
            },
        },
{
    let raw_rows = extract_rows(data);
    proof {
        lemma_items_view(raw_rows@);
    }
    let ghost trs = table_rows(data@);
    let mut rows: Vec<JsonValue> = Vec::new();
    let mut i: usize = 0;
    while i < raw_rows.len()
        invariant
            items_view(raw_rows@) == rows_spec(data@),
            items_view(raw_rows@).len() == raw_rows.len(),
            forall|k: int| 0 <= k < raw_rows.len() ==> #[trigger] items_view(raw_rows@)[k] == raw_rows@[k]@,
            trs == table_rows(data@),
            i <= raw_rows.len(),
            rows.len() == i,
            forall|k: int| 0 <= k < i ==> #[trigger] rows@[k]@ == trs[k],
        decreases raw_rows.len() - i,
    {
        rows.push(flatten_row(&raw_rows[i]));
        i = i + 1;
    }
    if rows.len() == 0 {
        return None;
    }
    // Every key, in order of first appearance.
    let mut headers: Vec<String> = Vec::new();
    let mut n: usize = 0;
    assert(views(headers@) =~= Seq::<Seq<char>>::empty());
    while n < rows.len()
        invariant
            trs == table_rows(data@),
            trs.len() == rows.len(),
            forall|k: int| 0 <= k < rows.len() ==> #[trigger] rows@[k]@ == trs[k],
            n <= rows.len(),
            views(headers@) == first_keys(trs, n as nat),
        decreases rows.len() - n,
    {
        match &rows[n] {
        JsonValue::Object(map) => {
            proof {
                crate::json::lemma_object_view(*map);
                lemma_entries_view(map@);
            }
            let ghost ks = keys_of(entries_view(map@));
            let ghost acc = views(headers@);
            assert(trs[n as int] == Json::Object(entries_view(map@)));
            let mut m: usize = 0;
            while m < map.len()
                invariant
                    ks == keys_of(entries_view(map@)),
                    entries_view(map@).len() == map.len(),
                    forall|k: int| 0 <= k < map.len() ==> #[trigger] entries_view(map@)[k] == (map@[k].0@, map@[k].1@),
                    m <= map.len(),
                    views(headers@) == append_new(acc, ks, m as nat),
                decreases map.len() - m,
            {
                if !holds_key(&headers, map[m].0.as_str()) {
                    let ghost before = headers@;
                    headers.push(map[m].0.clone());
                    assert(views(headers@) =~= views(before).push(map@[m as int].0@));
                }
                m = m + 1;
            }
            assert(ks.len() == map.len());
            assert(views(headers@) == first_keys(trs, (n + 1) as nat));
        },
        _ => {
            proof {
                crate::json::lemma_view_kind(rows@[n as int]);
            }
            assert(!(trs[n as int] is Object));
            assert(views(headers@) == first_keys(trs, (n + 1) as nat));
        },
        }
        n = n + 1;
    }
    let ghost all = views(headers@);
    // Priority columns first.
    let mut cols: Vec<String> = Vec::new();
    let mut p: usize = 0;
    assert(views(cols@) =~= Seq::<Seq<char>>::empty());
    while p < 16
        invariant
            all == views(headers@),
            p <= 16,
            views(cols@) == present_priority(all, p as nat),
        decreases 16 - p,
    {
        let key = priority_key(p);
        if holds_key(&headers, key) {
            let ghost before = cols@;
            cols.push(crate::text::owned(key));
            assert(views(cols@) =~= views(before).push(key@));
        }
        p = p + 1;
    }
    let ghost pri = views(cols@);
    let mut h: usize = 0;
    while h < headers.len()
        invariant
            all == views(headers@),
            pri == present_priority(all, 16),
            h <= headers.len(),
            views(cols@) == fill_columns(pri, all, h as nat),
        decreases headers.len() - h,
    {
        if cols.len() < 12 && !holds_key(&cols, headers[h].as_str()) {
            let ghost before = cols@;
            cols.push(headers[h].clone());
            assert(views(cols@) =~= views(before).push(all[h as int]));
        }
        h = h + 1;
    }
    let ghost cs = views(cols@);
    // Cells.
    let mut cells: Vec<Vec<String>> = Vec::new();
    let mut r: usize = 0;
    while r < rows.len()
        invariant
            trs == table_rows(data@),
            trs.len() == rows.len(),
            forall|k: int| 0 <= k < rows.len() ==> #[trigger] rows@[k]@ == trs[k],
            cs == views(cols@),
            cs == table_columns(trs),
            r <= rows.len(),
            cells.len() == r,
            forall|k: int| 0 <= k < r ==> views(#[trigger] cells@[k]@) == row_cells(trs[k], cs),
        decreases rows.len() - r,
    {
        let mut line: Vec<String> = Vec::new();
        let mut c: usize = 0;
        while c < cols.len()
            invariant
                r < rows.len(),
                cs == views(cols@),
                c <= cols.len(),
                views(line@) == row_cells(rows@[r as int]@, cs.take(c as int)),
            decreases cols.len() - c,
        {
            let cell = match &rows[r] {
                JsonValue::Object(map) => {
                    proof {
                        crate::json::lemma_object_view(*map);
                    }
                    format_cell(obj_get(map, cols[c].as_str()))
                },
                _ => String::new(),
            };
            let ghost before = line@;
            line.push(cell);
            assert(views(line@) =~= views(before).push(cell@));
            assert(cs.take(c + 1) =~= cs.take(c as int).push(cs[c as int]));
            assert(row_cells(rows@[r as int]@, cs.take(c + 1)) =~= row_cells(rows@[r as int]@, cs.take(c as int)).push(cell@));
            c = c + 1;
        }
        assert(cs.take(cols.len() as int) =~= cs);
        cells.push(line);
        r = r + 1;
    }
    Some((cols, cells))
}

/// `comfy_table::Table`, a table that draws itself as text.
#[verifier::external_type_specification]
#[verifier::external_body]
pub struct ExTable(comfy_table::Table);

/// The header cells that a `comfy_table::Table` holds.
pub uninterp spec fn table_header_cells(t: comfy_table::Table) -> Seq<Seq<char>>;

/// The rows of cells that a `comfy_table::Table` holds, in the order they
/// were added.
pub uninterp spec fn table_row_cells(t: comfy_table::Table) -> Seq<Seq<Seq<char>>>;

/// What `comfy_table` draws for a table with these header cells and rows:
/// a default `Table` (no styling, content arrangement disabled, so the
/// drawing does not depend on the terminal).
pub uninterp spec fn drawn_table(headers: Seq<Seq<char>>, rows: Seq<Seq<Seq<char>>>) -> Seq<char>;

/// The texts of the rows of a table.
pub open spec fn rows_views(rows: Seq<Vec<String>>) -> Seq<Seq<Seq<char>>> {
    rows.map_values(|r: Vec<String>| views(r@))
}

/// `comfy_table::Table::new` followed by `Table::set_header`: a table with
/// these header cells and no rows.
#[verifier::external_body]
fn table_with_header(headers: &Vec<String>) -> (t: comfy_table::Table)
    ensures
        table_header_cells(t) == views(headers@),
        table_row_cells(t) == Seq::<Seq<Seq<char>>>::empty(),
{
    let mut table = comfy_table::Table::new();
    table.set_header(headers);
    table
}

/// `comfy_table::Table::add_row`: appends one row of cells and keeps the
/// header.
#[verifier::external_body]
fn table_add_row(t: &mut comfy_table::Table, row: &Vec<String>)
    ensures
        table_header_cells(*final(t)) == table_header_cells(*old(t)),
        table_row_cells(*final(t)) == table_row_cells(*old(t)).push(views(row@)),
{
    t.add_row(row);
}

/// `Table::to_string`: the drawing of the table. The contract claims only
/// that the text is the one `drawn_table` names for the cells the table
/// holds; the layout is comfy_table's.
#[verifier::external_body]
fn table_text(t: &comfy_table::Table) -> (r: String)
    ensures
        r@ == drawn_table(table_header_cells(*t), table_row_cells(*t)),
{
    t.to_string()
}

/// Draws a table with `comfy_table`: the header, then each row in order.
fn render_table(headers: &Vec<String>, rows: &Vec<Vec<String>>) -> (r: String)
    ensures
        r@ == drawn_table(views(headers@), rows_views(rows@)),
{
    let mut table = table_with_header(headers);
    let mut i: usize = 0;
    while i < rows.len()
        invariant
            i <= rows.len(),
            table_header_cells(table) == views(headers@),
            table_row_cells(table) == rows_views(rows@.subrange(0, i as int)),
        decreases rows.len() - i,
    {
        table_add_row(&mut table, &rows[i]);
        assert(rows_views(rows@.subrange(0, i + 1)) =~= rows_views(rows@.subrange(0, i as int)).push(views(rows@[i as int]@)));
        i = i + 1;
    }
    assert(rows@.subrange(0, rows.len() as int) =~= rows@);
    table_text(&table)
}

/// The table text of a response: `No results found` when it has no rows,
/// otherwise the drawing of its columns and cells.
pub open spec fn table_text_spec(data: Json) -> Seq<char> {
    let rows = table_rows(data);
    if rows.len() == 0 {
        "No results found"@
    } else {
        drawn_table(table_columns(rows), rows.map_values(|row: Json| row_cells(row, table_columns(rows))))
    }
}

/// Renders a response as a table: `No results found` when it has no rows,
/// otherwise the columns and cells of `table_layout`, drawn by `comfy_table`.
pub fn format_table_to_string(data: &JsonValue) -> (r: String)
    ensures
        r@ == table_text_spec(data@),
{
    match table_layout(data) {
        None => crate::text::owned("No results found"),
        Some((cols, cells)) => {
            let ghost rows = table_rows(data@);
            assert(rows_views(cells@) =~= rows.map_values(|row: Json| row_cells(row, table_columns(rows))));
            render_table(&cols, &cells)
        },
    }
}

/// The output formats a command can print in.
#[derive(Clone, Copy, Debug, PartialEq, Eq, Structural)]
pub enum OutputFormat {
    Json,
    Yaml,
    Table,
    Csv,
    Tsv,
}

/// Agent-mode metadata about a command's result.
#[derive(Debug)]
pub struct Metadata {
    pub count: Option<usize>,
    pub truncated: bool,
    pub command: Option<String>,
    pub next_action: Option<String>,
}

/// Whether a search that returned `count` items (if it said) may have been
/// cut at its limit: it returned at least `limit` items.
pub open spec fn search_truncated(count: Option<usize>, limit: i32) -> bool {
    match count {
        Some(c) => c >= limit,
        None => false,
    }
}

/// The advice given when a search may have been cut at its limit.
pub open spec fn truncation_advice(limit: i32) -> Seq<char> {
    "Results may be truncated at "@ + crate::text::decimal_int(limit as int) + ". Use --limit="@
        + crate::text::decimal_int(limit + 1) + " or narrow the --query"@
}

/// The agent-mode metadata of a search: the number of items returned (when
/// the response said), whether they may have been cut at the limit, the
/// command, and, when they may have been, the advice to raise the limit or
/// narrow the query.
pub fn search_metadata(command: &str, count: Option<usize>, limit: i32) -> (m: Metadata)
    ensures
        m.count == count,
        m.truncated == search_truncated(count, limit),
        m.command is Some && m.command->0@ == command@,
        match m.next_action {
            Some(a) => search_truncated(count, limit) && a@ == truncation_advice(limit),
            None => !search_truncated(count, limit),
        },
{
    let truncated = match count {
        Some(c) => limit <= 0 || c >= limit as usize,
        None => false,
    };
    let next_action = if truncated {
        let mut a = crate::text::owned("Results may be truncated at ");
        let l = crate::text::i64_decimal(limit as i64);
        push_text(&mut a, l.as_str());
        push_text(&mut a, ". Use --limit=");
        let n = crate::text::i64_decimal(limit as i64 + 1);
        push_text(&mut a, n.as_str());
        push_text(&mut a, " or narrow the --query");
        assert(a@ =~= truncation_advice(limit));
        Some(a)
    } else {
        None
    };
    Metadata { count, truncated, command: Some(crate::text::owned(command)), next_action }
}

/// Note placed in `metadata.note` of every agent-mode JSON envelope: the
/// envelope appears only in agent mode, so scripts meant to run outside it
/// should pass `--no-agent`.
pub const AGENT_ENVELOPE_NOTE: &'static str = "This envelope (status/data/metadata) only appears in agent mode. If you are writing a script the user will run outside this agent session, append --no-agent so the output format matches what they will see.";

/// Appended to `metadata.note` when `--jq` ran: the filter runs on the
/// payload (the value under `.data`), not on the envelope.
pub const JQ_FILTER_NOTE: &'static str = "This output was filtered by --jq, which runs on the response payload (the value shown under .data), not on this envelope. Write jq expressions against the payload (e.g. .[]), not .data[].";

/// The serialized fields of metadata: `count` when present, `truncated` when
/// true, `command` and `next_action` when present, in that order.
pub open spec fn metadata_entries(m: Metadata) -> Seq<(Seq<char>, Json)> {
    let a: Seq<(Seq<char>, Json)> = match m.count {
        Some(c) => seq![("count"@, Json::Number(decimal(c as nat)))],
        None => Seq::empty(),
    };
    let b = if m.truncated {
        a.push(("truncated"@, Json::Bool(true)))
    } else {
        a
    };
    let c = match m.command {
        Some(s) => b.push(("command"@, Json::Str(s@))),
        None => b,
    };
    match m.next_action {
        Some(s) => c.push(("next_action"@, Json::Str(s@))),
        None => c,
    }
}

/// The `metadata` object of an envelope: the metadata's fields (none when
/// there is no metadata) followed by the note.
pub open spec fn metadata_object(m: Option<Metadata>) -> Json {
    let fields = match m {
        Some(x) => metadata_entries(x),
        None => Seq::empty(),
    };
    Json::Object(insert_entry(fields, "note"@, Json::Str(AGENT_ENVELOPE_NOTE@)))
}

/// The payload shown under `data`: the sorted response, or the value of its
/// own `data` key when it has one.
pub open spec fn envelope_payload(data: Json) -> Json {
    let sorted = sort_json(data);
    match sorted {
        Json::Object(e) => match lookup(e, "data"@) {
            Some(d) => d,
            None => sorted,
        },
        _ => sorted,
    }
}

/// The agent-mode envelope: `status`, `data` and `metadata`, in that order.
pub open spec fn envelope_spec(data: Json, m: Option<Metadata>) -> Json {
    Json::Object(
        seq![
            ("status"@, Json::Str("success"@)),
            ("data"@, envelope_payload(data)),
            ("metadata"@, metadata_object(m)),
        ],
    )
}

/// A string value.
fn jstr(s: &str) -> (r: JsonValue)
    ensures
        r@ == Json::Str(s@),
{
    JsonValue::String(crate::text::owned(s))
}

/// Copies metadata.
fn copy_metadata(m: &Metadata) -> (r: Metadata)
    ensures
        r == *m,
{
    Metadata {
        count: m.count,
        truncated: m.truncated,
        command: match &m.command {
            Some(s) => Some(s.clone()),
            None => None,
        },
        next_action: match &m.next_action {
            Some(s) => Some(s.clone()),
            None => None,
        },
    }
}

/// The `metadata` object of an envelope.
fn metadata_json(meta: Option<&Metadata>) -> (r: JsonValue)
    ensures
        r@ == metadata_object(
            match meta {
                Some(m) => Some(*m),
                None => None,
            },
        ),
{
    let mut fields: Vec<(String, JsonValue)> = Vec::new();
    let ghost start = entries_view(fields@);
    proof {
        lemma_entries_view(fields@);
    }
    if let Some(m) = meta {
        if let Some(c) = m.count {
            fields.push((crate::text::owned("count"), JsonValue::Number(u64_decimal(c as u64))));
        }
        if m.truncated {
            fields.push((crate::text::owned("truncated"), JsonValue::Bool(true)));
        }
        if let Some(cmd) = &m.command {
            fields.push((crate::text::owned("command"), JsonValue::String(cmd.clone())));
        }
        if let Some(na) = &m.next_action {
            fields.push((crate::text::owned("next_action"), JsonValue::String(na.clone())));
        }
        proof {
            lemma_entries_view(fields@);
        }
        assert(entries_view(fields@) =~= metadata_entries(*m));
    } else {
        assert(entries_view(fields@) =~= Seq::<(Seq<char>, Json)>::empty());
    }
    obj_insert(&mut fields, crate::text::owned("note"), jstr(AGENT_ENVELOPE_NOTE));
    let r = JsonValue::Object(fields);
    proof {
        crate::json::lemma_object_view(fields);
    }
    r
}

/// Builds the agent-mode envelope: the sorted payload (hoisted out of a
/// wrapping `data` key) with `status` and `metadata`; `metadata.note` is
/// always present.
pub fn build_agent_envelope(data: &JsonValue, meta: Option<&Metadata>) -> (r: JsonValue)
    ensures
        r@ == envelope_spec(
            data@,
            match meta {
                Some(m) => Some(*m),
                None => None,
            },
        ),
{
    let sorted = sort_json_value(data);
    let payload = match &sorted {
        JsonValue::Object(obj) => {
            proof {
                crate::json::lemma_object_view(*obj);
            }
            match obj_get(obj, "data") {
                Some(d) => d.deep_clone(),
                None => sorted.deep_clone(),
            }
        },
        _ => {
            proof {
                crate::json::lemma_view_kind(sorted);
            }
            sorted.deep_clone()
        },
    };
    let mut entries: Vec<(String, JsonValue)> = Vec::new();
    entries.push((crate::text::owned("status"), jstr("success")));
    entries.push((crate::text::owned("data"), payload));
    entries.push((crate::text::owned("metadata"), metadata_json(meta)));
    proof {
        lemma_entries_view(entries@);
    }
    let r = JsonValue::Object(entries);
    proof {
        crate::json::lemma_object_view(entries);
    }
    assert(entries_view(entries@) =~= envelope_spec(
        data@,
        match meta {
            Some(m) => Some(*m),
            None => None,
        },
    )->Object_0);
    r
}

/// Metadata after a `--jq` filter: the counts describe the data before the
/// filter, so `count` and `truncated` are dropped; `command` and
/// `next_action` are kept. No metadata stays no metadata.
pub fn strip_counts_after_filter(meta: Option<&Metadata>) -> (r: Option<Metadata>)
    ensures
        match meta {
            None => r.is_none(),
            Some(m) => r == Some(
                Metadata {
                    count: None,
                    truncated: false,
                    command: m.command,
                    next_action: m.next_action,
                },
            ),
        },
{
    match meta {
        None => None,
        Some(m) => {
            let c = copy_metadata(m);
            Some(Metadata { count: None, truncated: false, command: c.command, next_action: c.next_action })
        },
    }
}

/// The envelope after `--jq` ran: `metadata.note`, when it is a string,
/// gets a space and `JQ_FILTER_NOTE` appended; anything else is unchanged.
pub open spec fn jq_noted(env: Json) -> Json {
    match env {
        Json::Object(e) => match lookup(e, "metadata"@) {
            Some(Json::Object(m)) => match lookup(m, "note"@) {
                Some(Json::Str(n)) => Json::Object(
                    insert_entry(
                        e,
                        "metadata"@,
                        Json::Object(
                            insert_entry(m, "note"@, Json::Str(n + seq![' '] + JQ_FILTER_NOTE@)),
                        ),
                    ),
                ),
                _ => env,
            },
            _ => env,
        },
        _ => env,
    }
}

/// The envelope's metadata entries with the note extended, when the
/// envelope holds a metadata object with a string note.
fn noted_metadata(e: &Vec<(String, JsonValue)>) -> (r: Option<Vec<(String, JsonValue)>>)
    ensures
        match r {
            Some(nm) => match lookup(entries_view(e@), "metadata"@) {
                Some(Json::Object(m)) => match lookup(m, "note"@) {
                    Some(Json::Str(n)) => entries_view(nm@) == insert_entry(
                        m,
                        "note"@,
                        Json::Str(n + seq![' '] + JQ_FILTER_NOTE@),
                    ),
                    _ => false,
                },
                _ => false,
            },
            None => match lookup(entries_view(e@), "metadata"@) {
                Some(Json::Object(m)) => match lookup(m, "note"@) {
                    Some(Json::Str(n)) => false,
                    _ => true,
                },
                _ => true,
            },
        },
{
    match obj_get(e, "metadata") {
        Some(JsonValue::Object(m)) => {
            proof {
                crate::json::lemma_object_view(*m);
            }
            match obj_get(m, "note") {
                Some(JsonValue::String(n)) => {
                    let mut text = n.clone();
                    push_char(&mut text, ' ');
                    push_text(&mut text, JQ_FILTER_NOTE);
                    assert(text@ =~= n@ + seq![' '] + JQ_FILTER_NOTE@);
                    let mut entries: Vec<(String, JsonValue)> = Vec::new();
                    let mut i: usize = 0;
                    while i < m.len()
                        invariant
                            i <= m.len(),
                            entries.len() == i,
                            forall|k: int| 0 <= k < i ==> #[trigger] entries@[k].0@ == m@[k].0@ && entries@[k].1@ == m@[k].1@,
                        decreases m.len() - i,
                    {
                        entries.push((m[i].0.clone(), m[i].1.deep_clone()));
                        i = i + 1;
                    }
                    proof {
                        lemma_entries_view(entries@);
                        lemma_entries_view(m@);
                    }
                    assert(entries_view(entries@) =~= entries_view(m@));
                    obj_insert(&mut entries, crate::text::owned("note"), JsonValue::String(text));
                    Some(entries)
                },
                Some(other) => {
                    proof {
                        crate::json::lemma_view_kind(*other);
                    }
                    None
                },
                None => None,
            }
        },
        Some(other) => {
            proof {
                crate::json::lemma_view_kind(*other);
            }
            None
        },
        None => None,
    }
}

/// Appends `JQ_FILTER_NOTE` to the `metadata.note` field of an envelope.
pub fn append_jq_note(envelope: &mut JsonValue)
    ensures
        final(envelope)@ == jq_noted(old(envelope)@),
{
    proof {
        crate::json::lemma_view_kind(*envelope);
    }
    if let JsonValue::Object(e) = envelope {
        proof {
            crate::json::lemma_object_view(*e);
        }
        if let Some(nm) = noted_metadata(e) {
            proof {
                crate::json::lemma_object_view(nm);
            }
            obj_insert(e, crate::text::owned("metadata"), JsonValue::Object(nm));
            proof {
                crate::json::lemma_object_view(*e);
            }
        }
    }
}

// ---------------------------------------------------------------------------
// Rendering
// ---------------------------------------------------------------------------

/// What `serde_norway::to_string` writes for the JSON document with the given
/// compact text, or `None` when the text does not parse or cannot be written.
pub uninterp spec fn yaml_of_json_text(json: Seq<char>) -> Option<Seq<char>>;

/// `serde_norway::to_string` of the document whose JSON text is `json` (the
/// text is read back with `serde_json::from_str` first). Its result depends
/// on that text alone.
#[verifier::external_body]
fn json_text_to_yaml(json: &str) -> (r: Result<String, String>)
    ensures
        match r {
            Ok(y) => yaml_of_json_text(json@) == Some(y@),
            Err(_) => yaml_of_json_text(json@).is_none(),
        },
{
    let value: serde_json::Value = serde_json::from_str(json).map_err(|e| e.to_string())?;
    serde_norway::to_string(&value).map_err(|e| e.to_string())
}

/// What `serde_json::to_string_pretty` writes for the JSON document with the
/// given compact text (two spaces per level), or `None` when the text does
/// not parse or cannot be written.
pub uninterp spec fn pretty_of_json_text(json: Seq<char>) -> Option<Seq<char>>;

/// `serde_json::to_string_pretty` of the document whose JSON text is `json`
/// (the text is read back with `serde_json::from_str` first). Its result
/// depends on that text alone.
#[verifier::external_body]
fn json_text_to_pretty(json: &str) -> (r: Result<String, String>)
    ensures
        match r {
            Ok(p) => pretty_of_json_text(json@) == Some(p@),
            Err(_) => pretty_of_json_text(json@).is_none(),
        },
{
    let value: serde_json::Value = serde_json::from_str(json).map_err(|e| e.to_string())?;
    serde_json::to_string_pretty(&value).map_err(|e| e.to_string())
}

/// The printed JSON text of a document: pretty-printed by serde_json, with
/// `&`, `<`, `>` escaped as Go does; `None` when serde_json refuses it.
pub open spec fn printed_json(v: Json) -> Option<Seq<char>> {
    match pretty_of_json_text(compact(v)) {
        Some(p) => Some(go_html_escape_spec(p)),
        None => None,
    }
}

/// The JSON text printed for a value: its keys sorted, pretty-printed, and
/// escaped.
pub open spec fn json_output_spec(data: Json) -> Option<Seq<char>> {
    printed_json(sort_json(data))
}

/// The JSON text printed in agent mode: the envelope, pretty-printed and
/// escaped.
pub open spec fn envelope_output_spec(data: Json, m: Option<Metadata>) -> Option<Seq<char>> {
    printed_json(envelope_spec(data, m))
}

/// Prints a document as JSON: its compact text handed to serde_json's
/// pretty printer, then escaped.
fn print_json_text(v: &JsonValue) -> (r: Result<String, String>)
    ensures
        match r {
            Ok(t) => printed_json(v@) == Some(t@),
            Err(_) => printed_json(v@).is_none(),
        },
{
    let text = to_compact_string(v);
    match json_text_to_pretty(text.as_str()) {
        Ok(p) => Ok(go_html_escape(p.as_str())),
        Err(e) => Err(e),
    }
}

/// The JSON text of a value as the `json` format prints it.
pub fn json_output(data: &JsonValue) -> (r: Result<String, String>)
    ensures
        match r {
            Ok(t) => json_output_spec(data@) == Some(t@),
            Err(_) => json_output_spec(data@).is_none(),
        },
{
    let sorted = sort_json_value(data);
    print_json_text(&sorted)
}

/// The YAML text of a value (keys sorted).
pub fn yaml_output(data: &JsonValue) -> (r: Result<String, String>)
    ensures
        match r {
            Ok(y) => yaml_of_json_text(compact(sort_json(data@))) == Some(y@),
            Err(_) => yaml_of_json_text(compact(sort_json(data@))).is_none(),
        },
{
    let sorted = sort_json_value(data);
    let text = to_compact_string(&sorted);
    json_text_to_yaml(text.as_str())
}

/// Renders a value in the selected format. In agent mode the `json` format
/// prints the agent envelope (with no metadata); the other formats are the
/// same in both modes.
pub fn format_value_to_string(data: &JsonValue, format: &OutputFormat, agent_mode: bool) -> (r:
    Result<String, String>)
    ensures
        agent_mode && *format == OutputFormat::Json ==> match r {
            Ok(t) => envelope_output_spec(data@, None) == Some(t@),
            Err(_) => envelope_output_spec(data@, None).is_none(),
        },
        !agent_mode && *format == OutputFormat::Json ==> match r {
            Ok(t) => json_output_spec(data@) == Some(t@),
            Err(_) => json_output_spec(data@).is_none(),
        },
        *format == OutputFormat::Yaml ==> match r {
            Ok(y) => yaml_of_json_text(compact(sort_json(data@))) == Some(y@),
            Err(_) => yaml_of_json_text(compact(sort_json(data@))).is_none(),
        },
        *format == OutputFormat::Table ==> (r matches Ok(t) && t@ == table_text_spec(data@)),
        *format == OutputFormat::Csv ==> (r matches Ok(t) && t@ == delimited_spec(data@, false)),
        *format == OutputFormat::Tsv ==> (r matches Ok(t) && t@ == delimited_spec(data@, true)),
{
    if agent_mode && *format == OutputFormat::Json {
        let envelope = build_agent_envelope(data, None);
        return print_json_text(&envelope);
    }
    match format {
        OutputFormat::Json => json_output(data),
        OutputFormat::Yaml => yaml_output(data),
        OutputFormat::Table => Ok(format_table_to_string(data)),
        OutputFormat::Csv => Ok(format_csv_to_string(data)),
        OutputFormat::Tsv => Ok(format_tsv_to_string(data)),
    }
}

/// `s` followed by a line feed.
fn with_newline(s: String) -> (r: String)
    ensures
        r@ == s@.push('\n'),
{
    let mut r = s;
    push_char(&mut r, '\n');
    r
}

/// A printed JSON document as a line: the text and a newline when the
/// printer gave one, an error when it refused.
pub open spec fn printed_line(o: Option<Seq<char>>, r: Result<Option<String>, String>) -> bool {
    match o {
        Some(t) => r matches Ok(Some(x)) && x@ == t.push('\n'),
        None => r is Err,
    }
}

/// What `format_and_print` writes to standard output for a command's result,
/// given whether a `--jq` filter already rewrote `data`; `None` when nothing
/// is printed (an empty CSV or TSV document).
///
/// In agent mode with the `json` format the envelope is printed; after a
/// filter, the metadata loses its counts and the note mentions the filter.
pub fn format_output(
    data: &JsonValue,
    format: &OutputFormat,
    agent_mode: bool,
    meta: Option<&Metadata>,
    jq_ran: bool,
) -> (r: Result<Option<String>, String>)
    ensures
        agent_mode && *format == OutputFormat::Json && !jq_ran ==> printed_line(
            envelope_output_spec(
                data@,
                match meta {
                    Some(m) => Some(*m),
                    None => None,
                },
            ),
            r,
        ),
        agent_mode && *format == OutputFormat::Json && jq_ran ==> printed_line(
            printed_json(
                jq_noted(
                    envelope_spec(
                        data@,
                        match meta {
                            Some(m) => Some(
                                Metadata {
                                    count: None,
                                    truncated: false,
                                    command: m.command,
                                    next_action: m.next_action,
                                },
                            ),
                            None => None,
                        },
                    ),
                ),
            ),
            r,
        ),
        !agent_mode && *format == OutputFormat::Json ==> printed_line(json_output_spec(data@), r),
        *format == OutputFormat::Yaml ==> match r {
            Ok(Some(y)) => yaml_of_json_text(compact(sort_json(data@))) == Some(y@),
            Ok(None) => false,
            Err(_) => yaml_of_json_text(compact(sort_json(data@))).is_none(),
        },
        *format == OutputFormat::Table ==> (r matches Ok(Some(t)) && t@ == table_text_spec(data@).push('\n')),
        *format == OutputFormat::Csv ==> (r matches Ok(o) && if delimited_spec(data@, false).len()
            == 0 {
            o is None
        } else {
            o matches Some(t) && t@ == delimited_spec(data@, false).push('\n')
        }),
        *format == OutputFormat::Tsv ==> (r matches Ok(o) && if delimited_spec(data@, true).len()
            == 0 {
            o is None
        } else {
            o matches Some(t) && t@ == delimited_spec(data@, true).push('\n')
        }),
{
    if agent_mode && *format == OutputFormat::Json {
        let stripped = strip_counts_after_filter(meta);
        let chosen = if jq_ran {
            match &stripped {
                Some(m) => Some(m),
                None => None,
            }
        } else {
            meta
        };
        let mut envelope = build_agent_envelope(data, chosen);
        if jq_ran {
            append_jq_note(&mut envelope);
        }
        return match print_json_text(&envelope) {
            Ok(t) => Ok(Some(with_newline(t))),
            Err(e) => Err(e),
        };
    }
    match format {
        OutputFormat::Json => match json_output(data) {
            Ok(t) => Ok(Some(with_newline(t))),
            Err(e) => Err(e),
        },
        OutputFormat::Yaml => match yaml_output(data) {
            Ok(y) => Ok(Some(y)),
            Err(e) => Err(e),
        },
        OutputFormat::Table => Ok(Some(with_newline(format_table_to_string(data)))),
        OutputFormat::Csv => {
            let t = format_csv_to_string(data);
            let tv = chars_of(t.as_str());
            if tv.len() == 0 {
                Ok(None)
            } else {
                Ok(Some(with_newline(t)))
            }
        },
        OutputFormat::Tsv => {
            let t = format_tsv_to_string(data);
            let tv = chars_of(t.as_str());
            if tv.len() == 0 {
                Ok(None)
            } else {
                Ok(Some(with_newline(t)))
            }
        },
    }
}

// ---------------------------------------------------------------------------
// Laws of the envelope
// ---------------------------------------------------------------------------

/// The value that a metadata field shows in the envelope: `null` when absent.
pub open spec fn text_or_null(v: Option<String>) -> Json {
    match v {
        Some(s) => Json::Str(s@),
        None => Json::Null,
    }
}

/// The lookups that the layout of a metadata object gives for one key.
proof fn lemma_metadata_lookup(m: Metadata, k: Seq<char>)
    requires
        k.len() != 4,
    ensures
        lookup(metadata_object(Some(m))->Object_0, k) == {
            let a: Option<Json> = match m.count {
                Some(c) => if k == "count"@ {
                    Some(Json::Number(decimal(c as nat)))
                } else {
                    None
                },
                None => None,
            };
            let b = if m.truncated && k == "truncated"@ {
                Some(Json::Bool(true))
            } else {
                a
            };
            let c = match m.command {
                Some(s) => if k == "command"@ {
                    Some(Json::Str(s@))
                } else {
                    b
                },
                None => b,
            };
            match m.next_action {
                Some(s) => if k == "next_action"@ {
                    Some(Json::Str(s@))
                } else {
                    c
                },
                None => c,
            }
        },
{
    reveal_strlit("note");
    reveal_strlit("count");
    reveal_strlit("truncated");
    reveal_strlit("command");
    reveal_strlit("next_action");
    assert("note"@.len() == 4 && "count"@.len() == 5 && "truncated"@.len() == 9);
    assert("command"@.len() == 7 && "next_action"@.len() == 11);
    let a: Seq<(Seq<char>, Json)> = match m.count {
        Some(c) => seq![("count"@, Json::Number(decimal(c as nat)))],
        None => Seq::empty(),
    };
    let b = if m.truncated {
        a.push(("truncated"@, Json::Bool(true)))
    } else {
        a
    };
    let c = match m.command {
        Some(s) => b.push(("command"@, Json::Str(s@))),
        None => b,
    };
    let fields = metadata_entries(m);
    match m.count {
        Some(n) => crate::json::lemma_lookup_single("count"@, Json::Number(decimal(n as nat)), k),
        None => {},
    }
    crate::json::lemma_lookup_push(a, ("truncated"@, Json::Bool(true)), k);
    match m.command {
        Some(s) => crate::json::lemma_lookup_push(b, ("command"@, Json::Str(s@)), k),
        None => {},
    }
    match m.next_action {
        Some(s) => crate::json::lemma_lookup_push(c, ("next_action"@, Json::Str(s@)), k),
        None => {},
    }
    crate::json::lemma_key_pos(fields, "note"@);
    assert forall|i: int| 0 <= i < fields.len() implies fields[i].0 != "note"@ by {
        assert(fields[i].0.len() != 4);
    }
    assert(insert_entry(fields, "note"@, Json::Str(AGENT_ENVELOPE_NOTE@)) == fields.push(
        ("note"@, Json::Str(AGENT_ENVELOPE_NOTE@)),
    ));
    crate::json::lemma_lookup_push(fields, ("note"@, Json::Str(AGENT_ENVELOPE_NOTE@)), k);
}

/// The envelope's metadata shows each field of the command's metadata under
/// its own key: `count` is the count when one is known, `truncated` is
/// `true` exactly when the results may have been cut (absent otherwise),
/// `command` and `next_action` are the command's texts when given; a field
/// that is not given is absent (`null`).
pub proof fn law_envelope_metadata_fields(data: Json, m: Metadata)
    ensures
        member(envelope_spec(data, Some(m)), "metadata"@) == metadata_object(Some(m)),
        member(metadata_object(Some(m)), "count"@) == match m.count {
            Some(c) => Json::Number(decimal(c as nat)),
            None => Json::Null,
        },
        member(metadata_object(Some(m)), "truncated"@) == if m.truncated {
            Json::Bool(true)
        } else {
            Json::Null
        },
        member(metadata_object(Some(m)), "command"@) == text_or_null(m.command),
        member(metadata_object(Some(m)), "next_action"@) == text_or_null(m.next_action),
{
    reveal_strlit("count");
    reveal_strlit("truncated");
    reveal_strlit("command");
    reveal_strlit("next_action");
    reveal_strlit("status");
    reveal_strlit("data");
    reveal_strlit("metadata");
    assert("count"@.len() == 5 && "truncated"@.len() == 9);
    assert("command"@.len() == 7 && "next_action"@.len() == 11);
    assert("status"@.len() == 6 && "data"@.len() == 4 && "metadata"@.len() == 8);
    lemma_metadata_lookup(m, "count"@);
    lemma_metadata_lookup(m, "truncated"@);
    lemma_metadata_lookup(m, "command"@);
    lemma_metadata_lookup(m, "next_action"@);
    let e = envelope_spec(data, Some(m))->Object_0;
    assert(e == seq![("status"@, Json::Str("success"@)), ("data"@, envelope_payload(data))].push(
        ("metadata"@, metadata_object(Some(m))),
    ));
    crate::json::lemma_lookup_push(
        seq![("status"@, Json::Str("success"@)), ("data"@, envelope_payload(data))],
        ("metadata"@, metadata_object(Some(m))),
        "metadata"@,
    );
}

/// The envelope's `data` is the payload of the response: for an object that
/// holds `data`, the value under it (keys sorted); for any other response,
/// the whole response (keys sorted).
pub proof fn law_envelope_payload(data: Json, m: Option<Metadata>)
    ensures
        data is Object && lookup(data->Object_0, "data"@) is Some ==> member(envelope_spec(data, m), "data"@)
            == sort_json(lookup(data->Object_0, "data"@)->Some_0),
        !(data is Object && lookup(data->Object_0, "data"@) is Some) ==> member(envelope_spec(data, m), "data"@)
            == sort_json(data),
{
    law_envelope_always_has_note(data, m);
    if data is Object {
        law_sorted_object_lookup(data, "data"@);
    }
}

/// Every envelope carries `status: success`, the payload and
/// `metadata.note` set to `AGENT_ENVELOPE_NOTE`, whether or not metadata was given.
pub proof fn law_envelope_always_has_note(data: Json, m: Option<Metadata>)
    ensures
        member(envelope_spec(data, m), "status"@) == Json::Str("success"@),
        member(envelope_spec(data, m), "data"@) == envelope_payload(data),
        member(member(envelope_spec(data, m), "metadata"@), "note"@) == Json::Str(
            AGENT_ENVELOPE_NOTE@,
        ),
{
    reveal_strlit("status");
    reveal_strlit("data");
    reveal_strlit("metadata");
    reveal_strlit("note");
    reveal_strlit("count");
    reveal_strlit("truncated");
    reveal_strlit("command");
    reveal_strlit("next_action");
    reveal_with_fuel(key_pos, 4);
    assert("note"@.len() == 4 && "count"@.len() == 5 && "truncated"@.len() == 9);
    assert("command"@.len() == 7 && "next_action"@.len() == 11);
    assert("status"@.len() == 6 && "data"@.len() == 4 && "metadata"@.len() == 8);
    assert("data"@ != "note"@) by {
        assert("data"@[0] != "note"@[0]);
    }
    let e = envelope_spec(data, m)->Object_0;
    assert(e.drop_last() =~= seq![("status"@, Json::Str("success"@)), ("data"@, envelope_payload(data))]);
    assert(e.drop_last().drop_last() =~= seq![("status"@, Json::Str("success"@))]);
    crate::json::lemma_key_pos(e, "status"@);
    crate::json::lemma_key_pos(e, "data"@);
    crate::json::lemma_key_pos(e, "metadata"@);
    let fields = match m {
        Some(x) => metadata_entries(x),
        None => Seq::empty(),
    };
    let me = insert_entry(fields, "note"@, Json::Str(AGENT_ENVELOPE_NOTE@));
    crate::json::lemma_key_pos(fields, "note"@);
    crate::json::lemma_key_pos(me, "note"@);
    assert forall|i: int| 0 <= i < fields.len() implies fields[i].0 != "note"@ by {
        assert(fields[i].0.len() != 4);
    }
}

/// A key found at exactly one position is looked up there.
proof fn lemma_lookup_at(e: Seq<(Seq<char>, Json)>, k: Seq<char>, i: int)
    requires
        0 <= i < e.len(),
        e[i].0 == k,
        forall|j: int| 0 <= j < e.len() && j != i ==> e[j].0 != k,
    ensures
        lookup(e, k) == Some(e[i].1),
{
    crate::json::lemma_key_pos(e, k);
}

/// A key found nowhere is not looked up.
proof fn lemma_lookup_none(e: Seq<(Seq<char>, Json)>, k: Seq<char>)
    requires
        forall|j: int| 0 <= j < e.len() ==> e[j].0 != k,
    ensures
        lookup(e, k) == None::<Json>,
{
    crate::json::lemma_key_pos(e, k);
}

/// The keys of serialized metadata: `count` only first and only when
/// present; never `note`.
proof fn lemma_metadata_entries(m: Metadata)
    ensures
        forall|j: int|
            0 <= j < metadata_entries(m).len() ==> (metadata_entries(m)[j].0 == "count"@ <==> (j
                == 0 && m.count is Some)),
        forall|j: int| 0 <= j < metadata_entries(m).len() ==> metadata_entries(m)[j].0 != "note"@,
        m.count is Some ==> metadata_entries(m).len() > 0 && metadata_entries(m)[0] == (
            "count"@,
            Json::Number(decimal(m.count->0 as nat)),
        ),
{
    reveal_strlit("note");
    reveal_strlit("count");
    reveal_strlit("truncated");
    reveal_strlit("command");
    reveal_strlit("next_action");
    assert("note"@.len() == 4 && "count"@.len() == 5 && "truncated"@.len() == 9);
    assert("command"@.len() == 7 && "next_action"@.len() == 11);
    let f = metadata_entries(m);
    assert forall|j: int| 0 <= j < f.len() implies f[j].0.len() == 5 || f[j].0.len() == 9
        || f[j].0.len() == 7 || f[j].0.len() == 11 by {}
    assert forall|j: int| 0 <= j < f.len() implies (f[j].0 == "count"@ <==> (j == 0
        && m.count is Some)) by {
        if j > 0 || m.count is None {
            assert(f[j].0.len() != 5);
        }
    }
}

/// The metadata object of an envelope, as entries.
proof fn lemma_metadata_object(m: Metadata)
    ensures
        metadata_object(Some(m))->Object_0 == metadata_entries(m).push(
            ("note"@, Json::Str(AGENT_ENVELOPE_NOTE@)),
        ),
{
    lemma_metadata_entries(m);
    lemma_lookup_none(metadata_entries(m), "note"@);
    crate::json::lemma_key_pos(metadata_entries(m), "note"@);
}

/// The metadata member of an envelope.
proof fn lemma_envelope_metadata(data: Json, m: Option<Metadata>)
    ensures
        member(envelope_spec(data, m), "metadata"@) == metadata_object(m),
        lookup(envelope_spec(data, m)->Object_0, "metadata"@) == Some(metadata_object(m)),
{
    reveal_strlit("status");
    reveal_strlit("data");
    reveal_strlit("metadata");
    assert("status"@.len() == 6 && "data"@.len() == 4 && "metadata"@.len() == 8);
    let e = envelope_spec(data, m)->Object_0;
    lemma_lookup_at(e, "metadata"@, 2);
}

/// Without a filter, the metadata's count is kept in the envelope.
pub proof fn law_envelope_keeps_count(data: Json, m: Metadata)
    requires
        m.count is Some,
    ensures
        member(member(envelope_spec(data, Some(m)), "metadata"@), "count"@) == Json::Number(
            decimal(m.count->0 as nat),
        ),
{
    reveal_strlit("note");
    reveal_strlit("count");
    assert("note"@.len() == 4 && "count"@.len() == 5);
    lemma_envelope_metadata(data, Some(m));
    lemma_metadata_object(m);
    lemma_metadata_entries(m);
    let me = metadata_entries(m).push(("note"@, Json::Str(AGENT_ENVELOPE_NOTE@)));
    lemma_lookup_at(me, "count"@, 0);
}

/// The metadata that a `--jq` filter leaves.
pub open spec fn stripped(m: Metadata) -> Metadata {
    Metadata { count: None, truncated: false, command: m.command, next_action: m.next_action }
}

/// After a `--jq` filter the envelope's metadata has no count, and its note
/// is the envelope note followed by the filter note.
pub proof fn law_filtered_envelope(data: Json, m: Metadata)
    ensures
        member(member(jq_noted(envelope_spec(data, Some(stripped(m)))), "metadata"@), "count"@)
            == Json::Null,
        member(member(jq_noted(envelope_spec(data, Some(stripped(m)))), "metadata"@), "note"@)
            == Json::Str(AGENT_ENVELOPE_NOTE@ + seq![' '] + JQ_FILTER_NOTE@),
{
    reveal_strlit("note");
    reveal_strlit("count");
    reveal_strlit("status");
    reveal_strlit("data");
    reveal_strlit("metadata");
    assert("note"@.len() == 4 && "count"@.len() == 5);
    assert("status"@.len() == 6 && "data"@.len() == 4 && "metadata"@.len() == 8);
    let sm = stripped(m);
    lemma_envelope_metadata(data, Some(sm));
    lemma_metadata_object(sm);
    lemma_metadata_entries(sm);
    let f = metadata_entries(sm);
    let me = f.push(("note"@, Json::Str(AGENT_ENVELOPE_NOTE@)));
    lemma_lookup_at(me, "note"@, f.len() as int);
    let new_note = Json::Str(AGENT_ENVELOPE_NOTE@ + seq![' '] + JQ_FILTER_NOTE@);
    crate::json::lemma_key_pos(me, "note"@);
    let noted = insert_entry(me, "note"@, new_note);
    assert(noted == me.update(f.len() as int, ("note"@, new_note)));
    lemma_lookup_at(noted, "note"@, f.len() as int);
    lemma_lookup_none(noted, "count"@);
    let env = envelope_spec(data, Some(sm));
    let e = env->Object_0;
    crate::json::lemma_key_pos(e, "metadata"@);
    let ne = insert_entry(e, "metadata"@, Json::Object(noted));
    assert(ne == e.update(2, ("metadata"@, Json::Object(noted))));
    lemma_lookup_at(ne, "metadata"@, 2);
}

} // verus!
