//! JSON text in its compact form (`{"a":1}`): the framing in which the
//! library hands a document to serde_json and serde_norway to print.
use vstd::prelude::*;

use crate::json::{
    entries_view, items_view, lemma_entries_view, lemma_items_view, Json, JsonValue,
};
use crate::text::{chars_of, string_from_chars};

verus! {

/// A lowercase hexadecimal digit.
pub open spec fn hex_digit(d: nat) -> char {
    if d < 10 {
        (('0' as u32) + d) as char
    } else {
        (('a' as u32) + d - 10) as char
    }
}

/// How one character of a string is written inside JSON quotes.
pub open spec fn escape_char(c: char) -> Seq<char> {
    if c == '"' {
        seq!['\\', '"']
    } else if c == '\\' {
        seq!['\\', '\\']
    } else if c == '\n' {
        seq!['\\', 'n']
    } else if c == '\r' {
        seq!['\\', 'r']
    } else if c == '\t' {
        seq!['\\', 't']
    } else if c == '\u{8}' {
        seq!['\\', 'b']
    } else if c == '\u{c}' {
        seq!['\\', 'f']
    } else if (c as u32) < 0x20 {
        seq!['\\', 'u', '0', '0', hex_digit((c as u32 / 16) as nat), hex_digit((c as u32 % 16) as nat)]
    } else {
        seq![c]
    }
}

/// The characters of a string, escaped for JSON.
pub open spec fn escape_seq(s: Seq<char>) -> Seq<char>
    decreases s.len(),
{
    if s.len() == 0 {
        Seq::empty()
    } else {
        escape_seq(s.drop_last()) + escape_char(s.last())
    }
}

/// A string literal in JSON: the escaped characters between double quotes.
pub open spec fn quoted(s: Seq<char>) -> Seq<char> {
    seq!['"'] + escape_seq(s) + seq!['"']
}

/// The compact JSON text of a document.
pub open spec fn compact(v: Json) -> Seq<char>
    decreases v, 1nat,
{
    match v {
        Json::Null => seq!['n', 'u', 'l', 'l'],
        Json::Bool(b) => if b {
            seq!['t', 'r', 'u', 'e']
        } else {
            seq!['f', 'a', 'l', 's', 'e']
        },
        Json::Number(n) => n,
        Json::Str(s) => quoted(s),
        Json::Array(items) => seq!['['] + compact_items(items) + seq![']'],
        Json::Object(entries) => seq!['{'] + compact_entries(entries) + seq!['}'],
    }
}

/// Array items in compact form, separated by commas.
pub open spec fn compact_items(items: Seq<Json>) -> Seq<char>
    decreases items, 0nat,
{
    if items.len() == 0 {
        Seq::empty()
    } else {
        proof {
            broadcast use vstd::seq::axiom_seq_index_decreases, vstd::seq::axiom_seq_subrange_decreases;

            assert(decreases_to!(items => items[items.len() - 1]));
            assert(decreases_to!(items => items.subrange(0, items.len() - 1)));
        }
        let last = compact(items.last());
        if items.len() == 1 {
            last
        } else {
            compact_items(items.drop_last()) + seq![','] + last
        }
    }
}

/// Object entries in compact form: `"key":value`, separated by commas.
pub open spec fn compact_entries(entries: Seq<(Seq<char>, Json)>) -> Seq<char>
    decreases entries, 0nat,
{
    if entries.len() == 0 {
        Seq::empty()
    } else {
        proof {
            broadcast use vstd::seq::axiom_seq_index_decreases, vstd::seq::axiom_seq_subrange_decreases;

            assert(decreases_to!(entries => entries[entries.len() - 1]));
            assert(decreases_to!(entries[entries.len() - 1] => entries[entries.len() - 1].1));
            assert(decreases_to!(entries => entries.subrange(0, entries.len() - 1)));
        }
        let last = quoted(entries.last().0) + seq![':'] + compact(entries.last().1);
        if entries.len() == 1 {
            last
        } else {
            compact_entries(entries.drop_last()) + seq![','] + last
        }
    }
}

// ---------------------------------------------------------------------------
// Writers
// ---------------------------------------------------------------------------

/// Appends `s` to `out`.
fn push_all(out: &mut Vec<char>, s: &Vec<char>)
    ensures
        final(out)@ == old(out)@ + s@,
{
    let mut i: usize = 0;
    let ghost start = out@;
    while i < s.len()
        invariant
            i <= s.len(),
            out@ == start + s@.subrange(0, i as int),
        decreases s.len() - i,
    {
        out.push(s[i]);
        assert(out@ =~= start + s@.subrange(0, i + 1));
        i = i + 1;
    }
    assert(s@.subrange(0, s.len() as int) =~= s@);
}

/// Appends the characters of `s` to `out`.
fn push_str(out: &mut Vec<char>, s: &str)
    ensures
        final(out)@ == old(out)@ + s@,
{
    let v = chars_of(s);
    push_all(out, &v);
}

/// A hexadecimal digit for a value below sixteen.
fn hex(d: u32) -> (c: char)
    requires
        d < 16,
    ensures
        c == hex_digit(d as nat),
{
    if d == 0 { '0' } else if d == 1 { '1' } else if d == 2 { '2' } else if d == 3 { '3' }
    else if d == 4 { '4' } else if d == 5 { '5' } else if d == 6 { '6' } else if d == 7 { '7' }
    else if d == 8 { '8' } else if d == 9 { '9' } else if d == 10 { 'a' } else if d == 11 { 'b' }
    else if d == 12 { 'c' } else if d == 13 { 'd' } else if d == 14 { 'e' } else { 'f' }
}

/// Appends the escaped form of one character.
fn write_escaped_char(c: char, out: &mut Vec<char>)
    ensures
        final(out)@ == old(out)@ + escape_char(c),
{
    let ghost start = out@;
    if c == '"' {
        out.push('\\');
        out.push('"');
    } else if c == '\\' {
        out.push('\\');
        out.push('\\');
    } else if c == '\n' {
        out.push('\\');
        out.push('n');
    } else if c == '\r' {
        out.push('\\');
        out.push('r');
    } else if c == '\t' {
        out.push('\\');
        out.push('t');
    } else if c == '\u{8}' {
        out.push('\\');
        out.push('b');
    } else if c == '\u{c}' {
        out.push('\\');
        out.push('f');
    } else if (c as u32) < 0x20 {
        let n = c as u32;
        out.push('\\');
        out.push('u');
        out.push('0');
        out.push('0');
        out.push(hex(n / 16));
        out.push(hex(n % 16));
    } else {
        out.push(c);
    }
    assert(out@ =~= start + escape_char(c));
}

/// Appends a JSON string literal for `s`.
fn write_quoted(s: &String, out: &mut Vec<char>)
    ensures
        final(out)@ == old(out)@ + quoted(s@),
{
    let ghost start = out@;
    let v = chars_of(s.as_str());
    out.push('"');
    let mut i: usize = 0;
    while i < v.len()
        invariant
            i <= v.len(),
            v@ == s@,
            out@ == start + seq!['"'] + escape_seq(v@.subrange(0, i as int)),
        decreases v.len() - i,
    {
        write_escaped_char(v[i], out);
        assert(v@.subrange(0, i + 1).drop_last() =~= v@.subrange(0, i as int));
        i = i + 1;
    }
    assert(v@.subrange(0, v.len() as int) =~= v@);
    out.push('"');
    assert(out@ =~= start + quoted(s@));
}

/// Appends the compact JSON text of `v`.
pub fn write_compact(v: &JsonValue, out: &mut Vec<char>)
    ensures
        final(out)@ == old(out)@ + compact(v@),
    decreases v,
{
    let ghost start = out@;
    match v {
        JsonValue::Null => {
            push_str(out, "null");
            proof {
                reveal_strlit("null");
            }
            assert(out@ =~= start + compact(v@));
        },
        JsonValue::Bool(b) => {
            if *b {
                push_str(out, "true");
                proof {
                    reveal_strlit("true");
                }
            } else {
                push_str(out, "false");
                proof {
                    reveal_strlit("false");
                }
            }
            assert(out@ =~= start + compact(v@));
        },
        JsonValue::Number(n) => {
            push_str(out, n.as_str());
        },
        JsonValue::String(s) => {
            write_quoted(s, out);
        },
        JsonValue::Array(a) => {
            out.push('[');
            let mut i: usize = 0;
            while i < a.len()
                invariant
                    *v == JsonValue::Array(*a),
                    i <= a.len(),
                    out@ == start + seq!['['] + compact_items(items_view(a@.subrange(0, i as int))),
                decreases a.len() - i,
            {
                proof {
                    broadcast use vstd::std_specs::vec::axiom_vec_index_decreases;

                    assert(decreases_to!(*v => v->Array_0));
                    assert(decreases_to!(*v => a[i as int]));
                }
                let ghost before = a@.subrange(0, i as int);
                let ghost after = a@.subrange(0, i + 1);
                proof {
                    lemma_items_view(before);
                    lemma_items_view(after);
                    assert(items_view(after).drop_last() =~= items_view(before));
                }
                if i > 0 {
                    out.push(',');
                }
                write_compact(&a[i], out);
                i = i + 1;
            }
            assert(a@.subrange(0, a.len() as int) =~= a@);
            out.push(']');
        },
        JsonValue::Object(e) => {
            out.push('{');
            let mut i: usize = 0;
            while i < e.len()
                invariant
                    *v == JsonValue::Object(*e),
                    i <= e.len(),
                    out@ == start + seq!['{'] + compact_entries(entries_view(e@.subrange(0, i as int))),
                decreases e.len() - i,
            {
                proof {
                    broadcast use vstd::std_specs::vec::axiom_vec_index_decreases;

                    assert(decreases_to!(*v => v->Object_0));
                    assert(decreases_to!(*v => e[i as int]));
                    assert(decreases_to!(e[i as int] => e[i as int].1));
                }
                let ghost before = e@.subrange(0, i as int);
                let ghost after = e@.subrange(0, i + 1);
                proof {
                    lemma_entries_view(before);
                    lemma_entries_view(after);
                    assert(entries_view(after).drop_last() =~= entries_view(before));
                }
                if i > 0 {
                    out.push(',');
                }
                write_quoted(&e[i].0, out);
                out.push(':');
                write_compact(&e[i].1, out);
                i = i + 1;
            }
            assert(e@.subrange(0, e.len() as int) =~= e@);
            out.push('}');
        },
    }
}

/// The compact JSON text of a document: no whitespace, strings escaped as
/// JSON requires.
pub fn to_compact_string(v: &JsonValue) -> (s: String)
    ensures
        s@ == compact(v@),
{
    let mut out: Vec<char> = Vec::new();
    write_compact(v, &mut out);
    assert(out@ =~= compact(v@));
    string_from_chars(&out)
}

} // verus!
