//! The order of object keys: lexicographic by Unicode code point, which is
//! the byte order of their UTF-8 text (the order of `String`'s `Ord`).
//! Sorted key lists and sorted object entries are kept by insertion.
use vstd::prelude::*;

use crate::json::Json;

verus! {

/// `a` sorts strictly before `b`.
pub open spec fn key_lt(a: Seq<char>, b: Seq<char>) -> bool
    decreases a.len(),
{
    if a.len() == 0 {
        b.len() > 0
    } else if b.len() == 0 {
        false
    } else if a[0] != b[0] {
        a[0] < b[0]
    } else {
        key_lt(a.drop_first(), b.drop_first())
    }
}

/// No key sorts before itself.
pub proof fn lemma_key_lt_irreflexive(a: Seq<char>)
    ensures
        !key_lt(a, a),
    decreases a.len(),
{
    if a.len() > 0 {
        lemma_key_lt_irreflexive(a.drop_first());
    }
}

/// Of two different keys, one sorts before the other, and never both.
pub proof fn lemma_key_lt_total(a: Seq<char>, b: Seq<char>)
    ensures
        a != b ==> key_lt(a, b) || key_lt(b, a),
        !(key_lt(a, b) && key_lt(b, a)),
    decreases a.len(),
{
    if a.len() > 0 && b.len() > 0 {
        if a[0] == b[0] {
            lemma_key_lt_total(a.drop_first(), b.drop_first());
            if a != b {
                assert(a =~= seq![a[0]] + a.drop_first());
                assert(b =~= seq![b[0]] + b.drop_first());
            }
        }
    } else if a.len() == 0 && b.len() == 0 {
        assert(a =~= b);
    }
}

/// The order is transitive.
pub proof fn lemma_key_lt_transitive(a: Seq<char>, b: Seq<char>, c: Seq<char>)
    requires
        key_lt(a, b),
        key_lt(b, c),
    ensures
        key_lt(a, c),
    decreases a.len(),
{
    if a.len() > 0 && b.len() > 0 && c.len() > 0 {
        if a[0] == b[0] && b[0] == c[0] {
            lemma_key_lt_transitive(a.drop_first(), b.drop_first(), c.drop_first());
        }
    }
}

/// Compares two keys.
pub fn key_less(a: &Vec<char>, b: &Vec<char>) -> (r: bool)
    ensures
        r == key_lt(a@, b@),
{
    let mut i: usize = 0;
    assert(a@.skip(0) =~= a@);
    assert(b@.skip(0) =~= b@);
    while i < a.len() && i < b.len() && a[i] == b[i]
        invariant
            i <= a.len(),
            i <= b.len(),
            key_lt(a@, b@) == key_lt(a@.skip(i as int), b@.skip(i as int)),
        decreases a.len() - i,
    {
        assert(a@.skip(i as int).drop_first() =~= a@.skip(i + 1));
        assert(b@.skip(i as int).drop_first() =~= b@.skip(i + 1));
        i = i + 1;
    }
    if i == a.len() {
        i < b.len()
    } else if i == b.len() {
        false
    } else {
        a[i] < b[i]
    }
}

// ---------------------------------------------------------------------------
// Sorted key lists
// ---------------------------------------------------------------------------

/// Every key sorts strictly before every later one.
pub open spec fn strictly_sorted(s: Seq<Seq<char>>) -> bool {
    forall|i: int, j: int| 0 <= i < j < s.len() ==> key_lt(s[i], s[j])
}

/// `k` inserted into a sorted list, unless already present.
pub open spec fn insert_key(s: Seq<Seq<char>>, k: Seq<char>) -> Seq<Seq<char>>
    decreases s.len(),
{
    if s.len() == 0 {
        seq![k]
    } else if s[0] == k {
        s
    } else if key_lt(k, s[0]) {
        seq![k] + s
    } else {
        seq![s[0]] + insert_key(s.drop_first(), k)
    }
}

/// Inserting past a prefix of smaller keys leaves the prefix in place.
proof fn lemma_insert_key_split(s: Seq<Seq<char>>, k: Seq<char>, j: int)
    requires
        0 <= j <= s.len(),
        forall|i: int| 0 <= i < j ==> key_lt(s[i], k),
    ensures
        insert_key(s, k) == s.take(j) + insert_key(s.skip(j), k),
    decreases j,
{
    if j > 0 {
        lemma_key_lt_irreflexive(k);
        lemma_key_lt_total(s[0], k);
        lemma_insert_key_split(s.drop_first(), k, j - 1);
        assert(s.drop_first().take(j - 1) =~= s.take(j).drop_first());
        assert(s.drop_first().skip(j - 1) =~= s.skip(j));
        assert(s.take(j) =~= seq![s[0]] + s.take(j).drop_first());
    } else {
        assert(s.skip(0) =~= s);
        assert(s.take(0) + insert_key(s.skip(0), k) =~= insert_key(s, k));
    }
}

/// Inserting keeps a list strictly sorted and adds exactly `k`.
pub proof fn lemma_insert_key(s: Seq<Seq<char>>, k: Seq<char>)
    requires
        strictly_sorted(s),
    ensures
        strictly_sorted(insert_key(s, k)),
        forall|x: Seq<char>| #[trigger] insert_key(s, k).contains(x) <==> (s.contains(x) || x == k),
    decreases s.len(),
{
    if s.len() > 0 && s[0] != k && !key_lt(k, s[0]) {
        let t = s.drop_first();
        assert(strictly_sorted(t)) by {
            assert forall|i: int, j: int| 0 <= i < j < t.len() implies key_lt(t[i], t[j]) by {
                assert(t[i] == s[i + 1] && t[j] == s[j + 1]);
            }
        }
        lemma_insert_key(t, k);
        lemma_key_lt_total(k, s[0]);
        let r = insert_key(s, k);
        assert(r == seq![s[0]] + insert_key(t, k));
        assert forall|x: Seq<char>| insert_key(t, k).contains(x) implies key_lt(s[0], x) by {
            if t.contains(x) {
                let i = choose|i: int| 0 <= i < t.len() && t[i] == x;
                assert(s[i + 1] == x);
            }
        }
        assert forall|i: int, j: int| 0 <= i < j < r.len() implies key_lt(r[i], r[j]) by {
            if i == 0 {
                assert(insert_key(t, k).contains(r[j])) by {
                    assert(insert_key(t, k)[j - 1] == r[j]);
                }
            } else {
                assert(r[i] == insert_key(t, k)[i - 1]);
                assert(r[j] == insert_key(t, k)[j - 1]);
            }
        }
        assert forall|x: Seq<char>| r.contains(x) <==> (s.contains(x) || x == k) by {
            let it = insert_key(t, k);
            if r.contains(x) {
                let i = choose|i: int| 0 <= i < r.len() && r[i] == x;
                if i > 0 {
                    assert(it[i - 1] == x);
                    assert(it.contains(x));
                    if t.contains(x) {
                        let m = choose|m: int| 0 <= m < t.len() && t[m] == x;
                        assert(s[m + 1] == x);
                        assert(s.contains(x));
                    }
                } else {
                    assert(s[0] == x);
                    assert(s.contains(x));
                }
            }
            if s.contains(x) || x == k {
                if x == k || (s.contains(x) && x != s[0]) {
                    if x != k {
                        let i = choose|i: int| 0 <= i < s.len() && s[i] == x;
                        assert(i != 0);
                        assert(t[i - 1] == x);
                        assert(t.contains(x));
                    }
                    assert(it.contains(x));
                    let m = choose|m: int| 0 <= m < it.len() && it[m] == x;
                    assert(r[m + 1] == x);
                } else {
                    assert(r[0] == x);
                }
                assert(r.contains(x));
            }
        }
    } else if s.len() > 0 && s[0] != k {
        let r = insert_key(s, k);
        assert forall|i: int, j: int| 0 <= i < j < r.len() implies key_lt(r[i], r[j]) by {
            if i == 0 {
                if j > 1 {
                    lemma_key_lt_transitive(k, s[0], s[j - 1]);
                }
            } else {
                assert(r[i] == s[i - 1] && r[j] == s[j - 1]);
            }
        }
        assert forall|x: Seq<char>| r.contains(x) <==> (s.contains(x) || x == k) by {
            if r.contains(x) {
                let i = choose|i: int| 0 <= i < r.len() && r[i] == x;
                if i > 0 {
                    assert(s[i - 1] == x);
                }
            }
            if s.contains(x) {
                let i = choose|i: int| 0 <= i < s.len() && s[i] == x;
                assert(r[i + 1] == x);
            }
            if x == k {
                assert(r[0] == x);
            }
        }
    } else if s.len() == 0 {
        let r = insert_key(s, k);
        assert(r =~= seq![k]);
        assert forall|x: Seq<char>| r.contains(x) <==> (s.contains(x) || x == k) by {
            if x == k {
                assert(r[0] == x);
            }
        }
    } else {
        assert(s[0] == k);
        assert(s.contains(k));
    }
}

/// Inserts `k` into a strictly sorted list of keys unless it is present.
pub fn insert_key_exec(s: &mut Vec<String>, k: &String)
    requires
        strictly_sorted(crate::text::views(old(s)@)),
    ensures
        crate::text::views(final(s)@) == insert_key(crate::text::views(old(s)@), k@),
{
    let ghost sv = crate::text::views(s@);
    let kv = crate::text::chars_of(k.as_str());
    let mut j: usize = 0;
    while j < s.len()
        invariant
            sv == crate::text::views(s@),
            kv@ == k@,
            j <= s.len(),
            forall|i: int| 0 <= i < j ==> key_lt(sv[i], k@),
        ensures
            j <= s.len(),
            forall|i: int| 0 <= i < j ==> key_lt(sv[i], k@),
            j < s.len() ==> !key_lt(sv[j as int], k@),
        decreases s.len() - j,
    {
        let sj = crate::text::chars_of(s[j].as_str());
        if !key_less(&sj, &kv) {
            break;
        }
        j = j + 1;
    }
    proof {
        lemma_insert_key_split(sv, k@, j as int);
    }
    if j < s.len() {
        let sj = crate::text::chars_of(s[j].as_str());
        let ghost rest = sv.skip(j as int);
        assert(rest[0] == sv[j as int]);
        if crate::text::chars_eq(&sj, &kv) {
            assert(sv.take(j as int) + rest =~= sv);
            return;
        }
        proof {
            lemma_key_lt_total(sv[j as int], k@);
        }
        s.insert(j, k.clone());
        assert(crate::text::views(s@) =~= sv.take(j as int) + (seq![k@] + rest));
    } else {
        s.push(k.clone());
        assert(crate::text::views(s@) =~= sv.take(j as int) + seq![k@]);
    }
}

} // verus!
