//! Character-level text operations shared by the formatters and argument
//! parsers. Every operation works on the character sequence that a `str`
//! views to, so contracts can speak of `Seq<char>` directly.
use vstd::prelude::*;

verus! {

// ---------------------------------------------------------------------------
// Bridges to std (one std function each)
// ---------------------------------------------------------------------------

/// `str::chars` collected into a vector: the characters of `s`, in order.
#[verifier::external_body]
pub(crate) fn chars_of(s: &str) -> (v: Vec<char>)
    ensures
        v@ == s@,
{
    s.chars().collect()
}

/// `FromIterator<char> for String`: the string made of exactly these characters.
#[verifier::external_body]
pub(crate) fn string_from_chars(v: &Vec<char>) -> (s: String)
    ensures
        s@ == v@,
{
    v.iter().collect()
}

/// `str::to_owned`: a `String` holding the same characters as `s`.
#[verifier::external_body]
pub(crate) fn owned(s: &str) -> (r: String)
    ensures
        r@ == s@,
{
    s.to_owned()
}

/// What `str::to_lowercase` returns for a string: each character mapped by
/// Unicode's lowercase mapping (which may change the length).
pub uninterp spec fn unicode_lowercase(s: Seq<char>) -> Seq<char>;

/// Every character is ASCII.
pub open spec fn all_ascii(s: Seq<char>) -> bool {
    forall|i: int| 0 <= i < s.len() ==> (#[trigger] s[i] as u32) < 128
}

/// `str::to_lowercase`. Its result is a function of the characters alone,
/// and on ASCII text it is the ASCII lowercase (Unicode maps `A`-`Z` to
/// `a`-`z` and leaves the other ASCII characters as they are).
#[verifier::external_body]
pub(crate) fn to_lowercase(s: &str) -> (r: String)
    ensures
        r@ == unicode_lowercase(s@),
        all_ascii(s@) ==> r@ == ascii_lower(s@),
{
    s.to_lowercase()
}

/// `String::push`: appends one character.
#[verifier::external_body]
pub(crate) fn push_char(s: &mut String, c: char)
    ensures
        final(s)@ == old(s)@.push(c),
{
    s.push(c)
}

/// `String::push_str`: appends the characters of `t`.
#[verifier::external_body]
pub(crate) fn push_text(s: &mut String, t: &str)
    ensures
        final(s)@ == old(s)@ + t@,
{
    s.push_str(t)
}

/// What `{:?}` writes for a string: the string quoted and escaped as Rust
/// source text.
pub uninterp spec fn debug_text(s: Seq<char>) -> Seq<char>;

/// `format!("{:?}", s)` for a string. Its result is a function of the
/// characters alone.
#[verifier::external_body]
pub(crate) fn debug_quoted(s: &str) -> (r: String)
    ensures
        r@ == debug_text(s@),
{
    format!("{s:?}")
}

// ---------------------------------------------------------------------------
// Specifications
// ---------------------------------------------------------------------------

/// The characters that `char::is_whitespace` accepts (Unicode `White_Space`).
pub open spec fn is_ws(c: char) -> bool {
    ||| ('\t' <= c && c <= '\r')
    ||| c == ' '
    ||| c == '\u{85}'
    ||| c == '\u{a0}'
    ||| c == '\u{1680}'
    ||| ('\u{2000}' <= c && c <= '\u{200a}')
    ||| c == '\u{2028}'
    ||| c == '\u{2029}'
    ||| c == '\u{202f}'
    ||| c == '\u{205f}'
    ||| c == '\u{3000}'
}

/// `s` with its leading whitespace removed.
pub open spec fn trim_start(s: Seq<char>) -> Seq<char>
    decreases s.len(),
{
    if s.len() > 0 && is_ws(s[0]) {
        trim_start(s.subrange(1, s.len() as int))
    } else {
        s
    }
}

/// `s` with every trailing character satisfying `p` removed.
pub open spec fn trim_end_by(s: Seq<char>, p: spec_fn(char) -> bool) -> Seq<char>
    decreases s.len(),
{
    if s.len() > 0 && p(s.last()) {
        trim_end_by(s.drop_last(), p)
    } else {
        s
    }
}

/// `s` with its trailing whitespace removed.
pub open spec fn trim_end(s: Seq<char>) -> Seq<char> {
    trim_end_by(s, |c: char| is_ws(c))
}

/// `s` with leading and trailing whitespace removed (`str::trim`).
pub open spec fn trim(s: Seq<char>) -> Seq<char> {
    trim_end(trim_start(s))
}

/// `needle` occurs in `s` starting at position `i`.
pub open spec fn occurs_at(s: Seq<char>, needle: Seq<char>, i: int) -> bool {
    0 <= i && i + needle.len() <= s.len() && s.subrange(i, i + needle.len()) == needle
}

/// `needle` occurs somewhere in `s` (`str::contains`).
pub open spec fn contains_seq(s: Seq<char>, needle: Seq<char>) -> bool {
    exists|i: int| occurs_at(s, needle, i)
}

/// Every occurrence of `c` in `s` replaced by `r` (`str::replace` with a char pattern).
pub open spec fn replace_char(s: Seq<char>, c: char, r: Seq<char>) -> Seq<char>
    decreases s.len(),
{
    if s.len() == 0 {
        s
    } else {
        replace_char(s.drop_last(), c, r) + if s.last() == c {
            r
        } else {
            seq![s.last()]
        }
    }
}

/// The ASCII lowercase of one character (`char::to_ascii_lowercase`).
pub open spec fn ascii_lower_char(c: char) -> char {
    if 'A' <= c && c <= 'Z' {
        ((c as u32) + 32) as char
    } else {
        c
    }
}

/// `str::to_ascii_lowercase`.
pub open spec fn ascii_lower(s: Seq<char>) -> Seq<char> {
    s.map_values(|c: char| ascii_lower_char(c))
}

/// The pieces of `parts` joined with `sep` between consecutive ones (`join`).
pub open spec fn join(parts: Seq<Seq<char>>, sep: Seq<char>) -> Seq<char>
    decreases parts.len(),
{
    if parts.len() == 0 {
        Seq::empty()
    } else if parts.len() == 1 {
        parts[0]
    } else {
        join(parts.drop_last(), sep) + sep + parts.last()
    }
}

/// The decimal digits of a natural number, most significant first, without
/// leading zeros (`"0"` for zero).
pub open spec fn decimal(n: nat) -> Seq<char>
    decreases n,
{
    if n < 10 {
        seq![digit_char(n)]
    } else {
        decimal(n / 10) + seq![digit_char(n % 10)]
    }
}

/// The ASCII digit for a value below ten.
pub open spec fn digit_char(d: nat) -> char {
    (('0' as u32) + d) as char
}

/// The decimal text of a signed integer, with a leading `-` when negative.
pub open spec fn decimal_int(n: int) -> Seq<char> {
    if n < 0 {
        seq!['-'] + decimal((-n) as nat)
    } else {
        decimal(n as nat)
    }
}

// ---------------------------------------------------------------------------
// Operations
// ---------------------------------------------------------------------------

/// True when the two texts hold the same characters.
pub fn text_eq(a: &str, b: &str) -> (r: bool)
    ensures
        r == (a@ == b@),
{
    let va = chars_of(a);
    let vb = chars_of(b);
    chars_eq(&va, &vb)
}

/// True when the two character vectors are equal.
pub fn chars_eq(a: &Vec<char>, b: &Vec<char>) -> (r: bool)
    ensures
        r == (a@ == b@),
{
    if a.len() != b.len() {
        return false;
    }
    let mut i: usize = 0;
    while i < a.len()
        invariant
            a.len() == b.len(),
            i <= a.len(),
            forall|k: int| 0 <= k < i ==> a@[k] == b@[k],
        decreases a.len() - i,
    {
        if a[i] != b[i] {
            return false;
        }
        i = i + 1;
    }
    assert(a@ =~= b@);
    true
}

/// `char::is_whitespace`.
pub fn is_whitespace(c: char) -> (r: bool)
    ensures
        r == is_ws(c),
{
    ('\t' <= c && c <= '\r') || c == ' ' || c == '\u{85}' || c == '\u{a0}' || c == '\u{1680}'
        || ('\u{2000}' <= c && c <= '\u{200a}') || c == '\u{2028}' || c == '\u{2029}' || c
        == '\u{202f}' || c == '\u{205f}' || c == '\u{3000}'
}

/// The index where `trim_start` would begin.
fn trim_start_index(v: &Vec<char>) -> (i: usize)
    ensures
        i <= v.len(),
        trim_start(v@) == v@.subrange(i as int, v.len() as int),
{
    assert(v@.subrange(0, v.len() as int) =~= v@);
    let mut i: usize = 0;
    while i < v.len() && is_whitespace(v[i])
        invariant
            i <= v.len(),
            trim_start(v@) == trim_start(v@.subrange(i as int, v.len() as int)),
        decreases v.len() - i,
    {
        let ghost rest = v@.subrange(i as int, v.len() as int);
        assert(rest.subrange(1, rest.len() as int) =~= v@.subrange(i + 1, v.len() as int));
        i = i + 1;
    }
    i
}

/// The characters `v[from..to]` as a new vector.
pub fn slice_chars(v: &Vec<char>, from: usize, to: usize) -> (r: Vec<char>)
    requires
        from <= to <= v.len(),
    ensures
        r@ == v@.subrange(from as int, to as int),
{
    let mut r: Vec<char> = Vec::new();
    let mut i = from;
    while i < to
        invariant
            from <= i <= to <= v.len(),
            r@ == v@.subrange(from as int, i as int),
        decreases to - i,
    {
        r.push(v[i]);
        assert(r@ =~= v@.subrange(from as int, i + 1));
        i = i + 1;
    }
    r
}

/// The end index after dropping trailing whitespace from `v[..to]`.
fn trim_end_index(v: &Vec<char>, to: usize) -> (j: usize)
    requires
        to <= v.len(),
    ensures
        j <= to,
        trim_end(v@.subrange(0, to as int)) == v@.subrange(0, j as int),
{
    let mut j = to;
    while j > 0 && is_whitespace(v[j - 1])
        invariant
            j <= to <= v.len(),
            trim_end(v@.subrange(0, to as int)) == trim_end(v@.subrange(0, j as int)),
        decreases j,
    {
        assert(v@.subrange(0, j as int).drop_last() =~= v@.subrange(0, j - 1));
        j = j - 1;
    }
    j
}

/// `trim_end` over a whole vector.
pub fn trim_end_chars(v: &Vec<char>) -> (r: Vec<char>)
    ensures
        r@ == trim_end(v@),
{
    assert(v@.subrange(0, v.len() as int) =~= v@);
    let j = trim_end_index(v, v.len());
    slice_chars(v, 0, j)
}

/// `str::trim` over a character vector.
pub fn trim_chars(v: &Vec<char>) -> (r: Vec<char>)
    ensures
        r@ == trim(v@),
{
    let i = trim_start_index(v);
    let rest = slice_chars(v, i, v.len());
    trim_end_chars(&rest)
}

/// `str::trim` returning an owned string.
pub fn trim_str(s: &str) -> (r: String)
    ensures
        r@ == trim(s@),
{
    let v = chars_of(s);
    let t = trim_chars(&v);
    string_from_chars(&t)
}

/// True when `needle` occurs in `v` starting at `i`.
pub fn occurs_at_exec(v: &Vec<char>, needle: &Vec<char>, i: usize) -> (r: bool)
    requires
        i <= v.len(),
    ensures
        r == occurs_at(v@, needle@, i as int),
{
    if needle.len() > v.len() - i {
        return false;
    }
    let mut k: usize = 0;
    while k < needle.len()
        invariant
            i + needle.len() <= v.len(),
            k <= needle.len(),
            forall|m: int| 0 <= m < k ==> v@[i + m] == needle@[m],
        decreases needle.len() - k,
    {
        if v[i + k] != needle[k] {
            assert(v@.subrange(i as int, i + needle.len())[k as int] != needle@[k as int]);
            return false;
        }
        k = k + 1;
    }
    assert(v@.subrange(i as int, i + needle.len()) =~= needle@);
    true
}

/// `str::contains` with a string pattern.
pub fn contains_chars(v: &Vec<char>, needle: &Vec<char>) -> (r: bool)
    ensures
        r == contains_seq(v@, needle@),
{
    let mut i: usize = 0;
    while i < v.len()
        invariant
            i <= v.len(),
            forall|j: int| 0 <= j < i ==> !occurs_at(v@, needle@, j),
        decreases v.len() - i,
    {
        if occurs_at_exec(v, needle, i) {
            return true;
        }
        i = i + 1;
    }
    if occurs_at_exec(v, needle, i) {
        return true;
    }
    assert forall|j: int| !occurs_at(v@, needle@, j) by {
        if 0 <= j < i {
        }
    }
    false
}

/// The first position where `needle` occurs in `s`, or -1 (`str::find`).
pub open spec fn first_occurrence(s: Seq<char>, needle: Seq<char>) -> int {
    if exists|i: int| occurs_at(s, needle, i) {
        choose|i: int| occurs_at(s, needle, i) && forall|j: int| 0 <= j < i ==> !occurs_at(s, needle, j)
    } else {
        -1
    }
}

/// `str::find` with a string pattern.
pub fn find_chars(v: &Vec<char>, needle: &Vec<char>) -> (r: Option<usize>)
    ensures
        match r {
            Some(p) => p <= v.len() && first_occurrence(v@, needle@) == p as int,
            None => first_occurrence(v@, needle@) == -1,
        },
{
    let mut i: usize = 0;
    while i < v.len()
        invariant
            i <= v.len(),
            forall|j: int| 0 <= j < i ==> !occurs_at(v@, needle@, j),
        decreases v.len() - i,
    {
        if occurs_at_exec(v, needle, i) {
            assert(first_occurrence(v@, needle@) == i as int) by {
                assert(occurs_at(v@, needle@, i as int));
            }
            return Some(i);
        }
        i = i + 1;
    }
    if occurs_at_exec(v, needle, i) {
        assert(first_occurrence(v@, needle@) == i as int) by {
            assert(occurs_at(v@, needle@, i as int));
        }
        return Some(i);
    }
    assert forall|j: int| !occurs_at(v@, needle@, j) by {
        if 0 <= j < i {
        }
    }
    None
}

/// `str::contains` with a string pattern, over `str`s.
pub fn contains_text(s: &str, needle: &str) -> (r: bool)
    ensures
        r == contains_seq(s@, needle@),
{
    let v = chars_of(s);
    let n = chars_of(needle);
    contains_chars(&v, &n)
}

/// True when the character `c` occurs in `v`.
pub fn has_char(v: &Vec<char>, c: char) -> (r: bool)
    ensures
        r == v@.contains(c),
{
    let mut i: usize = 0;
    while i < v.len()
        invariant
            i <= v.len(),
            forall|j: int| 0 <= j < i ==> v@[j] != c,
        decreases v.len() - i,
    {
        if v[i] == c {
            return true;
        }
        i = i + 1;
    }
    false
}

/// The index of the first occurrence of `c` in `v`, if any.
pub fn find_char(v: &Vec<char>, c: char) -> (r: Option<usize>)
    ensures
        match r {
            Some(i) => i < v.len() && v@[i as int] == c && forall|j: int| 0 <= j < i ==> v@[j] != c,
            None => !v@.contains(c),
        },
{
    let mut i: usize = 0;
    while i < v.len()
        invariant
            i <= v.len(),
            forall|j: int| 0 <= j < i ==> v@[j] != c,
        decreases v.len() - i,
    {
        if v[i] == c {
            return Some(i);
        }
        i = i + 1;
    }
    None
}

/// `str::replace(c, r)` for a single-character pattern.
pub fn replace_char_chars(v: &Vec<char>, c: char, r: &Vec<char>) -> (out: Vec<char>)
    ensures
        out@ == replace_char(v@, c, r@),
{
    let mut out: Vec<char> = Vec::new();
    let mut i: usize = 0;
    while i < v.len()
        invariant
            i <= v.len(),
            out@ == replace_char(v@.subrange(0, i as int), c, r@),
        decreases v.len() - i,
    {
        let ghost prev = out@;
        if v[i] == c {
            let mut k: usize = 0;
            while k < r.len()
                invariant
                    k <= r.len(),
                    out@ == prev + r@.subrange(0, k as int),
                decreases r.len() - k,
            {
                out.push(r[k]);
                assert(out@ =~= prev + r@.subrange(0, k + 1));
                k = k + 1;
            }
            assert(r@.subrange(0, r.len() as int) =~= r@);
        } else {
            out.push(v[i]);
        }
        assert(v@.subrange(0, i + 1).drop_last() =~= v@.subrange(0, i as int));
        i = i + 1;
    }
    assert(v@.subrange(0, v.len() as int) =~= v@);
    out
}

/// `char::to_ascii_lowercase`.
pub fn ascii_lower_one(c: char) -> (r: char)
    ensures
        r == ascii_lower_char(c),
{
    match c {
        'A' => 'a',
        'B' => 'b',
        'C' => 'c',
        'D' => 'd',
        'E' => 'e',
        'F' => 'f',
        'G' => 'g',
        'H' => 'h',
        'I' => 'i',
        'J' => 'j',
        'K' => 'k',
        'L' => 'l',
        'M' => 'm',
        'N' => 'n',
        'O' => 'o',
        'P' => 'p',
        'Q' => 'q',
        'R' => 'r',
        'S' => 's',
        'T' => 't',
        'U' => 'u',
        'V' => 'v',
        'W' => 'w',
        'X' => 'x',
        'Y' => 'y',
        'Z' => 'z',
        _ => c,
    }
}

/// `str::to_ascii_lowercase` over a character vector.
pub fn ascii_lowercase_chars(v: &Vec<char>) -> (r: Vec<char>)
    ensures
        r@ == ascii_lower(v@),
{
    let mut r: Vec<char> = Vec::new();
    let mut i: usize = 0;
    while i < v.len()
        invariant
            i <= v.len(),
            r@ == ascii_lower(v@.subrange(0, i as int)),
        decreases v.len() - i,
    {
        r.push(ascii_lower_one(v[i]));
        assert(r@ =~= ascii_lower(v@.subrange(0, i + 1)));
        i = i + 1;
    }
    assert(v@.subrange(0, v.len() as int) =~= v@);
    r
}

/// The views of a list of strings.
pub open spec fn views(v: Seq<String>) -> Seq<Seq<char>> {
    v.map_values(|s: String| s@)
}

/// `[String]::join(sep)`.
pub fn join_strings(parts: &Vec<String>, sep: &str) -> (r: String)
    ensures
        r@ == join(views(parts@), sep@),
{
    let mut r = String::new();
    let mut i: usize = 0;
    while i < parts.len()
        invariant
            i <= parts.len(),
            r@ == join(views(parts@.subrange(0, i as int)), sep@),
        decreases parts.len() - i,
    {
        let ghost before = parts@.subrange(0, i as int);
        if i > 0 {
            push_text(&mut r, sep);
        }
        push_text(&mut r, parts[i].as_str());
        let ghost after = parts@.subrange(0, i + 1);
        assert(views(after).drop_last() =~= views(before));
        assert(views(after).last() == parts@[i as int]@);
        if i == 0 {
            assert(views(after) =~= seq![parts@[0]@]);
        }
        i = i + 1;
    }
    assert(parts@.subrange(0, parts.len() as int) =~= parts@);
    r
}

/// The digit character for a value below ten.
fn digit(d: u64) -> (c: char)
    requires
        d < 10,
    ensures
        c == digit_char(d as nat),
{
    if d == 0 { '0' } else if d == 1 { '1' } else if d == 2 { '2' } else if d == 3 { '3' }
    else if d == 4 { '4' } else if d == 5 { '5' } else if d == 6 { '6' } else if d == 7 { '7' }
    else if d == 8 { '8' } else { '9' }
}

/// `u64::to_string`: the decimal text of `n`.
pub fn u64_decimal(n: u64) -> (r: String)
    ensures
        r@ == decimal(n as nat),
    decreases n,
{
    if n < 10 {
        let mut r = String::new();
        push_char(&mut r, digit(n));
        r
    } else {
        let mut r = u64_decimal(n / 10);
        push_char(&mut r, digit(n % 10));
        r
    }
}

/// `i64::to_string`: the decimal text of `n`, with `-` when negative.
pub fn i64_decimal(n: i64) -> (r: String)
    ensures
        r@ == decimal_int(n as int),
{
    if n < 0 {
        let m: u64 = if n == i64::MIN {
            9223372036854775808u64
        } else {
            (-n) as u64
        };
        let mut r = String::new();
        push_char(&mut r, '-');
        let d = u64_decimal(m);
        push_text(&mut r, d.as_str());
        r
    } else {
        u64_decimal(n as u64)
    }
}

/// The value of a string of decimal digits.
pub open spec fn digits_value(s: Seq<char>) -> nat
    decreases s.len(),
{
    if s.len() == 0 {
        0
    } else {
        digits_value(s.drop_last()) * 10 + ((s.last() as u32) - ('0' as u32)) as nat
    }
}

/// Every character is an ASCII digit.
pub open spec fn all_digits(s: Seq<char>) -> bool {
    forall|i: int| 0 <= i < s.len() ==> '0' <= #[trigger] s[i] && s[i] <= '9'
}

/// What `str::parse::<u32>` gives: an optional `+` followed by at least one
/// digit, of value at most `u32::MAX`.
pub open spec fn parse_u32_spec(s: Seq<char>) -> Option<u32> {
    let d = if s.len() > 0 && s[0] == '+' {
        s.drop_first()
    } else {
        s
    };
    if d.len() > 0 && all_digits(d) && digits_value(d) <= u32::MAX {
        Some(digits_value(d) as u32)
    } else {
        None
    }
}

/// A longer digit string is worth at least as much as its prefix.
proof fn lemma_digits_value_prefix(s: Seq<char>, i: int)
    requires
        0 <= i <= s.len(),
        all_digits(s),
    ensures
        digits_value(s.take(i)) <= digits_value(s),
    decreases s.len() - i,
{
    if i < s.len() {
        lemma_digits_value_prefix(s, i + 1);
        assert(s.take(i + 1).drop_last() =~= s.take(i));
        assert('0' <= s[i] && s[i] <= '9');
    } else {
        assert(s.take(i) =~= s);
    }
}

/// `str::parse::<u32>`.
pub fn parse_u32(s: &str) -> (r: Option<u32>)
    ensures
        r == parse_u32_spec(s@),
{
    let v = chars_of(s);
    let start: usize = if v.len() > 0 && v[0] == '+' {
        1
    } else {
        0
    };
    let ghost d = if s@.len() > 0 && s@[0] == '+' {
        s@.drop_first()
    } else {
        s@
    };
    assert(d =~= v@.skip(start as int));
    if start >= v.len() {
        return None;
    }
    let mut acc: u64 = 0;
    let mut i = start;
    while i < v.len()
        invariant
            start <= i <= v.len(),
            v@ == s@,
            d == (if s@.len() > 0 && s@[0] == '+' {
                s@.drop_first()
            } else {
                s@
            }),
            d == v@.skip(start as int),
            acc as nat == digits_value(d.take(i - start)),
            acc <= u32::MAX,
            all_digits(d.take(i - start)),
        decreases v.len() - i,
    {
        let c = v[i];
        if c < '0' || c > '9' {
            assert(!('0' <= d[i - start] && d[i - start] <= '9'));
            assert(!all_digits(d));
            return None;
        }
        let digit: u64 = ((c as u32) - ('0' as u32)) as u64;
        acc = acc * 10 + digit;
        let ghost t = d.take(i + 1 - start);
        assert(t.drop_last() =~= d.take(i - start));
        assert(t.last() == c);
        assert(acc as nat == digits_value(t));
        if acc > 4294967295 {
            proof {
                if all_digits(d) {
                    lemma_digits_value_prefix(d, i + 1 - start);
                }
            }
            return None;
        }
        i = i + 1;
    }
    assert(d.take(v.len() - start) =~= d);
    Some(acc as u32)
}

/// `v` with every trailing `c` removed (`str::trim_end_matches` with a char).
pub fn trim_end_char(v: &Vec<char>, c: char) -> (r: Vec<char>)
    ensures
        r@ == trim_end_by(v@, |x: char| x == c),
{
    let mut j = v.len();
    assert(v@.subrange(0, v.len() as int) =~= v@);
    while j > 0 && v[j - 1] == c
        invariant
            j <= v.len(),
            trim_end_by(v@, |x: char| x == c) == trim_end_by(v@.subrange(0, j as int), |x: char| x == c),
        decreases j,
    {
        assert(v@.subrange(0, j as int).drop_last() =~= v@.subrange(0, j - 1));
        j = j - 1;
    }
    slice_chars(v, 0, j)
}

/// The pieces ended so far and the current piece after `n` characters of
/// `s`, splitting at `sep`.
pub open spec fn char_split_state(s: Seq<char>, sep: char, n: nat) -> (Seq<Seq<char>>, Seq<char>)
    decreases n,
{
    if n == 0 || n > s.len() {
        (Seq::empty(), Seq::empty())
    } else {
        let (done, cur) = char_split_state(s, sep, (n - 1) as nat);
        if s[n - 1] == sep {
            (done.push(cur), Seq::empty())
        } else {
            (done, cur.push(s[n - 1]))
        }
    }
}

/// `str::split` with a character: the pieces between the separators, one
/// more than there are separators.
pub open spec fn split_on(s: Seq<char>, sep: char) -> Seq<Seq<char>> {
    let (done, cur) = char_split_state(s, sep, s.len());
    done.push(cur)
}

/// The pieces trimmed, empty ones dropped.
pub open spec fn trimmed_nonempty(ps: Seq<Seq<char>>) -> Seq<Seq<char>>
    decreases ps.len(),
{
    if ps.len() == 0 {
        Seq::empty()
    } else {
        let rest = trimmed_nonempty(ps.drop_last());
        if trim(ps.last()).len() > 0 {
            rest.push(trim(ps.last()))
        } else {
            rest
        }
    }
}

/// Splits `s` at `sep`, trims each piece and drops the empty ones.
pub fn split_trimmed_nonempty(s: &str, sep: char) -> (r: Vec<String>)
    ensures
        views(r@) == trimmed_nonempty(split_on(s@, sep)),
{
    let v = chars_of(s);
    let mut kept: Vec<String> = Vec::new();
    let mut cur: Vec<char> = Vec::new();
    let mut i: usize = 0;
    while i < v.len()
        invariant
            v@ == s@,
            i <= v.len(),
            views(kept@) == trimmed_nonempty(char_split_state(v@, sep, i as nat).0),
            cur@ == char_split_state(v@, sep, i as nat).1,
        decreases v.len() - i,
    {
        if v[i] == sep {
            let ghost d = char_split_state(v@, sep, i as nat).0;
            assert(d.push(cur@).drop_last() =~= d);
            let t = trim_chars(&cur);
            if t.len() > 0 {
                let ghost before = kept@;
                kept.push(string_from_chars(&t));
                assert(views(kept@) =~= views(before).push(t@));
            }
            cur = Vec::new();
            assert(cur@ =~= Seq::<char>::empty());
        } else {
            cur.push(v[i]);
        }
        i = i + 1;
    }
    let ghost d = char_split_state(v@, sep, i as nat).0;
    assert(d.push(cur@).drop_last() =~= d);
    let t = trim_chars(&cur);
    if t.len() > 0 {
        let ghost before = kept@;
        kept.push(string_from_chars(&t));
        assert(views(kept@) =~= views(before).push(t@));
    }
    kept
}

/// The index of the first `c` in `s`.
pub open spec fn first_index(s: Seq<char>, c: char) -> int {
    if s.contains(c) {
        choose|i: int| 0 <= i < s.len() && s[i] == c && forall|j: int| 0 <= j < i ==> s[j] != c
    } else {
        -1
    }
}

/// The index of the first `c` in `v`, as `first_index` states it.
pub fn first_char_index(v: &Vec<char>, c: char) -> (r: Option<usize>)
    ensures
        match r {
            Some(i) => v@.contains(c) && i as int == first_index(v@, c) && i < v.len(),
            None => !v@.contains(c),
        },
{
    match find_char(v, c) {
        Some(i) => {
            assert(v@.contains(c)) by {
                assert(v@[i as int] == c);
            }
            let ghost f = first_index(v@, c);
            assert(f == i as int) by {
                if f < i as int {
                } else if f > i as int {
                }
            }
            Some(i)
        },
        None => None,
    }
}

/// The texts of a list of `str`s.
pub open spec fn str_views(v: Seq<&str>) -> Seq<Seq<char>> {
    v.map_values(|s: &str| s@)
}

/// `[&str]::join(sep)`.
pub fn join_strs(parts: &[&str], sep: &str) -> (r: String)
    ensures
        r@ == join(str_views(parts@), sep@),
{
    let mut r = String::new();
    let mut i: usize = 0;
    while i < parts.len()
        invariant
            i <= parts.len(),
            r@ == join(str_views(parts@.subrange(0, i as int)), sep@),
        decreases parts.len() - i,
    {
        let ghost before = parts@.subrange(0, i as int);
        if i > 0 {
            push_text(&mut r, sep);
        }
        push_text(&mut r, parts[i]);
        let ghost after = parts@.subrange(0, i + 1);
        assert(str_views(after).drop_last() =~= str_views(before));
        assert(str_views(after).last() == parts@[i as int]@);
        if i == 0 {
            assert(str_views(after) =~= seq![parts@[0]@]);
        }
        i = i + 1;
    }
    assert(parts@.subrange(0, parts.len() as int) =~= parts@);
    r
}

/// Whether `value` is one of `allowed`.
pub fn str_in(value: &str, allowed: &[&str]) -> (b: bool)
    ensures
        b == str_views(allowed@).contains(value@),
{
    let mut i: usize = 0;
    while i < allowed.len()
        invariant
            i <= allowed.len(),
            forall|j: int| 0 <= j < i ==> #[trigger] str_views(allowed@)[j] != value@,
        decreases allowed.len() - i,
    {
        if text_eq(allowed[i], value) {
            assert(str_views(allowed@)[i as int] == value@);
            return true;
        }
        i = i + 1;
    }
    false
}

/// Trimming the end of a text leaves one of its prefixes.
pub proof fn lemma_trim_end_by_prefix(s: Seq<char>, p: spec_fn(char) -> bool)
    ensures
        trim_end_by(s, p).len() <= s.len(),
        trim_end_by(s, p) == s.subrange(0, trim_end_by(s, p).len() as int),
    decreases s.len(),
{
    if s.len() > 0 && p(s.last()) {
        lemma_trim_end_by_prefix(s.drop_last(), p);
        let t = trim_end_by(s.drop_last(), p);
        assert(s.drop_last().subrange(0, t.len() as int) =~= s.subrange(0, t.len() as int));
    } else {
        assert(s.subrange(0, s.len() as int) =~= s);
    }
}

/// The first occurrence of a pattern is an occurrence, and none comes
/// before it.
pub proof fn lemma_first_occurrence(s: Seq<char>, needle: Seq<char>)
    ensures
        first_occurrence(s, needle) >= 0 ==> occurs_at(s, needle, first_occurrence(s, needle)),
        forall|j: int| 0 <= j < first_occurrence(s, needle) ==> !occurs_at(s, needle, j),
        first_occurrence(s, needle) == -1 ==> forall|j: int| !occurs_at(s, needle, j),
        first_occurrence(s, needle) >= -1,
{
    if exists|i: int| occurs_at(s, needle, i) {
        let w = choose|i: int| occurs_at(s, needle, i);
        // the least occurrence exists: search down from the witness
        lemma_least_occurrence(s, needle, w);
    }
}

/// Below an occurrence at `w` there is a least occurrence.
proof fn lemma_least_occurrence(s: Seq<char>, needle: Seq<char>, w: int)
    requires
        occurs_at(s, needle, w),
    ensures
        exists|i: int| occurs_at(s, needle, i) && forall|j: int| 0 <= j < i ==> !occurs_at(s, needle, j),
    decreases w,
{
    if exists|j: int| 0 <= j < w && occurs_at(s, needle, j) {
        let j = choose|j: int| 0 <= j < w && occurs_at(s, needle, j);
        lemma_least_occurrence(s, needle, j);
    } else {
        assert(forall|j: int| 0 <= j < w ==> !occurs_at(s, needle, j));
    }
}

/// Trimming trailing whitespace leaves a prefix.
pub proof fn lemma_trim_end_prefix(s: Seq<char>)
    ensures
        trim_end(s).len() <= s.len(),
        trim_end(s) == s.subrange(0, trim_end(s).len() as int),
{
    lemma_trim_end_by_prefix(s, |c: char| is_ws(c));
}

} // verus!
