//! Security commands: sort orders, Terraform resource types, and cleaning
//! of the documentation schema.
use vstd::prelude::*;

use crate::text::{
    chars_of, contains_seq, find_chars, first_occurrence, join, lemma_first_occurrence, lemma_trim_end_prefix, occurs_at, owned, push_text, slice_chars, string_from_chars, trim,
    trim_chars, trim_end, trim_end_chars, views,
};

verus! {

/// The sort orders of a security rule listing.
#[derive(Clone, Copy, Debug, PartialEq, Eq, Structural)]
pub enum SecurityMonitoringRuleSort {
    Name,
    NameDescending,
    CreationDate,
    CreationDateDescending,
    UpdateDate,
    UpdateDateDescending,
    Enabled,
    EnabledDescending,
    Type,
    TypeDescending,
    HighestSeverity,
    HighestSeverityDescending,
    Source,
    SourceDescending,
}

/// The rule sort order a `--sort` value names; unknown values sort by name.
pub open spec fn rule_sort_of(s: Seq<char>) -> SecurityMonitoringRuleSort {
    if s == "name"@ {
        SecurityMonitoringRuleSort::Name
    } else if s == "-name"@ {
        SecurityMonitoringRuleSort::NameDescending
    } else if s == "creation_date"@ {
        SecurityMonitoringRuleSort::CreationDate
    } else if s == "-creation_date"@ {
        SecurityMonitoringRuleSort::CreationDateDescending
    } else if s == "update_date"@ {
        SecurityMonitoringRuleSort::UpdateDate
    } else if s == "-update_date"@ {
        SecurityMonitoringRuleSort::UpdateDateDescending
    } else if s == "enabled"@ {
        SecurityMonitoringRuleSort::Enabled
    } else if s == "-enabled"@ {
        SecurityMonitoringRuleSort::EnabledDescending
    } else if s == "type"@ {
        SecurityMonitoringRuleSort::Type
    } else if s == "-type"@ {
        SecurityMonitoringRuleSort::TypeDescending
    } else if s == "highest_severity"@ {
        SecurityMonitoringRuleSort::HighestSeverity
    } else if s == "-highest_severity"@ {
        SecurityMonitoringRuleSort::HighestSeverityDescending
    } else if s == "source"@ {
        SecurityMonitoringRuleSort::Source
    } else if s == "-source"@ {
        SecurityMonitoringRuleSort::SourceDescending
    } else {
        SecurityMonitoringRuleSort::Name
    }
}

/// Parses the `--sort` value of `security rules list`.
pub fn parse_rule_sort(s: &str) -> (r: SecurityMonitoringRuleSort)
    ensures
        r == rule_sort_of(s@),
{
    if crate::text::text_eq(s, "name") {
        SecurityMonitoringRuleSort::Name
    } else if crate::text::text_eq(s, "-name") {
        SecurityMonitoringRuleSort::NameDescending
    } else if crate::text::text_eq(s, "creation_date") {
        SecurityMonitoringRuleSort::CreationDate
    } else if crate::text::text_eq(s, "-creation_date") {
        SecurityMonitoringRuleSort::CreationDateDescending
    } else if crate::text::text_eq(s, "update_date") {
        SecurityMonitoringRuleSort::UpdateDate
    } else if crate::text::text_eq(s, "-update_date") {
        SecurityMonitoringRuleSort::UpdateDateDescending
    } else if crate::text::text_eq(s, "enabled") {
        SecurityMonitoringRuleSort::Enabled
    } else if crate::text::text_eq(s, "-enabled") {
        SecurityMonitoringRuleSort::EnabledDescending
    } else if crate::text::text_eq(s, "type") {
        SecurityMonitoringRuleSort::Type
    } else if crate::text::text_eq(s, "-type") {
        SecurityMonitoringRuleSort::TypeDescending
    } else if crate::text::text_eq(s, "highest_severity") {
        SecurityMonitoringRuleSort::HighestSeverity
    } else if crate::text::text_eq(s, "-highest_severity") {
        SecurityMonitoringRuleSort::HighestSeverityDescending
    } else if crate::text::text_eq(s, "source") {
        SecurityMonitoringRuleSort::Source
    } else if crate::text::text_eq(s, "-source") {
        SecurityMonitoringRuleSort::SourceDescending
    } else {
        SecurityMonitoringRuleSort::Name
    }
}

/// The sort orders of a suppression listing.
#[derive(Clone, Copy, Debug, PartialEq, Eq, Structural)]
pub enum SecurityMonitoringSuppressionSort {
    Name,
    NameDescending,
    StartDate,
    StartDateDescending,
    ExpirationDate,
    ExpirationDateDescending,
    UpdateDate,
    UpdateDateDescending,
    CreationDateDescending,
    Enabled,
    EnabledDescending,
}

/// The suppression sort order a `--sort` value names; unknown values sort by
/// name.
pub open spec fn suppression_sort_of(s: Seq<char>) -> SecurityMonitoringSuppressionSort {
    if s == "name"@ {
        SecurityMonitoringSuppressionSort::Name
    } else if s == "-name"@ {
        SecurityMonitoringSuppressionSort::NameDescending
    } else if s == "start_date"@ {
        SecurityMonitoringSuppressionSort::StartDate
    } else if s == "-start_date"@ {
        SecurityMonitoringSuppressionSort::StartDateDescending
    } else if s == "expiration_date"@ {
        SecurityMonitoringSuppressionSort::ExpirationDate
    } else if s == "-expiration_date"@ {
        SecurityMonitoringSuppressionSort::ExpirationDateDescending
    } else if s == "update_date"@ {
        SecurityMonitoringSuppressionSort::UpdateDate
    } else if s == "-update_date"@ {
        SecurityMonitoringSuppressionSort::UpdateDateDescending
    } else if s == "-creation_date"@ {
        SecurityMonitoringSuppressionSort::CreationDateDescending
    } else if s == "enabled"@ {
        SecurityMonitoringSuppressionSort::Enabled
    } else if s == "-enabled"@ {
        SecurityMonitoringSuppressionSort::EnabledDescending
    } else {
        SecurityMonitoringSuppressionSort::Name
    }
}

/// Parses the `--sort` value of `security suppressions list`.
pub fn parse_suppression_sort(s: &str) -> (r: SecurityMonitoringSuppressionSort)
    ensures
        r == suppression_sort_of(s@),
{
    if crate::text::text_eq(s, "name") {
        SecurityMonitoringSuppressionSort::Name
    } else if crate::text::text_eq(s, "-name") {
        SecurityMonitoringSuppressionSort::NameDescending
    } else if crate::text::text_eq(s, "start_date") {
        SecurityMonitoringSuppressionSort::StartDate
    } else if crate::text::text_eq(s, "-start_date") {
        SecurityMonitoringSuppressionSort::StartDateDescending
    } else if crate::text::text_eq(s, "expiration_date") {
        SecurityMonitoringSuppressionSort::ExpirationDate
    } else if crate::text::text_eq(s, "-expiration_date") {
        SecurityMonitoringSuppressionSort::ExpirationDateDescending
    } else if crate::text::text_eq(s, "update_date") {
        SecurityMonitoringSuppressionSort::UpdateDate
    } else if crate::text::text_eq(s, "-update_date") {
        SecurityMonitoringSuppressionSort::UpdateDateDescending
    } else if crate::text::text_eq(s, "-creation_date") {
        SecurityMonitoringSuppressionSort::CreationDateDescending
    } else if crate::text::text_eq(s, "enabled") {
        SecurityMonitoringSuppressionSort::Enabled
    } else if crate::text::text_eq(s, "-enabled") {
        SecurityMonitoringSuppressionSort::EnabledDescending
    } else {
        SecurityMonitoringSuppressionSort::Name
    }
}

/// The resource types of a Terraform export.
#[derive(Clone, Copy, Debug, PartialEq, Eq, Structural)]
pub enum SecurityMonitoringTerraformResourceType {
    Suppressions,
    CriticalAssets,
}

/// Parses `--resource-type`: `suppressions` or `critical_assets`.
pub fn parse_terraform_resource_type(s: &str) -> (r: Result<SecurityMonitoringTerraformResourceType, String>)
    ensures
        match r {
            Ok(t) => (s@ == "suppressions"@ && t == SecurityMonitoringTerraformResourceType::Suppressions)
                || (s@ == "critical_assets"@ && t == SecurityMonitoringTerraformResourceType::CriticalAssets),
            Err(e) => s@ != "suppressions"@ && s@ != "critical_assets"@ && e@ == "invalid resource-type '"@
                + s@ + "' — use one of: suppressions, critical_assets"@,
        },
{
    if crate::text::text_eq(s, "suppressions") {
        Ok(SecurityMonitoringTerraformResourceType::Suppressions)
    } else if crate::text::text_eq(s, "critical_assets") {
        Ok(SecurityMonitoringTerraformResourceType::CriticalAssets)
    } else {
        let mut e = owned("invalid resource-type '");
        push_text(&mut e, s);
        push_text(&mut e, "' — use one of: suppressions, critical_assets");
        Err(e)
    }
}

// ---------------------------------------------------------------------------
// Documentation cleanup
// ---------------------------------------------------------------------------

/// A line without the `\r` of a `\r\n` ending.
pub open spec fn strip_cr(l: Seq<char>) -> Seq<char> {
    if l.len() > 0 && l.last() == '\r' {
        l.drop_last()
    } else {
        l
    }
}

/// The lines ended so far and the current line, after `n` characters.
pub open spec fn lines_state(s: Seq<char>, n: nat) -> (Seq<Seq<char>>, Seq<char>)
    decreases n,
{
    if n == 0 || n > s.len() {
        (Seq::empty(), Seq::empty())
    } else {
        let (done, cur) = lines_state(s, (n - 1) as nat);
        if s[n - 1] == '\n' {
            (done.push(strip_cr(cur)), Seq::empty())
        } else {
            (done, cur.push(s[n - 1]))
        }
    }
}

/// The lines of a text (`str::lines`): split at `\n` or `\r\n`; the last
/// line ending is optional, so a text ending in a line break has no empty
/// last line.
pub open spec fn lines_spec(s: Seq<char>) -> Seq<Seq<char>> {
    let (done, cur) = lines_state(s, s.len());
    if cur.len() > 0 {
        done.push(cur)
    } else {
        done
    }
}

/// `pat` starts `s`.
pub open spec fn starts_with(s: Seq<char>, pat: Seq<char>) -> bool {
    pat.len() <= s.len() && s.subrange(0, pat.len() as int) == pat
}

/// `pat` ends `s`.
pub open spec fn ends_with(s: Seq<char>, pat: Seq<char>) -> bool {
    pat.len() <= s.len() && s.subrange(s.len() - pat.len(), s.len() as int) == pat
}

/// What is kept of one line: nothing for a line that is only a template
/// directive; the text before an inline directive (trailing space removed,
/// nothing if that is empty); the line itself otherwise.
pub open spec fn kept_line(l: Seq<char>) -> Option<Seq<char>> {
    let t = trim(l);
    if starts_with(t, seq!['{', '%']) && ends_with(t, seq!['%', '}']) {
        None
    } else if first_occurrence(l, seq!['{', '%']) >= 0 {
        let cleaned = trim_end(l.subrange(0, first_occurrence(l, seq!['{', '%'])));
        if cleaned.len() > 0 {
            Some(cleaned)
        } else {
            None
        }
    } else {
        Some(l)
    }
}

/// No line kept from the documentation holds the start of a directive.
pub proof fn lemma_kept_line_clean(l: Seq<char>)
    ensures
        match kept_line(l) {
            Some(k) => !contains_seq(k, seq!['{', '%']),
            None => true,
        },
{
    let pat = seq!['{', '%'];
    lemma_first_occurrence(l, pat);
    let f = first_occurrence(l, pat);
    if f >= 0 {
        let head = l.subrange(0, f);
        lemma_trim_end_prefix(head);
        let cleaned = trim_end(head);
        assert forall|i: int| !occurs_at(cleaned, pat, i) by {
            if occurs_at(cleaned, pat, i) {
                assert(cleaned.subrange(i, i + 2) =~= l.subrange(i, i + 2));
                assert(occurs_at(l, pat, i));
            }
        }
    }
}

/// The kept parts of the first `n` lines.
pub open spec fn kept_lines(ls: Seq<Seq<char>>, n: nat) -> Seq<Seq<char>>
    decreases n,
{
    if n == 0 || n > ls.len() {
        Seq::empty()
    } else {
        match kept_line(ls[n - 1]) {
            Some(k) => kept_lines(ls, (n - 1) as nat).push(k),
            None => kept_lines(ls, (n - 1) as nat),
        }
    }
}

/// Every line left after removing directives is free of `{%`.
pub proof fn law_stripped_lines_have_no_directive(s: Seq<char>)
    ensures
        forall|i: int|
            0 <= i < kept_lines(lines_spec(s), lines_spec(s).len()).len() ==> !contains_seq(
                #[trigger] kept_lines(lines_spec(s), lines_spec(s).len())[i],
                seq!['{', '%'],
            ),
{
    let ls = lines_spec(s);
    lemma_kept_lines_clean(ls, ls.len());
}

/// The kept lines of the first `n` lines are free of `{%`.
proof fn lemma_kept_lines_clean(ls: Seq<Seq<char>>, n: nat)
    ensures
        forall|i: int|
            0 <= i < kept_lines(ls, n).len() ==> !contains_seq(#[trigger] kept_lines(ls, n)[i], seq!['{', '%']),
    decreases n,
{
    if n > 0 && n <= ls.len() {
        lemma_kept_lines_clean(ls, (n - 1) as nat);
        lemma_kept_line_clean(ls[n - 1]);
        let prev = kept_lines(ls, (n - 1) as nat);
        match kept_line(ls[n - 1]) {
            Some(k) => {
                assert forall|i: int| 0 <= i < prev.push(k).len() implies !contains_seq(
                    #[trigger] prev.push(k)[i],
                    seq!['{', '%'],
                ) by {
                    if i < prev.len() {
                        assert(prev.push(k)[i] == prev[i]);
                    }
                }
            },
            None => {},
        }
    }
}

/// The text with template directives removed, lines joined by `\n`.
pub open spec fn strip_directives_spec(s: Seq<char>) -> Seq<char> {
    let ls = lines_spec(s);
    join(kept_lines(ls, ls.len()), seq!['\n'])
}

/// The lines of a text.
fn split_lines(v: &Vec<char>) -> (r: Vec<Vec<char>>)
    ensures
        r@.map_values(|l: Vec<char>| l@) == lines_spec(v@),
{
    let mut done: Vec<Vec<char>> = Vec::new();
    let mut cur: Vec<char> = Vec::new();
    let mut i: usize = 0;
    while i < v.len()
        invariant
            i <= v.len(),
            lines_state(v@, i as nat) == (done@.map_values(|l: Vec<char>| l@), cur@),
        decreases v.len() - i,
    {
        if v[i] == '\n' {
            let line = if cur.len() > 0 && cur[cur.len() - 1] == '\r' {
                slice_chars(&cur, 0, cur.len() - 1)
            } else {
                slice_chars(&cur, 0, cur.len())
            };
            assert(cur@.subrange(0, cur.len() as int) =~= cur@);
            assert(cur@.len() > 0 ==> cur@.subrange(0, cur.len() - 1) =~= cur@.drop_last());
            let ghost before = done@;
            done.push(line);
            assert(done@.map_values(|l: Vec<char>| l@) =~= before.map_values(|l: Vec<char>| l@).push(
                line@,
            ));
            cur = Vec::new();
            assert(cur@ =~= Seq::<char>::empty());
        } else {
            cur.push(v[i]);
        }
        i = i + 1;
    }
    if cur.len() > 0 {
        let ghost before = done@;
        done.push(cur);
        assert(done@.map_values(|l: Vec<char>| l@) =~= before.map_values(|l: Vec<char>| l@).push(
            cur@,
        ));
    }
    done
}

/// The first position of `{%` in `v`.
fn find_directive(v: &Vec<char>) -> (r: Option<usize>)
    ensures
        match r {
            Some(p) => p <= v.len() && first_occurrence(v@, seq!['{', '%']) == p as int,
            None => first_occurrence(v@, seq!['{', '%']) == -1,
        },
{
    let mut pat: Vec<char> = Vec::new();
    pat.push('{');
    pat.push('%');
    assert(pat@ =~= seq!['{', '%']);
    find_chars(v, &pat)
}

/// Whether a trimmed line is a template directive and nothing else.
fn is_directive_line(t: &Vec<char>) -> (b: bool)
    ensures
        b == (starts_with(t@, seq!['{', '%']) && ends_with(t@, seq!['%', '}'])),
{
    let n = t.len();
    if n < 2 {
        return false;
    }
    let b = t[0] == '{' && t[1] == '%' && t[n - 2] == '%' && t[n - 1] == '}';
    let ghost head = t@.subrange(0, 2);
    let ghost tail = t@.subrange(n - 2, n as int);
    assert(head[0] == t@[0] && head[1] == t@[1]);
    assert(tail[0] == t@[n - 2] && tail[1] == t@[n - 1]);
    if b {
        assert(head =~= seq!['{', '%']);
        assert(tail =~= seq!['%', '}']);
    } else {
        assert(!(head == seq!['{', '%'] && tail == seq!['%', '}']));
    }
    b
}

/// The text of a line before its first inline directive, trailing space
/// removed, if anything is left.
fn cut_at_directive(l: &Vec<char>, p: usize) -> (r: Option<Vec<char>>)
    requires
        p <= l.len(),
    ensures
        match r {
            Some(k) => k@ == trim_end(l@.subrange(0, p as int)) && k@.len() > 0,
            None => trim_end(l@.subrange(0, p as int)).len() == 0,
        },
{
    let head = slice_chars(l, 0, p);
    let cleaned = trim_end_chars(&head);
    if cleaned.len() > 0 {
        Some(cleaned)
    } else {
        None
    }
}

/// What is kept of one line.
fn keep_line(l: &Vec<char>) -> (r: Option<Vec<char>>)
    ensures
        match r {
            Some(k) => kept_line(l@) == Some(k@),
            None => kept_line(l@).is_none(),
        },
{
    let t = trim_chars(l);
    if is_directive_line(&t) {
        return None;
    }
    match find_directive(l) {
        Some(p) => cut_at_directive(l, p),
        None => Some(slice_chars(l, 0, l.len())),
    }
}

/// Removes template directives such as `{% collapsible-section %}`,
/// `{% /callout %}` or `{% tab %}`: lines that are only a directive are
/// dropped, text after an inline directive is cut, and lines left empty by
/// that are dropped.
pub fn strip_template_directives(input: &str) -> (r: String)
    ensures
        r@ == strip_directives_spec(input@),
{
    let v = chars_of(input);
    let ls = split_lines(&v);
    let ghost lv = ls@.map_values(|l: Vec<char>| l@);
    let mut kept: Vec<String> = Vec::new();
    let mut i: usize = 0;
    while i < ls.len()
        invariant
            lv.len() == ls.len(),
            forall|j: int| 0 <= j < ls.len() ==> #[trigger] lv[j] == ls@[j]@,
            i <= ls.len(),
            views(kept@) == kept_lines(lv, i as nat),
        decreases ls.len() - i,
    {
        let kl = keep_line(&ls[i]);
        let ghost before = kept@;
        proof {
            assert(lv[i as int] == ls@[i as int]@);
            assert(kept_lines(lv, (i + 1) as nat) == match kept_line(lv[i as int]) {
                Some(k) => kept_lines(lv, i as nat).push(k),
                None => kept_lines(lv, i as nat),
            });
        }
        match kl {
            Some(k) => {
                let ks = string_from_chars(&k);
                kept.push(ks);
                assert(views(kept@) =~= views(before).push(k@));
            },
            None => {},
        }
        i = i + 1;
    }
    let r = crate::text::join_strings(&kept, "\n");
    proof {
        reveal_strlit("\n");
    }
    assert("\n"@ =~= seq!['\n']);
    r
}

/// The heading where the findings schema starts on its documentation page.
pub const SCHEMA_SECTION_MARKER: &'static str = "## Schema Reference";

/// The heading of the section that follows the schema on that page.
pub const FURTHER_READING_MARKER: &'static str = "## Further reading";

/// The line appended to the schema to name its source.
pub const SCHEMA_ATTRIBUTION: &'static str = "\n\n---\n*This schema was fetched from Datadog public documentation.*\n";

/// The schema part of a page: from the schema heading on, up to the
/// "Further reading" heading (trailing space removed) where there is one.
pub open spec fn schema_part(body: Seq<char>) -> Seq<char> {
    let sec = body.subrange(first_occurrence(body, SCHEMA_SECTION_MARKER@), body.len() as int);
    let f = first_occurrence(sec, FURTHER_READING_MARKER@);
    if f >= 0 {
        trim_end(sec.subrange(0, f))
    } else {
        sec
    }
}

/// What the schema command shows for a fetched page, or why the page does
/// not hold a schema.
pub open spec fn schema_from_page_spec(body: Seq<char>) -> Result<Seq<char>, Seq<char>> {
    if first_occurrence(body, SCHEMA_SECTION_MARKER@) < 0 {
        Err(
            "schema page did not contain expected section '"@ + SCHEMA_SECTION_MARKER@ + "'"@,
        )
    } else {
        Ok(strip_directives_spec(schema_part(body)) + SCHEMA_ATTRIBUTION@)
    }
}

/// Extracts the schema reference from the documentation page `body`: the
/// text from the schema heading up to the "Further reading" heading, with
/// template directives removed and the source attribution appended.
pub fn schema_from_page(body: &str) -> (r: Result<String, String>)
    ensures
        r.is_ok() == (first_occurrence(body@, SCHEMA_SECTION_MARKER@) >= 0),
        match r {
            Ok(s) => schema_from_page_spec(body@) == Ok::<Seq<char>, Seq<char>>(s@),
            Err(e) => schema_from_page_spec(body@) == Err::<Seq<char>, Seq<char>>(e@),
        },
{
    let v = chars_of(body);
    let marker = chars_of(SCHEMA_SECTION_MARKER);
    match find_chars(&v, &marker) {
        None => {
            let mut e = owned("schema page did not contain expected section '");
            push_text(&mut e, SCHEMA_SECTION_MARKER);
            push_text(&mut e, "'");
            Err(e)
        },
        Some(m) => {
            let sec = slice_chars(&v, m, v.len());
            let further = chars_of(FURTHER_READING_MARKER);
            let part = match find_chars(&sec, &further) {
                Some(f) => trim_end_chars(&slice_chars(&sec, 0, f)),
                None => sec,
            };
            let part_text = string_from_chars(&part);
            let mut cleaned = strip_template_directives(part_text.as_str());
            push_text(&mut cleaned, SCHEMA_ATTRIBUTION);
            Ok(cleaned)
        },
    }
}

/// The sort orders of a signal search.
#[derive(PartialEq, Eq, Structural, Clone, Copy, Debug)]
pub enum SecurityMonitoringSignalsSort {
    TimestampAscending,
    TimestampDescending,
}

/// The signal sort order that a `--sort` value names (newest first when
/// none is given), or the error shown.
pub open spec fn signals_sort_spec(sort: Option<Seq<char>>) -> Result<SecurityMonitoringSignalsSort, Seq<char>> {
    let s = match sort {
        Some(s) => s,
        None => "-timestamp"@,
    };
    if s == "timestamp"@ || s == "asc"@ {
        Ok(SecurityMonitoringSignalsSort::TimestampAscending)
    } else if s == "-timestamp"@ || s == "desc"@ {
        Ok(SecurityMonitoringSignalsSort::TimestampDescending)
    } else {
        Err(
            "invalid --sort value: "@ + crate::text::debug_text(s)
                + "\nExpected: timestamp (ascending) or -timestamp (descending)"@,
        )
    }
}

/// Parses the `--sort` value of a signal search.
pub fn parse_signals_sort(sort: Option<&str>) -> (r: Result<SecurityMonitoringSignalsSort, String>)
    ensures
        match r {
            Ok(x) => signals_sort_spec(match sort {
                Some(s) => Some(s@),
                None => None,
            }) == Ok::<SecurityMonitoringSignalsSort, Seq<char>>(x),
            Err(e) => signals_sort_spec(match sort {
                Some(s) => Some(s@),
                None => None,
            }) == Err::<SecurityMonitoringSignalsSort, Seq<char>>(e@),
        },
{
    let s: &str = match sort {
        Some(s) => s,
        None => "-timestamp",
    };
    if crate::text::text_eq(s, "timestamp") || crate::text::text_eq(s, "asc") {
        Ok(SecurityMonitoringSignalsSort::TimestampAscending)
    } else if crate::text::text_eq(s, "-timestamp") || crate::text::text_eq(s, "desc") {
        Ok(SecurityMonitoringSignalsSort::TimestampDescending)
    } else {
        let mut e = owned("invalid --sort value: ");
        let q = crate::text::debug_quoted(s);
        push_text(&mut e, q.as_str());
        push_text(&mut e, "\nExpected: timestamp (ascending) or -timestamp (descending)");
        Err(e)
    }
}

// ---------------------------------------------------------------------------
// Findings analysis
// ---------------------------------------------------------------------------

/// The warning shown before running a findings query that does not read
/// `dd.security_findings()`.
pub const FINDINGS_QUERY_WARNING: &'static str = "Warning: query doesn't use dd.security_findings(). Did you mean to use `pup ddsql table`?";

/// Whether a findings query reads the findings table, or else the warning.
pub fn findings_query_warning(query: &str) -> (r: Option<&'static str>)
    ensures
        match r {
            Some(w) => !contains_seq(query@, "dd.security_findings"@) && w@ == FINDINGS_QUERY_WARNING@,
            None => contains_seq(query@, "dd.security_findings"@),
        },
{
    if crate::text::contains_text(query, "dd.security_findings") {
        None
    } else {
        Some(FINDINGS_QUERY_WARNING)
    }
}

/// The guidance printed under an invalid query.
pub const INVALID_QUERY_HELP: [&'static str; 10] = [
    "Error: Invalid query. Check that:",
    "  - Column names in ARRAY use @ prefix (e.g., @severity, not severity)",
    "  - AS clause types are valid (VARCHAR, BIGINT, DECIMAL, BOOLEAN, TIMESTAMP)",
    "  - Column count in ARRAY matches the AS clause",
    "  - Field names are valid — common fields:",
    "      @severity  @status  @finding_type  @rule.name  @title",
    "      @resource_name  @resource_type  @compliance.evaluation",
    "      @severity_details.adjusted.score  @risk.is_production",
    "  - Run `pup security findings schema` for the full field reference",
    "",
];

/// The hint printed under any other failure.
pub const SCHEMA_HINT: &'static str = "Hint: run `pup security findings schema` to see available fields and types.";

/// The lines printed to standard error when a findings query fails with
/// `msg`: for a rejected query (`400` or `Bad Request` in the message) the
/// query guidance and the raw error, otherwise a pointer to the schema.
pub open spec fn findings_failure_spec(msg: Seq<char>) -> Seq<Seq<char>> {
    if contains_seq(msg, "400"@) || contains_seq(msg, "Bad Request"@) {
        crate::text::str_views(INVALID_QUERY_HELP@).push("Raw API error: "@ + msg)
    } else {
        seq![SCHEMA_HINT@]
    }
}

/// The explanation of a failed findings query.
pub fn findings_failure_lines(msg: &str) -> (r: Vec<String>)
    ensures
        views(r@) == findings_failure_spec(msg@),
{
    let mut lines: Vec<String> = Vec::new();
    if crate::text::contains_text(msg, "400") || crate::text::contains_text(msg, "Bad Request") {
        let mut i: usize = 0;
        while i < INVALID_QUERY_HELP.len()
            invariant
                i <= INVALID_QUERY_HELP@.len(),
                views(lines@) == crate::text::str_views(INVALID_QUERY_HELP@).subrange(0, i as int),
            decreases INVALID_QUERY_HELP@.len() - i,
        {
            let ghost before = lines@;
            lines.push(owned(INVALID_QUERY_HELP[i]));
            assert(views(lines@) =~= views(before).push(INVALID_QUERY_HELP@[i as int]@));
            assert(crate::text::str_views(INVALID_QUERY_HELP@).subrange(0, i + 1) =~= crate::text::str_views(
                INVALID_QUERY_HELP@,
            ).subrange(0, i as int).push(INVALID_QUERY_HELP@[i as int]@));
            i = i + 1;
        }
        assert(crate::text::str_views(INVALID_QUERY_HELP@).subrange(0, INVALID_QUERY_HELP@.len() as int)
            =~= crate::text::str_views(INVALID_QUERY_HELP@));
        let mut raw = owned("Raw API error: ");
        push_text(&mut raw, msg);
        let ghost before = lines@;
        lines.push(raw);
        assert(views(lines@) =~= views(before).push(raw@));
    } else {
        lines.push(owned(SCHEMA_HINT));
        assert(views(lines@) =~= seq![SCHEMA_HINT@]);
    }
    lines
}

} // verus!
