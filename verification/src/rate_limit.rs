//! Datadog `X-RateLimit-*` response headers and readable reporting of HTTP
//! 429 (rate-limited) failures.
//!
//! The most recently captured headers and the `--verbose` flag live in a
//! `RateLimitState` that the caller owns and hands to these functions.
use vstd::prelude::*;

use crate::formatter::{format_value_to_string, OutputFormat};
use crate::json::{entries_view, lemma_entries_view, Json, JsonValue};
use crate::text::{
    ascii_lower, ascii_lowercase_chars, chars_eq, chars_of, contains_chars, contains_seq, join,
    owned, push_text, views,
};

verus! {

/// Process exit code for HTTP 429 rate-limit failures.
///
/// On Unix the value is truncated to eight bits (`429 % 256 == 173`); check
/// stderr for the HTTP status and rate-limit rule when scripting.
pub const EXIT_RATE_LIMITED: i32 = 429;

/// Parsed Datadog rate-limit response headers.
#[derive(Debug)]
pub struct RateLimitInfo {
    pub name: Option<String>,
    pub limit: Option<String>,
    pub remaining: Option<String>,
    pub reset: Option<String>,
    pub period: Option<String>,
}

/// The model of rate-limit headers: each field's text, when present.
pub struct RateLimitModel {
    pub name: Option<Seq<char>>,
    pub limit: Option<Seq<char>>,
    pub remaining: Option<Seq<char>>,
    pub reset: Option<Seq<char>>,
    pub period: Option<Seq<char>>,
}

/// The text of an optional string.
pub open spec fn opt_view(o: Option<String>) -> Option<Seq<char>> {
    match o {
        Some(s) => Some(s@),
        None => None,
    }
}

impl View for RateLimitInfo {
    type V = RateLimitModel;

    open spec fn view(&self) -> RateLimitModel {
        RateLimitModel {
            name: opt_view(self.name),
            limit: opt_view(self.limit),
            remaining: opt_view(self.remaining),
            reset: opt_view(self.reset),
            period: opt_view(self.period),
        }
    }
}

/// The model of possibly captured headers.
pub open spec fn info_view(o: Option<RateLimitInfo>) -> Option<RateLimitModel> {
    match o {
        Some(i) => Some(i@),
        None => None,
    }
}

/// No header was captured.
pub open spec fn model_is_empty(m: RateLimitModel) -> bool {
    m.name is None && m.limit is None && m.remaining is None && m.reset is None && m.period is None
}

/// `label: value` indented by two spaces, when the value is present.
pub open spec fn detail_line(label: Seq<char>, v: Option<Seq<char>>) -> Seq<Seq<char>> {
    match v {
        Some(x) => seq![seq![' ', ' '] + label + seq![':', ' '] + x],
        None => Seq::empty(),
    }
}

/// The lines printed for captured headers: a title, then the rule, limit,
/// remaining, period and reset lines for the fields present.
pub open spec fn format_lines_spec(m: RateLimitModel) -> Seq<char> {
    join(
        seq!["Rate limit details:"@] + detail_line("rule"@, m.name) + detail_line("limit"@, m.limit)
            + detail_line("remaining"@, m.remaining) + detail_line("period"@, m.period)
            + detail_line("reset"@, m.reset),
        seq!['\n'],
    )
}

/// The entry for a field, when present.
pub open spec fn field_entry(key: Seq<char>, v: Option<Seq<char>>) -> Seq<(Seq<char>, Json)> {
    match v {
        Some(x) => seq![(key, Json::Str(x))],
        None => Seq::empty(),
    }
}

/// The JSON object of captured headers: `name`, `limit`, `remaining`,
/// `period` and `reset`, for the fields present, in that order.
pub open spec fn to_json_spec(m: RateLimitModel) -> Json {
    Json::Object(
        field_entry("name"@, m.name) + field_entry("limit"@, m.limit) + field_entry(
            "remaining"@,
            m.remaining,
        ) + field_entry("period"@, m.period) + field_entry("reset"@, m.reset),
    )
}

/// A captured header's value as JSON: its text, or `null` when absent.
pub open spec fn str_or_null(v: Option<Seq<char>>) -> Json {
    match v {
        Some(x) => Json::Str(x),
        None => Json::Null,
    }
}

/// Looking a key up in the entry of one captured field.
proof fn lemma_field_entry_lookup(key: Seq<char>, v: Option<Seq<char>>, k: Seq<char>)
    ensures
        crate::json::lookup(field_entry(key, v), k) == if key == k && v is Some {
            Some(Json::Str(v->0))
        } else {
            None::<Json>
        },
{
    match v {
        Some(x) => crate::json::lemma_lookup_single(key, Json::Str(x), k),
        None => {},
    }
}

/// The lookups that the report's layout gives for one key.
proof fn lemma_report_lookup(
    a: Seq<(Seq<char>, Json)>,
    b: Seq<(Seq<char>, Json)>,
    c: Seq<(Seq<char>, Json)>,
    d: Seq<(Seq<char>, Json)>,
    f: Seq<(Seq<char>, Json)>,
    m: RateLimitModel,
    k: Seq<char>,
)
    requires
        a == field_entry("name"@, m.name),
        b == field_entry("limit"@, m.limit),
        c == field_entry("remaining"@, m.remaining),
        d == field_entry("period"@, m.period),
        f == field_entry("reset"@, m.reset),
    ensures
        crate::json::lookup(a + b + c + d + f, k) == match crate::json::lookup(f, k) {
            Some(x) => Some(x),
            None => match crate::json::lookup(d, k) {
                Some(x) => Some(x),
                None => match crate::json::lookup(c, k) {
                    Some(x) => Some(x),
                    None => match crate::json::lookup(b, k) {
                        Some(x) => Some(x),
                        None => crate::json::lookup(a, k),
                    },
                },
            },
        },
        crate::json::lookup(a, k) == if "name"@ == k && m.name is Some {
            Some(Json::Str(m.name->0))
        } else {
            None::<Json>
        },
        crate::json::lookup(b, k) == if "limit"@ == k && m.limit is Some {
            Some(Json::Str(m.limit->0))
        } else {
            None::<Json>
        },
        crate::json::lookup(c, k) == if "remaining"@ == k && m.remaining is Some {
            Some(Json::Str(m.remaining->0))
        } else {
            None::<Json>
        },
        crate::json::lookup(d, k) == if "period"@ == k && m.period is Some {
            Some(Json::Str(m.period->0))
        } else {
            None::<Json>
        },
        crate::json::lookup(f, k) == if "reset"@ == k && m.reset is Some {
            Some(Json::Str(m.reset->0))
        } else {
            None::<Json>
        },
{
    crate::json::lemma_lookup_append(a + b + c + d, f, k);
    crate::json::lemma_lookup_append(a + b + c, d, k);
    crate::json::lemma_lookup_append(a + b, c, k);
    crate::json::lemma_lookup_append(a, b, k);
    lemma_field_entry_lookup("name"@, m.name, k);
    lemma_field_entry_lookup("limit"@, m.limit, k);
    lemma_field_entry_lookup("remaining"@, m.remaining, k);
    lemma_field_entry_lookup("period"@, m.period, k);
    lemma_field_entry_lookup("reset"@, m.reset, k);
}

/// In the JSON report of captured headers, each key carries its own
/// header's value: `name`, `limit`, `remaining`, `period` and `reset` are
/// the captured values of those headers, `null` where one was not captured.
pub proof fn law_report_keys_carry_their_headers(m: RateLimitModel)
    ensures
        crate::json::member(to_json_spec(m), "name"@) == str_or_null(m.name),
        crate::json::member(to_json_spec(m), "limit"@) == str_or_null(m.limit),
        crate::json::member(to_json_spec(m), "remaining"@) == str_or_null(m.remaining),
        crate::json::member(to_json_spec(m), "period"@) == str_or_null(m.period),
        crate::json::member(to_json_spec(m), "reset"@) == str_or_null(m.reset),
{
    reveal_strlit("name");
    reveal_strlit("limit");
    reveal_strlit("remaining");
    reveal_strlit("period");
    reveal_strlit("reset");
    assert("name"@.len() == 4 && "limit"@.len() == 5 && "remaining"@.len() == 9);
    assert("period"@.len() == 6 && "reset"@.len() == 5);
    assert("limit"@ != "reset"@) by {
        assert("limit"@[0] != "reset"@[0]);
    }
    let a = field_entry("name"@, m.name);
    let b = field_entry("limit"@, m.limit);
    let c = field_entry("remaining"@, m.remaining);
    let d = field_entry("period"@, m.period);
    let f = field_entry("reset"@, m.reset);
    assert(to_json_spec(m)->Object_0 == a + b + c + d + f);
    lemma_report_lookup(a, b, c, d, f, m, "name"@);
    lemma_report_lookup(a, b, c, d, f, m, "limit"@);
    lemma_report_lookup(a, b, c, d, f, m, "remaining"@);
    lemma_report_lookup(a, b, c, d, f, m, "period"@);
    lemma_report_lookup(a, b, c, d, f, m, "reset"@);
}

/// A copy of an optional string.
fn copy_opt(o: &Option<String>) -> (r: Option<String>)
    ensures
        opt_view(r) == opt_view(*o),
{
    match o {
        Some(s) => Some(s.clone()),
        None => None,
    }
}

/// Appends `label: value` on a new line when the value is present.
fn push_detail(lines: &mut Vec<String>, label: &str, v: &Option<String>)
    ensures
        views(final(lines)@) == views(old(lines)@) + detail_line(label@, opt_view(*v)),
{
    if let Some(x) = v {
        let mut l = owned("  ");
        push_text(&mut l, label);
        push_text(&mut l, ": ");
        push_text(&mut l, x.as_str());
        proof {
            reveal_strlit("  ");
            reveal_strlit(": ");
        }
        assert("  "@ =~= seq![' ', ' ']);
        assert(": "@ =~= seq![':', ' ']);
        assert(l@ =~= seq![' ', ' '] + label@ + seq![':', ' '] + x@);
        let ghost before = lines@;
        lines.push(l);
        assert(views(lines@) =~= views(before) + detail_line(label@, opt_view(*v)));
    } else {
        assert(views(lines@) =~= views(lines@) + detail_line(label@, opt_view(*v)));
    }
}

/// Appends the entry for a field when present.
fn push_field(e: &mut Vec<(String, JsonValue)>, key: &str, v: &Option<String>)
    ensures
        entries_view(final(e)@) == entries_view(old(e)@) + field_entry(key@, opt_view(*v)),
{
    proof {
        lemma_entries_view(e@);
    }
    let ghost before = e@;
    if let Some(x) = v {
        e.push((owned(key), JsonValue::String(x.clone())));
    }
    proof {
        lemma_entries_view(e@);
    }
    assert(entries_view(e@) =~= entries_view(before) + field_entry(key@, opt_view(*v)));
}

impl RateLimitInfo {
    /// No header at all.
    pub fn new() -> (r: RateLimitInfo)
        ensures
            model_is_empty(r@),
    {
        RateLimitInfo { name: None, limit: None, remaining: None, reset: None, period: None }
    }

    /// A copy of these headers.
    pub fn copy(&self) -> (r: RateLimitInfo)
        ensures
            r@ == self@,
    {
        RateLimitInfo {
            name: copy_opt(&self.name),
            limit: copy_opt(&self.limit),
            remaining: copy_opt(&self.remaining),
            reset: copy_opt(&self.reset),
            period: copy_opt(&self.period),
        }
    }

    /// True when no rate-limit header was captured.
    pub fn is_empty(&self) -> (r: bool)
        ensures
            r == model_is_empty(self@),
    {
        self.name.is_none() && self.limit.is_none() && self.remaining.is_none()
            && self.reset.is_none() && self.period.is_none()
    }

    /// Human-readable, indented detail lines for stderr.
    pub fn format_lines(&self) -> (r: String)
        ensures
            r@ == format_lines_spec(self@),
    {
        let mut lines: Vec<String> = Vec::new();
        lines.push(owned("Rate limit details:"));
        assert(views(lines@) =~= seq!["Rate limit details:"@]);
        push_detail(&mut lines, "rule", &self.name);
        push_detail(&mut lines, "limit", &self.limit);
        push_detail(&mut lines, "remaining", &self.remaining);
        push_detail(&mut lines, "period", &self.period);
        push_detail(&mut lines, "reset", &self.reset);
        let r = crate::text::join_strings(&lines, "\n");
        proof {
            reveal_strlit("\n");
        }
        assert("\n"@ =~= seq!['\n']);
        r
    }

    /// The captured headers as a JSON object.
    pub fn to_json_value(&self) -> (r: JsonValue)
        ensures
            r@ == to_json_spec(self@),
            crate::json::member(r@, "name"@) == str_or_null(opt_view(self.name)),
            crate::json::member(r@, "limit"@) == str_or_null(opt_view(self.limit)),
            crate::json::member(r@, "remaining"@) == str_or_null(opt_view(self.remaining)),
            crate::json::member(r@, "period"@) == str_or_null(opt_view(self.period)),
            crate::json::member(r@, "reset"@) == str_or_null(opt_view(self.reset)),
    {
        proof {
            law_report_keys_carry_their_headers(self@);
        }
        let mut e: Vec<(String, JsonValue)> = Vec::new();
        proof {
            lemma_entries_view(e@);
        }
        assert(entries_view(e@) =~= Seq::<(Seq<char>, Json)>::empty());
        push_field(&mut e, "name", &self.name);
        push_field(&mut e, "limit", &self.limit);
        push_field(&mut e, "remaining", &self.remaining);
        push_field(&mut e, "period", &self.period);
        push_field(&mut e, "reset", &self.reset);
        proof {
            crate::json::lemma_object_view(e);
        }
        assert(entries_view(e@) =~= to_json_spec(self@)->Object_0);
        JsonValue::Object(e)
    }
}

// ---------------------------------------------------------------------------
// Headers
// ---------------------------------------------------------------------------

/// The model with the header `name: value` applied: the five Datadog
/// headers (matched without regard to ASCII case) set their field; any other
/// header, and a value that is not text, change nothing.
pub open spec fn apply_header(m: RateLimitModel, name: Seq<char>, value: Option<Seq<char>>)
    -> RateLimitModel {
    let n = ascii_lower(name);
    match value {
        None => m,
        Some(v) => if n == "x-ratelimit-name"@ {
            RateLimitModel { name: Some(v), ..m }
        } else if n == "x-ratelimit-limit"@ {
            RateLimitModel { limit: Some(v), ..m }
        } else if n == "x-ratelimit-remaining"@ {
            RateLimitModel { remaining: Some(v), ..m }
        } else if n == "x-ratelimit-reset"@ {
            RateLimitModel { reset: Some(v), ..m }
        } else if n == "x-ratelimit-period"@ {
            RateLimitModel { period: Some(v), ..m }
        } else {
            m
        },
    }
}

/// The model after the first `n` headers.
pub open spec fn headers_model(h: Seq<(Seq<char>, Option<Seq<char>>)>, n: nat) -> RateLimitModel
    decreases n,
{
    if n == 0 || n > h.len() {
        RateLimitModel { name: None, limit: None, remaining: None, reset: None, period: None }
    } else {
        apply_header(headers_model(h, (n - 1) as nat), h[n - 1].0, h[n - 1].1)
    }
}

/// The value of the last of the first `n` headers whose name, in ASCII
/// lowercase, is `key` and whose value is text.
pub open spec fn last_header(h: Seq<(Seq<char>, Option<Seq<char>>)>, n: nat, key: Seq<char>) -> Option<Seq<char>>
    decreases n,
{
    if n == 0 || n > h.len() {
        None
    } else if ascii_lower(h[n - 1].0) == key && h[n - 1].1 is Some {
        h[n - 1].1
    } else {
        last_header(h, (n - 1) as nat, key)
    }
}

/// Each captured field comes from its own header: the name, limit,
/// remaining count, reset and period are the values of the last
/// `X-RateLimit-Name`, `-Limit`, `-Remaining`, `-Reset` and `-Period`
/// header (names compared ignoring ASCII case), absent when there is none.
pub proof fn law_each_field_from_its_header(h: Seq<(Seq<char>, Option<Seq<char>>)>, n: nat)
    ensures
        headers_model(h, n).name == last_header(h, n, "x-ratelimit-name"@),
        headers_model(h, n).limit == last_header(h, n, "x-ratelimit-limit"@),
        headers_model(h, n).remaining == last_header(h, n, "x-ratelimit-remaining"@),
        headers_model(h, n).reset == last_header(h, n, "x-ratelimit-reset"@),
        headers_model(h, n).period == last_header(h, n, "x-ratelimit-period"@),
    decreases n,
{
    reveal_strlit("x-ratelimit-name");
    reveal_strlit("x-ratelimit-limit");
    reveal_strlit("x-ratelimit-remaining");
    reveal_strlit("x-ratelimit-reset");
    reveal_strlit("x-ratelimit-period");
    assert("x-ratelimit-name"@.len() == 16 && "x-ratelimit-limit"@.len() == 17);
    assert("x-ratelimit-remaining"@.len() == 21 && "x-ratelimit-reset"@.len() == 17);
    assert("x-ratelimit-period"@.len() == 18);
    assert("x-ratelimit-limit"@ != "x-ratelimit-reset"@) by {
        assert("x-ratelimit-limit"@[12] != "x-ratelimit-reset"@[12]);
    }
    if n > 0 && n <= h.len() {
        law_each_field_from_its_header(h, (n - 1) as nat);
    }
}

/// The model of a list of headers: each name with its value's text, or
/// `None` for a value that is not valid visible text.
pub open spec fn headers_view(h: Seq<(String, Option<String>)>) -> Seq<
    (Seq<char>, Option<Seq<char>>),
> {
    h.map_values(|p: (String, Option<String>)| (p.0@, opt_view(p.1)))
}

/// Extracts Datadog `X-RateLimit-*` headers from an HTTP response's headers,
/// given as names with their values' text (`None` for a value that is not
/// text). Later headers of the same name win; `None` when there is none.
pub fn extract_from_headers(headers: &Vec<(String, Option<String>)>) -> (r: Option<RateLimitInfo>)
    ensures
        match r {
            Some(info) => info@ == headers_model(headers_view(headers@), headers.len() as nat)
                && !model_is_empty(info@),
            None => model_is_empty(headers_model(headers_view(headers@), headers.len() as nat)),
        },
{
    let ghost hv = headers_view(headers@);
    let mut info = RateLimitInfo::new();
    let k_name = chars_of("x-ratelimit-name");
    let k_limit = chars_of("x-ratelimit-limit");
    let k_remaining = chars_of("x-ratelimit-remaining");
    let k_reset = chars_of("x-ratelimit-reset");
    let k_period = chars_of("x-ratelimit-period");
    let mut i: usize = 0;
    while i < headers.len()
        invariant
            hv == headers_view(headers@),
            i <= headers.len(),
            k_name@ == "x-ratelimit-name"@,
            k_limit@ == "x-ratelimit-limit"@,
            k_remaining@ == "x-ratelimit-remaining"@,
            k_reset@ == "x-ratelimit-reset"@,
            k_period@ == "x-ratelimit-period"@,
            info@ == headers_model(hv, i as nat),
        decreases headers.len() - i,
    {
        let raw = chars_of(headers[i].0.as_str());
        let n = ascii_lowercase_chars(&raw);
        assert(hv[i as int] == (headers@[i as int].0@, opt_view(headers@[i as int].1)));
        if let Some(v) = &headers[i].1 {
            if chars_eq(&n, &k_name) {
                info.name = Some(v.clone());
            } else if chars_eq(&n, &k_limit) {
                info.limit = Some(v.clone());
            } else if chars_eq(&n, &k_remaining) {
                info.remaining = Some(v.clone());
            } else if chars_eq(&n, &k_reset) {
                info.reset = Some(v.clone());
            } else if chars_eq(&n, &k_period) {
                info.period = Some(v.clone());
            }
        }
        i = i + 1;
    }
    if info.is_empty() {
        None
    } else {
        Some(info)
    }
}

// ---------------------------------------------------------------------------
// Captured state
// ---------------------------------------------------------------------------

/// Whether `--verbose` was passed, and the rate-limit headers of the most
/// recent API response.
pub struct RateLimitState {
    pub verbose: bool,
    pub last: Option<RateLimitInfo>,
}

impl RateLimitState {
    /// Not verbose, nothing captured.
    pub fn new() -> (r: RateLimitState)
        ensures
            !r.verbose,
            r.last is None,
    {
        RateLimitState { verbose: false, last: None }
    }
}

/// Enables or disables verbose rate-limit reporting.
pub fn set_verbose(state: &mut RateLimitState, enabled: bool)
    ensures
        final(state).verbose == enabled,
        info_view(final(state).last) == info_view(old(state).last),
{
    state.verbose = enabled;
}

/// True when `--verbose` was passed.
pub fn verbose_enabled(state: &RateLimitState) -> (r: bool)
    ensures
        r == state.verbose,
{
    state.verbose
}

/// The store after remembering `info`: the new headers replace the old.
pub open spec fn store_spec(last: Option<RateLimitModel>, info: Option<RateLimitModel>) -> Option<
    RateLimitModel,
> {
    info
}

/// Taking from the store: what it held, and the store emptied.
pub open spec fn take_spec(last: Option<RateLimitModel>) -> (Option<RateLimitModel>, Option<
    RateLimitModel,
>) {
    (last, None)
}

/// Remembers the rate-limit headers of the most recent API response.
pub fn store_last(state: &mut RateLimitState, info: Option<RateLimitInfo>)
    ensures
        info_view(final(state).last) == store_spec(info_view(old(state).last), info_view(info)),
        final(state).verbose == old(state).verbose,
{
    state.last = info;
}

/// Takes the captured rate-limit headers, clearing the store.
pub fn take_last_captured(state: &mut RateLimitState) -> (r: Option<RateLimitInfo>)
    ensures
        (info_view(r), info_view(final(state).last)) == take_spec(info_view(old(state).last)),
        final(state).verbose == old(state).verbose,
{
    let r = state.last.take();
    r
}

/// The captured rate-limit headers, leaving them in the store.
pub fn peek_last_captured(state: &RateLimitState) -> (r: Option<RateLimitInfo>)
    ensures
        info_view(r) == info_view(state.last),
{
    match &state.last {
        Some(i) => Some(i.copy()),
        None => None,
    }
}

/// What `--verbose` prints to stderr after a command: the captured headers
/// (left in the store) rendered in the command's output format; nothing
/// without `--verbose`, and nothing when none or only empty headers were
/// captured.
pub fn eprint_verbose_response(state: &RateLimitState, format: &OutputFormat, agent_mode: bool)
    -> (r: Result<Option<String>, String>)
    ensures
        !state.verbose ==> r matches Ok(None),
        state.verbose ==> match info_view(state.last) {
            None => r matches Ok(None),
            Some(m) => if model_is_empty(m) {
                r matches Ok(None)
            } else {
                match r {
                    Ok(Some(t)) => format_value_to_string_holds(to_json_spec(m), *format, agent_mode, t@),
                    Ok(None) => false,
                    Err(_) => format_value_to_string_fails(to_json_spec(m), *format, agent_mode),
                }
            },
        },
{
    if !verbose_enabled(state) {
        return Ok(None);
    }
    match peek_last_captured(state) {
        None => Ok(None),
        Some(info) => {
            if info.is_empty() {
                return Ok(None);
            }
            let v = info.to_json_value();
            match format_value_to_string(&v, format, agent_mode) {
                Ok(t) => Ok(Some(t)),
                Err(e) => Err(e),
            }
        },
    }
}

/// `format_value_to_string` fails for `data`: only where the outside
/// printer (serde_json for JSON, serde_norway for YAML) refuses the document.
pub open spec fn format_value_to_string_fails(data: Json, format: OutputFormat, agent_mode: bool) -> bool {
    if agent_mode && format == OutputFormat::Json {
        crate::formatter::envelope_output_spec(data, None).is_none()
    } else {
        match format {
            OutputFormat::Json => crate::formatter::json_output_spec(data).is_none(),
            OutputFormat::Yaml => crate::formatter::yaml_of_json_text(
                crate::json_text::compact(crate::formatter::sort_json(data)),
            ).is_none(),
            _ => false,
        }
    }
}

/// `t` is what `format_value_to_string` renders for `data`.
pub open spec fn format_value_to_string_holds(
    data: Json,
    format: OutputFormat,
    agent_mode: bool,
    t: Seq<char>,
) -> bool {
    if agent_mode && format == OutputFormat::Json {
        crate::formatter::envelope_output_spec(data, None) == Some(t)
    } else {
        match format {
            OutputFormat::Json => crate::formatter::json_output_spec(data) == Some(t),
            OutputFormat::Yaml => crate::formatter::yaml_of_json_text(
                crate::json_text::compact(crate::formatter::sort_json(data)),
            ) == Some(t),
            OutputFormat::Table => t == crate::formatter::table_text_spec(data),
            OutputFormat::Csv => t == crate::formatter::delimited_spec(data, false),
            OutputFormat::Tsv => t == crate::formatter::delimited_spec(data, true),
        }
    }
}

// ---------------------------------------------------------------------------
// Rate-limit failures
// ---------------------------------------------------------------------------

/// An HTTP failure as the raw client reports it: its status and the
/// rate-limit headers of its response.
pub struct HttpErrorInfo {
    pub status: u16,
    pub rate_limit: Option<RateLimitInfo>,
}

/// A message that names an HTTP 429: it mentions `429` together with
/// `too many requests`, `rate limit` or `status code 429`, in any ASCII case.
pub open spec fn message_is_rate_limited(msg: Seq<char>) -> bool {
    let m = ascii_lower(msg);
    contains_seq(m, "429"@) && (contains_seq(m, "too many requests"@) || contains_seq(
        m,
        "rate limit"@,
    ) || contains_seq(m, "status code 429"@))
}

/// The failure is an HTTP 429: by the status of an HTTP error when there is
/// one, otherwise by the error's message.
pub open spec fn is_rate_limited_spec(http_status: Option<u16>, msg: Seq<char>) -> bool {
    match http_status {
        Some(s) => s == 429,
        None => message_is_rate_limited(msg),
    }
}

/// True when an error is an HTTP 429 rate-limit failure. `http_status` is the
/// status of the error when it is an HTTP error; `msg` is its message.
pub fn is_rate_limited(http_status: Option<u16>, msg: &str) -> (r: bool)
    ensures
        r == is_rate_limited_spec(http_status, msg@),
{
    if let Some(s) = http_status {
        return s == 429;
    }
    let v = chars_of(msg);
    let m = ascii_lowercase_chars(&v);
    let n429 = chars_of("429");
    let tmr = chars_of("too many requests");
    let rl = chars_of("rate limit");
    let sc = chars_of("status code 429");
    contains_chars(&m, &n429) && (contains_chars(&m, &tmr) || contains_chars(&m, &rl)
        || contains_chars(&m, &sc))
}

/// The hint appended to rate-limit failures.
pub open spec fn rate_limit_hint() -> Seq<char> {
    "\nHint: rate limited — wait and retry"@
}

/// `msg` with the detail lines of non-empty headers appended.
pub open spec fn with_details(msg: Seq<char>, info: Option<RateLimitModel>) -> Seq<char> {
    match info {
        Some(m) => if !model_is_empty(m) {
            msg + seq!['\n'] + format_lines_spec(m)
        } else {
            msg
        },
        None => msg,
    }
}

/// Appends the detail lines of non-empty headers.
fn append_details(msg: &mut String, info: &Option<RateLimitInfo>)
    ensures
        final(msg)@ == with_details(old(msg)@, info_view(*info)),
{
    if let Some(i) = info {
        if !i.is_empty() {
            crate::text::push_char(msg, '\n');
            let lines = i.format_lines();
            push_text(msg, lines.as_str());
            assert(msg@ =~= with_details(old(msg)@, info_view(*info)));
        }
    }
}

/// Formats a CLI error and chooses the exit code: 429 for rate limits (with
/// the captured rule and a hint), 1 otherwise.
///
/// `rendered` is the error with its causes (`{err:#}`), `msg` its message
/// alone, and `http` the HTTP failure when the error is one. For a rate
/// limit detected by message, the headers captured in `state` are taken.
pub fn cli_error(
    rendered: &str,
    msg: &str,
    http: Option<&HttpErrorInfo>,
    state: &mut RateLimitState,
) -> (r: (String, i32))
    ensures
        match http {
            Some(h) => if h.status == 429 {
                &&& r.1 == EXIT_RATE_LIMITED
                &&& r.0@ == with_details(rendered@, info_view(h.rate_limit)) + rate_limit_hint()
                &&& info_view(final(state).last) == info_view(old(state).last)
            } else {
                &&& r.1 == 1
                &&& r.0@ == rendered@
                &&& info_view(final(state).last) == info_view(old(state).last)
            },
            None => if message_is_rate_limited(msg@) {
                &&& r.1 == EXIT_RATE_LIMITED
                &&& r.0@ == with_details(rendered@, info_view(old(state).last)) + rate_limit_hint()
                &&& final(state).last is None
            } else {
                &&& r.1 == 1
                &&& r.0@ == rendered@
                &&& info_view(final(state).last) == info_view(old(state).last)
            },
        },
        final(state).verbose == old(state).verbose,
{
    let mut out = owned(rendered);
    if let Some(h) = http {
        if h.status == 429 {
            append_details(&mut out, &h.rate_limit);
            push_text(&mut out, "\nHint: rate limited — wait and retry");
            return (out, EXIT_RATE_LIMITED);
        }
    }
    let status = match http {
        Some(h) => Some(h.status),
        None => None,
    };
    if is_rate_limited(status, msg) {
        let taken = take_last_captured(state);
        append_details(&mut out, &taken);
        push_text(&mut out, "\nHint: rate limited — wait and retry");
        return (out, EXIT_RATE_LIMITED);
    }
    (out, 1)
}

// ---------------------------------------------------------------------------
// Laws of the store
// ---------------------------------------------------------------------------

/// Taking after storing gives back exactly the stored headers and leaves
/// the store empty, whatever it held before.
pub proof fn law_take_after_store(prev: Option<RateLimitModel>, info: Option<RateLimitModel>)
    ensures
        take_spec(store_spec(prev, info)) == (info, None::<RateLimitModel>),
{
}

/// A second take finds nothing.
pub proof fn law_take_twice(prev: Option<RateLimitModel>)
    ensures
        take_spec(take_spec(prev).1).0 is None,
{
}

} // verus!
