use pup::formatter::{format_value_to_string, OutputFormat};
use pup::rate_limit::{
    cli_error, eprint_verbose_response, extract_from_headers, is_rate_limited, peek_last_captured, set_verbose,
    store_last, take_last_captured, verbose_enabled, HttpErrorInfo, RateLimitInfo, RateLimitState,
    EXIT_RATE_LIMITED,
};

fn info(name: Option<&str>, limit: Option<&str>, remaining: Option<&str>) -> RateLimitInfo {
    RateLimitInfo {
        name: name.map(|x| x.to_string()),
        limit: limit.map(|x| x.to_string()),
        remaining: remaining.map(|x| x.to_string()),
        reset: None,
        period: None,
    }
}

fn headers(pairs: &[(&str, &str)]) -> Vec<(String, Option<String>)> {
    pairs.iter().map(|(k, v)| (k.to_string(), Some(v.to_string()))).collect()
}

#[test]
fn test_extract_from_headers_all_fields() {
    let h = headers(&[
        ("x-ratelimit-name", "get_all_monitors"),
        ("x-ratelimit-limit", "1000"),
        ("x-ratelimit-remaining", "0"),
        ("x-ratelimit-reset", "1700000000"),
        ("x-ratelimit-period", "60"),
    ]);
    let i = extract_from_headers(&h).expect("expected rate limit info");
    assert_eq!(i.name.as_deref(), Some("get_all_monitors"));
    assert_eq!(i.limit.as_deref(), Some("1000"));
    assert_eq!(i.remaining.as_deref(), Some("0"));
    assert_eq!(i.reset.as_deref(), Some("1700000000"));
    assert_eq!(i.period.as_deref(), Some("60"));
}

#[test]
fn test_extract_from_headers_case_insensitive() {
    let h = headers(&[("X-RateLimit-Name", "logs_public_search_api"), ("X-RateLimit-Limit", "10")]);
    let i = extract_from_headers(&h).expect("expected rate limit info");
    assert_eq!(i.name.as_deref(), Some("logs_public_search_api"));
    assert_eq!(i.limit.as_deref(), Some("10"));
}

#[test]
fn test_extract_from_headers_empty_when_absent() {
    assert!(extract_from_headers(&Vec::new()).is_none());
}

#[test]
fn test_format_lines_readable() {
    let text = info(Some("get_all_monitors"), Some("1000"), Some("0")).format_lines();
    assert!(text.contains("rule: get_all_monitors"));
    assert!(text.contains("limit: 1000"));
    assert!(text.contains("remaining: 0"));
}

#[test]
fn test_is_rate_limited_sdk_error_string() {
    assert!(is_rate_limited(
        None,
        "failed to list monitors: error in response: status code 429 Too Many Requests"
    ));
}

#[test]
fn test_is_rate_limited_http_error() {
    assert!(is_rate_limited(Some(429), "Too Many Requests"));
}

#[test]
fn test_is_rate_limited_false_for_other_errors() {
    assert!(!is_rate_limited(None, "failed to list monitors: status code 403 Forbidden"));
}

#[test]
fn test_cli_error_rate_limited_with_captured_headers() {
    let mut state = RateLimitState::new();
    store_last(&mut state, Some(info(Some("slo_get_all"), Some("1000"), Some("0"))));
    let err = "failed to list slos: status code 429 Too Many Requests";
    let (msg, code) = cli_error(err, err, None, &mut state);
    assert_eq!(code, EXIT_RATE_LIMITED);
    assert!(msg.contains("rule: slo_get_all"));
    assert!(msg.contains("Hint: rate limited"));
}

#[test]
fn test_cli_error_non_rate_limit_exits_one() {
    let mut state = RateLimitState::new();
    let err = "failed to get monitor: status code 404 Not Found";
    let (msg, code) = cli_error(err, err, None, &mut state);
    assert_eq!(code, 1);
    assert!(msg.contains("404"));
}

#[test]
fn test_eprint_verbose_response_json() {
    let mut state = RateLimitState::new();
    set_verbose(&mut state, true);
    store_last(&mut state, Some(info(Some("get_all_monitors"), Some("1000"), Some("999"))));
    let rendered = format_value_to_string(
        &info(Some("get_all_monitors"), Some("1000"), Some("999")).to_json_value(),
        &OutputFormat::Json,
        false,
    )
    .expect("json format");
    assert!(rendered.contains("\"limit\": \"1000\""));
    assert!(rendered.contains("\"name\": \"get_all_monitors\""));
    let printed = eprint_verbose_response(&state, &OutputFormat::Json, false).unwrap().unwrap();
    assert_eq!(printed, rendered);
    set_verbose(&mut state, false);
}

#[test]
fn test_eprint_verbose_response_table() {
    let rendered = format_value_to_string(
        &info(Some("logs_public_search_api"), Some("10"), Some("7")).to_json_value(),
        &OutputFormat::Table,
        false,
    )
    .expect("table format");
    assert!(rendered.contains("logs_public_search_api"));
    assert!(rendered.contains("10"));
}

// Further cases of the library's own.

#[test]
fn take_after_store_gives_the_stored_headers_once() {
    let mut state = RateLimitState::new();
    store_last(&mut state, Some(info(Some("rule_a"), None, None)));
    assert_eq!(peek_last_captured(&state).unwrap().name.as_deref(), Some("rule_a"));
    let first = take_last_captured(&mut state);
    assert_eq!(first.unwrap().name.as_deref(), Some("rule_a"));
    assert!(take_last_captured(&mut state).is_none());
}

#[test]
fn verbose_flag_round_trips() {
    let mut state = RateLimitState::new();
    assert!(!verbose_enabled(&state));
    set_verbose(&mut state, true);
    assert!(verbose_enabled(&state));
}

#[test]
fn http_429_uses_its_own_headers_and_keeps_the_store() {
    let mut state = RateLimitState::new();
    store_last(&mut state, Some(info(Some("stored"), None, None)));
    let http = HttpErrorInfo { status: 429, rate_limit: Some(info(Some("from_response"), Some("5"), None)) };
    let (msg, code) = cli_error("boom", "boom", Some(&http), &mut state);
    assert_eq!(code, 429);
    assert_eq!(msg, "boom\nRate limit details:\n  rule: from_response\n  limit: 5\nHint: rate limited — wait and retry");
    assert!(peek_last_captured(&state).is_some());
}

#[test]
fn http_error_other_than_429_exits_one_with_message_unchanged() {
    let mut state = RateLimitState::new();
    let http = HttpErrorInfo { status: 500, rate_limit: None };
    let (msg, code) = cli_error("HTTP 500: boom (too many requests 429)", "x", Some(&http), &mut state);
    assert_eq!(code, 1);
    assert_eq!(msg, "HTTP 500: boom (too many requests 429)");
}

#[test]
fn empty_headers_print_nothing() {
    let mut state = RateLimitState::new();
    set_verbose(&mut state, true);
    store_last(&mut state, Some(info(None, None, None)));
    assert!(eprint_verbose_response(&state, &OutputFormat::Json, false).unwrap().is_none());
    let mut nothing = RateLimitState::new();
    set_verbose(&mut nothing, true);
    assert!(eprint_verbose_response(&nothing, &OutputFormat::Json, false).unwrap().is_none());
}

#[test]
fn headers_without_values_are_ignored() {
    let h = vec![("x-ratelimit-name".to_string(), None), ("other".to_string(), Some("1".to_string()))];
    assert!(extract_from_headers(&h).is_none());
}

#[test]
fn without_verbose_nothing_is_printed() {
    let mut state = RateLimitState::new();
    store_last(&mut state, Some(info(Some("get_all_monitors"), Some("1000"), Some("999"))));
    assert!(eprint_verbose_response(&state, &OutputFormat::Json, false).unwrap().is_none());
    assert!(peek_last_captured(&state).is_some());
    set_verbose(&mut state, true);
    assert!(eprint_verbose_response(&state, &OutputFormat::Json, false).unwrap().is_some());
}

#[test]
fn verbose_report_in_yaml() {
    let mut state = RateLimitState::new();
    set_verbose(&mut state, true);
    store_last(&mut state, Some(info(Some("get_all_monitors"), Some("1000"), Some("999"))));
    let rendered = format_value_to_string(
        &info(Some("get_all_monitors"), Some("1000"), Some("999")).to_json_value(),
        &OutputFormat::Yaml,
        false,
    )
    .expect("yaml format");
    assert!(rendered.contains("name: get_all_monitors"));
    let printed = eprint_verbose_response(&state, &OutputFormat::Yaml, false).unwrap().unwrap();
    assert_eq!(printed, rendered);
}
