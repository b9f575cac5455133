use pup::commands::logs::{
    build_aggregate_body, normalize_storage_tier, parse_aggregate_sort, split_compute_args, VALID_SORT_AGGREGATIONS,
};
use pup::commands::rum::{build_rum_aggregate_body, parse_rum_compute, split_rum_compute_args, RumAggregateArgs};
use pup::commands::security::{
    parse_signals_sort, parse_terraform_resource_type, schema_from_page, strip_template_directives,
    SecurityMonitoringSignalsSort,
};
use pup::commands::traces::{parse_compute, validate_limit, validate_sort, SpansAggregationFunction};
use pup::commands::users::{parse_roles_sort, RolesSort};
use pup::json::JsonValue;

fn s(x: &str) -> JsonValue {
    JsonValue::String(x.to_string())
}

fn n(x: &str) -> JsonValue {
    JsonValue::Number(x.to_string())
}

fn arr(items: Vec<JsonValue>) -> JsonValue {
    JsonValue::Array(items)
}

fn obj(pairs: Vec<(&str, JsonValue)>) -> JsonValue {
    JsonValue::Object(pairs.into_iter().map(|(k, v)| (k.to_string(), v)).collect())
}

fn at<'a>(v: &'a JsonValue, k: &str) -> &'a JsonValue {
    v.get(k).unwrap_or(&JsonValue::Null)
}

/// Equality of JSON documents, objects compared as maps.
fn same(a: &JsonValue, b: &JsonValue) -> bool {
    match (a, b) {
        (JsonValue::Object(x), JsonValue::Object(y)) => {
            x.len() == y.len() && x.iter().all(|(k, v)| y.iter().any(|(k2, v2)| k == k2 && same(v, v2)))
        },
        (JsonValue::Array(x), JsonValue::Array(y)) => {
            x.len() == y.len() && x.iter().zip(y.iter()).all(|(p, q)| same(p, q))
        },
        _ => a == b,
    }
}

fn strings(v: &[&str]) -> Vec<String> {
    v.iter().map(|x| x.to_string()).collect()
}

// ---- logs ----

#[test]
fn test_normalize_storage_tier_alias() {
    let tier = normalize_storage_tier(Some("online_archives".into())).unwrap();
    assert_eq!(tier.unwrap(), "online-archives");
}

#[test]
fn test_build_aggregate_body_includes_compute_group_by_limit_and_storage() {
    let body = build_aggregate_body(
        "service:web".into(),
        1,
        2,
        strings(&["avg(@duration)"]),
        strings(&["service"]),
        3,
        Some("flex".into()),
        "count",
    )
    .unwrap();
    let expected = obj(vec![
        (
            "filter",
            obj(vec![("query", s("service:web")), ("from", s("1")), ("to", s("2")), ("storage_tier", s("flex"))]),
        ),
        ("compute", arr(vec![obj(vec![("aggregation", s("avg")), ("metric", s("@duration"))])])),
        (
            "group_by",
            arr(vec![obj(vec![
                ("facet", s("service")),
                ("limit", n("3")),
                ("sort", obj(vec![("type", s("measure")), ("order", s("desc")), ("aggregation", s("count"))])),
            ])]),
        ),
    ]);
    assert!(same(&body, &expected), "got: {body:?}");
}

#[test]
fn test_build_aggregate_body_omits_group_by_for_plain_count() {
    let body = build_aggregate_body("*".into(), 1, 2, strings(&["count"]), vec![], 10, None, "count").unwrap();
    let expected = obj(vec![
        ("filter", obj(vec![("query", s("*")), ("from", s("1")), ("to", s("2"))])),
        ("compute", arr(vec![obj(vec![("aggregation", s("count"))])])),
    ]);
    assert!(same(&body, &expected), "got: {body:?}");
}

#[test]
fn test_build_aggregate_body_multiple_computes() {
    let body = build_aggregate_body(
        "*".into(),
        1,
        2,
        strings(&["count", "avg(@duration)", "percentile(@duration, 95)"]),
        vec![],
        10,
        None,
        "count",
    )
    .unwrap();
    let expected = obj(vec![
        ("filter", obj(vec![("query", s("*")), ("from", s("1")), ("to", s("2"))])),
        (
            "compute",
            arr(vec![
                obj(vec![("aggregation", s("count"))]),
                obj(vec![("aggregation", s("avg")), ("metric", s("@duration"))]),
                obj(vec![("aggregation", s("pc95")), ("metric", s("@duration"))]),
            ]),
        ),
    ]);
    assert!(same(&body, &expected), "got: {body:?}");
}

#[test]
fn test_build_aggregate_body_multiple_group_bys() {
    let body =
        build_aggregate_body("*".into(), 1, 2, strings(&["count"]), strings(&["service", "status"]), 5, None, "count")
            .unwrap();
    let sort = obj(vec![("type", s("measure")), ("order", s("desc")), ("aggregation", s("count"))]);
    let expected = obj(vec![
        ("filter", obj(vec![("query", s("*")), ("from", s("1")), ("to", s("2"))])),
        ("compute", arr(vec![obj(vec![("aggregation", s("count"))])])),
        (
            "group_by",
            arr(vec![
                obj(vec![("facet", s("service")), ("limit", n("5")), ("sort", sort.deep_clone())]),
                obj(vec![("facet", s("status")), ("limit", n("5")), ("sort", sort)]),
            ]),
        ),
    ]);
    assert!(same(&body, &expected), "got: {body:?}");
}

#[test]
fn test_parse_aggregate_sort_valid_values() {
    for agg in VALID_SORT_AGGREGATIONS {
        let sort = parse_aggregate_sort(agg).unwrap();
        assert_eq!(at(&sort, "aggregation"), &s(agg));
        assert_eq!(at(&sort, "order"), &s("desc"));
        assert_eq!(at(&sort, "type"), &s("measure"));
    }
}

#[test]
fn test_parse_aggregate_sort_case_insensitive() {
    let sort = parse_aggregate_sort("PC95").unwrap();
    assert_eq!(at(&sort, "aggregation"), &s("pc95"));
}

#[test]
fn test_parse_aggregate_sort_trims_whitespace() {
    let sort = parse_aggregate_sort("  sum  ").unwrap();
    assert_eq!(at(&sort, "aggregation"), &s("sum"));
}

#[test]
fn test_parse_aggregate_sort_invalid() {
    let err = parse_aggregate_sort("invalid").unwrap_err();
    assert!(err.contains("unknown sort aggregation"));
}

#[test]
fn test_build_aggregate_body_sort_pc95() {
    let body = build_aggregate_body("*".into(), 1, 2, strings(&["count"]), strings(&["host"]), 10, None, "pc95").unwrap();
    let first = match at(&body, "group_by") {
        JsonValue::Array(items) => items[0].deep_clone(),
        other => panic!("no group_by: {other:?}"),
    };
    let expected = obj(vec![("type", s("measure")), ("order", s("desc")), ("aggregation", s("pc95"))]);
    assert!(same(at(&first, "sort"), &expected));
}

#[test]
fn test_build_aggregate_body_sort_not_included_without_group_by() {
    let body = build_aggregate_body("*".into(), 1, 2, strings(&["count"]), vec![], 10, None, "pc95").unwrap();
    assert!(body.get("group_by").is_none());
}

#[test]
fn test_split_compute_args_single() {
    assert_eq!(split_compute_args("count"), vec!["count"]);
}

#[test]
fn test_split_compute_args_multiple() {
    assert_eq!(
        split_compute_args("count,avg(@duration),max(@duration)"),
        vec!["count", "avg(@duration)", "max(@duration)"]
    );
}

#[test]
fn test_split_compute_args_preserves_parens_with_comma() {
    assert_eq!(split_compute_args("count,percentile(@duration, 95)"), vec!["count", "percentile(@duration, 95)"]);
}

#[test]
fn test_split_compute_args_trims_whitespace() {
    assert_eq!(split_compute_args(" count , avg(@duration) "), vec!["count", "avg(@duration)"]);
}

#[test]
fn test_split_compute_args_empty() {
    assert!(split_compute_args("").is_empty());
}

#[test]
fn unknown_storage_tier_is_refused() {
    let err = normalize_storage_tier(Some("cold".into())).unwrap_err();
    assert!(err.contains("cold"), "got: {err}");
    assert_eq!(normalize_storage_tier(None).unwrap(), None);
}

#[test]
fn invalid_compute_stops_the_aggregate_body() {
    assert!(build_aggregate_body("*".into(), 1, 2, strings(&["bogus(@x)"]), vec![], 1, None, "count").is_err());
}

// ---- rum ----

#[test]
fn rum_compute_grammar() {
    assert_eq!(parse_rum_compute("count").unwrap(), ("count".to_string(), None));
    assert_eq!(parse_rum_compute(" avg(@duration) ").unwrap(), ("avg".to_string(), Some("@duration".to_string())));
    assert_eq!(
        parse_rum_compute("percentile(@view.time, 99)").unwrap(),
        ("pc99".to_string(), Some("@view.time".to_string()))
    );
    assert!(parse_rum_compute("").unwrap_err().contains("--compute is required"));
    assert!(parse_rum_compute("percentile(@d, 50)").unwrap_err().contains("unsupported percentile"));
    assert!(parse_rum_compute("count(@d)").unwrap_err().contains("does not accept a field"));
    assert!(parse_rum_compute("nope(@d)").unwrap_err().contains("unknown aggregation function"));
}

#[test]
fn rum_split_respects_parentheses() {
    assert_eq!(split_rum_compute_args("count, percentile(@d, 95) ,,"), vec!["count", "percentile(@d, 95)"]);
}

#[test]
fn rum_aggregate_body_defaults_to_count() {
    let args = RumAggregateArgs {
        query: "@type:view".into(),
        from: "1h".into(),
        to: "now".into(),
        compute: vec![],
        group_by: strings(&["@view.name"]),
        limit: 0,
    };
    let body = build_rum_aggregate_body(&args, 10, 20).unwrap();
    let expected = obj(vec![
        ("filter", obj(vec![("query", s("@type:view")), ("from", s("10")), ("to", s("20"))])),
        ("compute", arr(vec![obj(vec![("type", s("total")), ("aggregation", s("count"))])])),
        ("group_by", arr(vec![obj(vec![("facet", s("@view.name"))])])),
    ]);
    assert!(same(&body, &expected), "got: {body:?}");
}

#[test]
fn rum_aggregate_body_with_metric_and_limit() {
    let args = RumAggregateArgs {
        query: "*".into(),
        from: "a".into(),
        to: "b".into(),
        compute: strings(&["avg(@d)"]),
        group_by: strings(&["x"]),
        limit: 7,
    };
    let body = build_rum_aggregate_body(&args, -1, 2).unwrap();
    let expected = obj(vec![
        ("filter", obj(vec![("query", s("*")), ("from", s("-1")), ("to", s("2"))])),
        (
            "compute",
            arr(vec![obj(vec![("type", s("total")), ("aggregation", s("avg")), ("metric", s("@d"))])]),
        ),
        ("group_by", arr(vec![obj(vec![("facet", s("x")), ("limit", n("7"))])])),
    ]);
    assert!(same(&body, &expected), "got: {body:?}");
    let bad = RumAggregateArgs { compute: strings(&["median"]), ..args };
    assert!(build_rum_aggregate_body(&bad, 0, 0).is_err());
}

// ---- traces ----

#[test]
fn test_parse_compute_count() {
    let (agg, metric) = parse_compute("count").unwrap();
    assert_eq!(agg, SpansAggregationFunction::Count);
    assert!(metric.is_none());
}

#[test]
fn test_parse_compute_avg() {
    let (agg, metric) = parse_compute("avg(@duration)").unwrap();
    assert_eq!(agg, SpansAggregationFunction::Avg);
    assert_eq!(metric.unwrap(), "@duration");
}

#[test]
fn test_parse_compute_sum() {
    let (agg, metric) = parse_compute("sum(@duration)").unwrap();
    assert_eq!(agg, SpansAggregationFunction::Sum);
    assert_eq!(metric.unwrap(), "@duration");
}

#[test]
fn test_parse_compute_min() {
    let (agg, metric) = parse_compute("min(@duration)").unwrap();
    assert_eq!(agg, SpansAggregationFunction::Min);
    assert_eq!(metric.unwrap(), "@duration");
}

#[test]
fn test_parse_compute_max() {
    let (agg, metric) = parse_compute("max(@duration)").unwrap();
    assert_eq!(agg, SpansAggregationFunction::Max);
    assert_eq!(metric.unwrap(), "@duration");
}

#[test]
fn test_parse_compute_median() {
    let (agg, metric) = parse_compute("median(@duration)").unwrap();
    assert_eq!(agg, SpansAggregationFunction::Median);
    assert_eq!(metric.unwrap(), "@duration");
}

#[test]
fn test_parse_compute_cardinality() {
    let (agg, metric) = parse_compute("cardinality(@usr.id)").unwrap();
    assert_eq!(agg, SpansAggregationFunction::Cardinality);
    assert_eq!(metric.unwrap(), "@usr.id");
}

#[test]
fn test_parse_compute_percentile_99() {
    let (agg, metric) = parse_compute("percentile(@duration, 99)").unwrap();
    assert_eq!(agg, SpansAggregationFunction::Percentile99);
    assert_eq!(metric.unwrap(), "@duration");
}

#[test]
fn test_parse_compute_percentile_95() {
    let (agg, metric) = parse_compute("percentile(@duration, 95)").unwrap();
    assert_eq!(agg, SpansAggregationFunction::Percentile95);
    assert_eq!(metric.unwrap(), "@duration");
}

#[test]
fn test_parse_compute_percentile_90() {
    let (agg, metric) = parse_compute("percentile(@duration, 90)").unwrap();
    assert_eq!(agg, SpansAggregationFunction::Percentile90);
    assert_eq!(metric.unwrap(), "@duration");
}

#[test]
fn test_parse_compute_empty() {
    assert!(parse_compute("").is_err());
}

#[test]
fn test_parse_compute_invalid() {
    assert!(parse_compute("invalid").is_err());
}

#[test]
fn test_parse_compute_unknown_function() {
    assert!(parse_compute("foo(@bar)").is_err());
}

#[test]
fn test_parse_compute_unsupported_percentile() {
    assert!(parse_compute("percentile(@duration, 50)").is_err());
}

#[test]
fn test_parse_compute_percentile_missing_value() {
    assert!(parse_compute("percentile(@duration)").is_err());
}

#[test]
fn test_parse_compute_count_with_field_rejected() {
    let err = parse_compute("count(@duration)").unwrap_err();
    assert!(err.contains("does not accept a field"));
}

#[test]
fn test_validate_sort_valid() {
    assert!(validate_sort("timestamp").is_ok());
    assert!(validate_sort("-timestamp").is_ok());
}

#[test]
fn test_validate_sort_invalid() {
    assert!(validate_sort("garbage").is_err());
    assert!(validate_sort("").is_err());
    assert!(validate_sort("asc").is_err());
}

#[test]
fn span_limit_bounds() {
    assert!(validate_limit(1).is_ok());
    assert!(validate_limit(1000).is_ok());
    assert_eq!(validate_limit(0).unwrap_err(), "--limit must be between 1 and 1000, got 0");
    assert!(validate_limit(1001).is_err());
}

// ---- users ----

#[test]
fn test_parse_roles_sort() {
    assert!(matches!(parse_roles_sort("name").unwrap(), RolesSort::NameAscending));
    assert!(matches!(parse_roles_sort("-user_count").unwrap(), RolesSort::UserCountDescending));
    assert!(parse_roles_sort("nope").is_err());
}

// ---- security ----

#[test]
fn test_strip_template_directives_removes_standalone() {
    let input = "## Heading\n{% collapsible-section #foo %}\n### Sub\nContent here.\n{% /collapsible-section %}";
    let result = strip_template_directives(input);
    assert_eq!(result, "## Heading\n### Sub\nContent here.");
}

#[test]
fn test_strip_template_directives_removes_inline() {
    let input = "## Schema Reference{% #schema-reference %}\nSome text.";
    let result = strip_template_directives(input);
    assert_eq!(result, "## Schema Reference\nSome text.");
}

#[test]
fn test_strip_template_directives_preserves_tables() {
    let input = "| Name | Type |\n| ---- | ---- |\n| `severity` | string |";
    let result = strip_template_directives(input);
    assert_eq!(result, input);
}

#[test]
fn test_strip_template_directives_empty_input() {
    assert_eq!(strip_template_directives(""), "");
}

#[test]
fn test_strip_template_directives_mixed() {
    let input = "Line 1\n{% tab title=\"Foo\" %}\nLine 2\n{% /tab %}\nLine 3";
    let result = strip_template_directives(input);
    assert_eq!(result, "Line 1\nLine 2\nLine 3");
}

#[test]
fn stripped_text_has_no_directive_and_handles_crlf() {
    let out = strip_template_directives("a{% x %}\r\n  {% y %}  \r\nb \r\n{%only");
    assert_eq!(out, "a\nb ");
    assert!(!out.contains("{%"));
}

#[test]
fn schema_extraction_cuts_sections_and_appends_source() {
    let page = "intro\n## Schema Reference{% #s %}\n| f | t |\n\n## Further reading\nlinks";
    let out = schema_from_page(page).unwrap();
    assert_eq!(
        out,
        "## Schema Reference\n| f | t |\n\n---\n*This schema was fetched from Datadog public documentation.*\n"
    );
    let err = schema_from_page("nothing here").unwrap_err();
    assert_eq!(err, "schema page did not contain expected section '## Schema Reference'");
}

#[test]
fn terraform_resource_types() {
    assert!(parse_terraform_resource_type("suppressions").is_ok());
    assert!(parse_terraform_resource_type("critical_assets").is_ok());
    let err = parse_terraform_resource_type("rules").unwrap_err();
    assert_eq!(err, "invalid resource-type 'rules' — use one of: suppressions, critical_assets");
}

#[test]
fn signal_sort_orders() {
    assert_eq!(parse_signals_sort(None).unwrap(), SecurityMonitoringSignalsSort::TimestampDescending);
    assert_eq!(parse_signals_sort(Some("asc")).unwrap(), SecurityMonitoringSignalsSort::TimestampAscending);
    assert_eq!(
        parse_signals_sort(Some("up")).unwrap_err(),
        "invalid --sort value: \"up\"\nExpected: timestamp (ascending) or -timestamp (descending)"
    );
}
