use pup::formatter::{
    append_jq_note, build_agent_envelope, csv_cell, csv_escape, extract_rows, flatten_deep, flatten_row,
    format_api_error, format_array_item, format_cell, format_csv_to_string, format_output, format_table_to_string,
    format_tsv_to_string, format_value_to_string, go_html_escape, json_output, sort_json_value,
    strip_counts_after_filter, table_layout, truncate_ellipsis, tsv_escape, Metadata, OutputFormat,
    AGENT_ENVELOPE_NOTE, JQ_FILTER_NOTE,
};
use pup::json::JsonValue;

fn s(x: &str) -> JsonValue {
    JsonValue::String(x.to_string())
}

fn n(x: &str) -> JsonValue {
    JsonValue::Number(x.to_string())
}

fn arr(items: Vec<JsonValue>) -> JsonValue {
    JsonValue::Array(items)
}

fn obj(pairs: Vec<(&str, JsonValue)>) -> JsonValue {
    JsonValue::Object(pairs.into_iter().map(|(k, v)| (k.to_string(), v)).collect())
}

fn at<'a>(v: &'a JsonValue, k: &str) -> &'a JsonValue {
    v.get(k).unwrap_or(&JsonValue::Null)
}

fn keys(v: &JsonValue) -> Vec<String> {
    match v {
        JsonValue::Object(e) => e.iter().map(|(k, _)| k.clone()).collect(),
        _ => panic!("not an object: {v:?}"),
    }
}

fn entry<'a>(e: &'a [(String, JsonValue)], k: &str) -> Option<&'a JsonValue> {
    e.iter().rev().find(|(key, _)| key == k).map(|(_, v)| v)
}

fn text(v: &JsonValue) -> &str {
    v.as_str().map(|t| t.as_str()).unwrap_or("")
}

fn meta(count: Option<usize>, truncated: bool, command: Option<&str>, next: Option<&str>) -> Metadata {
    Metadata {
        count,
        truncated,
        command: command.map(|c| c.to_string()),
        next_action: next.map(|c| c.to_string()),
    }
}

#[test]
fn test_format_cell_string() {
    assert_eq!(format_cell(Some(&s("hello"))), "hello");
}

#[test]
fn test_format_cell_long_string() {
    let long = "a".repeat(60);
    let result = format_cell(Some(&s(&long)));
    assert_eq!(result.len(), 50);
    assert!(result.ends_with("..."));
}

#[test]
fn test_format_cell_long_multibyte_string_char_boundary() {
    let name = "Resx V4 ;-) (vérifier que c'est bien un problème de resx avant de recycler)";
    let result = format_cell(Some(&s(name)));
    let expected: String = name.chars().take(47).collect();
    assert_eq!(result, format!("{expected}..."));
    assert_eq!(result.chars().count(), 50, "got: {result}");
}

#[test]
fn test_format_array_item_multibyte_no_panic() {
    let a = arr(vec![obj(vec![("name", s("problème récurrent de résolution"))])]);
    let result = format_cell(Some(&a));
    assert!(result.contains("..."), "got: {result}");
    assert!(result.starts_with("[problème réc"), "got: {result}");
}

#[test]
fn test_format_cell_number() {
    assert_eq!(format_cell(Some(&n("42"))), "42");
    assert_eq!(format_cell(Some(&n("1.25"))), "1.25");
}

#[test]
fn test_format_cell_null() {
    assert_eq!(format_cell(Some(&JsonValue::Null)), "");
    assert_eq!(format_cell(None), "");
}

#[test]
fn test_format_cell_array() {
    assert_eq!(format_cell(Some(&arr(vec![]))), "[]");
    assert_eq!(format_cell(Some(&arr(vec![n("1"), n("2")]))), "[1, 2]");
    assert_eq!(
        format_cell(Some(&arr(vec![n("1"), n("2"), n("3"), n("4"), n("5")]))),
        "[1, 2, 3, 4, +1 more]"
    );
}

#[test]
fn test_format_cell_array_of_objects_with_name() {
    let a = arr(vec![
        obj(vec![("id", s("abc")), ("name", s("API"))]),
        obj(vec![("id", s("def")), ("name", s("Web"))]),
        obj(vec![("id", s("ghi")), ("name", s("DB"))]),
        obj(vec![("id", s("jkl")), ("name", s("Cache"))]),
        obj(vec![("id", s("mno")), ("name", s("Queue"))]),
    ]);
    let result = format_cell(Some(&a));
    assert!(result.contains("API"), "got: {result}");
    assert!(result.contains("Web"), "got: {result}");
    assert!(result.contains("DB"), "got: {result}");
    assert!(result.contains("Cache"), "got: {result}");
    assert!(result.contains("+1 more"), "got: {result}");
    assert!(!result.contains("Queue"), "got: {result}");
}

#[test]
fn test_format_cell_array_of_name_only_objects() {
    let a = arr(vec![
        obj(vec![("name", s("API"))]),
        obj(vec![("name", s("Web"))]),
        obj(vec![("name", s("DB"))]),
        obj(vec![("name", s("Cache"))]),
        obj(vec![("name", s("Queue"))]),
    ]);
    let result = format_cell(Some(&a));
    assert!(result.contains("API"), "got: {result}");
    assert!(result.contains("Web"), "got: {result}");
    assert!(result.contains("+1 more"), "got: {result}");
    assert!(!result.contains("Queue"), "got: {result}");
}

#[test]
fn test_format_cell_array_truncated() {
    let a = arr(vec![
        obj(vec![("name", s("very-long-name-abc"))]),
        obj(vec![("name", s("very-long-name-def"))]),
        obj(vec![("name", s("very-long-name-ghi"))]),
        obj(vec![("name", s("very-long-name-jkl"))]),
    ]);
    let result = format_cell(Some(&a));
    assert!(result.ends_with("..."), "expected truncation, got: {result}");
    assert!(result.len() == 50);
}

#[test]
fn test_format_array_item_object_with_id() {
    let o = obj(vec![("id", s("abc123")), ("status", s("ok"))]);
    assert_eq!(format_array_item(&o), "abc123");
}

#[test]
fn test_format_array_item_object_prefers_name_over_id() {
    let o = obj(vec![("id", s("abc")), ("name", s("MyComp"))]);
    assert_eq!(format_array_item(&o), "MyComp");
}

#[test]
fn test_format_array_item_object_long_id() {
    let o = obj(vec![("id", s("32d06127-d03a-4da3-9ce6-41eb7bc8fd50"))]);
    let result = format_array_item(&o);
    assert!(result.ends_with("..."));
    assert_eq!(result.len(), 16);
}

#[test]
fn test_format_array_item_object_no_known_key() {
    let o = obj(vec![("foo", s("bar")), ("baz", n("1"))]);
    assert_eq!(format_array_item(&o), "{2 fields}");
}

#[test]
fn test_format_array_item_primitive() {
    assert_eq!(format_array_item(&n("42")), "42");
    assert_eq!(format_array_item(&s("hello")), "hello");
}

#[test]
fn test_format_cell_object() {
    assert_eq!(format_cell(Some(&obj(vec![("a", n("1")), ("b", n("2"))]))), "{2 fields}");
}

#[test]
fn test_flatten_row_nested_object() {
    let row = obj(vec![
        ("id", s("abc")),
        ("type", s("log")),
        ("attributes", obj(vec![("host", s("web-1")), ("status", s("info"))])),
    ]);
    let flat = flatten_row(&row);
    assert_eq!(text(at(&flat, "id")), "abc");
    assert_eq!(text(at(&flat, "type")), "log");
    assert_eq!(text(at(&flat, "attributes.host")), "web-1");
    assert_eq!(text(at(&flat, "attributes.status")), "info");
    assert!(flat.get("attributes").is_none());
}

#[test]
fn test_flatten_row_two_levels_deep() {
    let row = obj(vec![
        ("id", s("abc")),
        (
            "attributes",
            obj(vec![("host", s("web-1")), ("tags", obj(vec![("env", s("prod")), ("service", s("api"))]))]),
        ),
    ]);
    let flat = flatten_row(&row);
    assert_eq!(text(at(&flat, "id")), "abc");
    assert_eq!(text(at(&flat, "attributes.host")), "web-1");
    assert_eq!(text(at(&flat, "attributes.tags.env")), "prod");
    assert_eq!(text(at(&flat, "attributes.tags.service")), "api");
    assert!(flat.get("attributes").is_none());
    assert!(flat.get("attributes.tags").is_none());
}

#[test]
fn test_flatten_row_no_nested() {
    let row = obj(vec![("id", s("abc")), ("name", s("foo"))]);
    let flat = flatten_row(&row);
    assert_eq!(text(at(&flat, "id")), "abc");
    assert_eq!(text(at(&flat, "name")), "foo");
}

#[test]
fn test_flatten_row_non_object() {
    let val = arr(vec![n("1"), n("2"), n("3")]);
    let flat = flatten_row(&val);
    assert_eq!(flat, val);
}

#[test]
fn test_extract_rows_array() {
    let val = arr(vec![obj(vec![("id", n("1"))]), obj(vec![("id", n("2"))])]);
    assert_eq!(extract_rows(&val).len(), 2);
}

#[test]
fn test_extract_rows_data_wrapper() {
    let val = obj(vec![("data", arr(vec![obj(vec![("id", n("1"))])])), ("meta", obj(vec![]))]);
    assert_eq!(extract_rows(&val).len(), 1);
}

#[test]
fn test_extract_rows_single_object() {
    let val = obj(vec![("id", n("1")), ("name", s("test"))]);
    assert_eq!(extract_rows(&val).len(), 1);
}

#[test]
fn test_extract_rows_primitive() {
    assert!(extract_rows(&n("42")).is_empty());
}

#[test]
fn test_format_api_error_basic() {
    let msg = format_api_error("list monitors", None, None);
    assert_eq!(msg, "failed to list monitors");
}

#[test]
fn test_format_api_error_with_status() {
    let msg = format_api_error("list monitors", Some(403), None);
    assert!(msg.contains("HTTP 403"));
    assert!(msg.contains("access denied"));
}

#[test]
fn test_format_api_error_with_body() {
    let msg = format_api_error("get user", Some(404), Some("not found"));
    assert!(msg.contains("not found"));
    assert!(msg.contains("resource not found"));
}

#[test]
fn test_format_api_error_server_error() {
    let msg = format_api_error("query", Some(500), None);
    assert!(msg.contains("API server error"));
}

#[test]
fn test_format_api_error_rate_limit() {
    let msg = format_api_error("query", Some(429), None);
    assert!(msg.contains("rate limited"));
}

#[test]
fn test_format_api_error_401() {
    let msg = format_api_error("query", Some(401), None);
    assert!(msg.contains("authentication failed"));
}

#[test]
fn test_format_api_error_400() {
    let msg = format_api_error("query", Some(400), None);
    assert!(msg.contains("invalid request"));
}

#[test]
fn test_format_api_error_empty_body() {
    let msg = format_api_error("query", Some(500), Some(""));
    assert!(!msg.contains("API response:"));
}

#[test]
fn test_sort_json_value_flat_object() {
    let val = obj(vec![("z", n("1")), ("a", n("2")), ("m", n("3"))]);
    let sorted = sort_json_value(&val);
    assert_eq!(keys(&sorted), vec!["a", "m", "z"]);
}

#[test]
fn test_sort_json_value_nested_object() {
    let val = obj(vec![("b", obj(vec![("z", n("1")), ("a", n("2"))])), ("a", n("1"))]);
    let sorted = sort_json_value(&val);
    assert_eq!(keys(&sorted), vec!["a", "b"]);
    assert_eq!(keys(at(&sorted, "b")), vec!["a", "z"]);
}

#[test]
fn test_sort_json_value_array() {
    let val = arr(vec![obj(vec![("z", n("1")), ("a", n("2"))]), obj(vec![("b", n("3"))])]);
    let sorted = sort_json_value(&val);
    match &sorted {
        JsonValue::Array(items) => assert_eq!(keys(&items[0]), vec!["a", "z"]),
        other => panic!("not an array: {other:?}"),
    }
}

#[test]
fn test_sort_json_value_primitives() {
    assert_eq!(sort_json_value(&n("42")), n("42"));
    assert_eq!(sort_json_value(&s("hello")), s("hello"));
    assert_eq!(sort_json_value(&JsonValue::Bool(true)), JsonValue::Bool(true));
    assert_eq!(sort_json_value(&JsonValue::Null), JsonValue::Null);
}

#[test]
fn test_go_html_escape_ampersand() {
    assert_eq!(go_html_escape("a&b"), r"a\u0026b");
}

#[test]
fn test_go_html_escape_angle_brackets() {
    assert_eq!(go_html_escape("<div>"), r"\u003cdiv\u003e");
}

#[test]
fn test_go_html_escape_no_change() {
    assert_eq!(go_html_escape("hello world"), "hello world");
}

#[test]
fn test_go_html_escape_all_chars() {
    assert_eq!(go_html_escape("<a href=\"&\">"), r#"\u003ca href="\u0026"\u003e"#);
}

#[test]
fn test_format_and_print_json() {
    let data = obj(vec![("name", s("test"))]);
    let result = format_output(&data, &OutputFormat::Json, false, None, false);
    assert!(result.is_ok());
}

#[test]
fn test_format_and_print_yaml() {
    let data = obj(vec![("name", s("test"))]);
    let result = format_output(&data, &OutputFormat::Yaml, false, None, false);
    assert!(result.is_ok());
}

#[test]
fn test_format_and_print_table() {
    let data = arr(vec![obj(vec![("id", n("1")), ("name", s("test"))])]);
    let result = format_output(&data, &OutputFormat::Table, false, None, false);
    assert!(result.is_ok());
}

#[test]
fn test_format_and_print_agent_mode() {
    let data = obj(vec![("name", s("test"))]);
    let m = meta(Some(1), false, Some("test"), None);
    let result = format_output(&data, &OutputFormat::Json, true, Some(&m), false);
    assert!(result.is_ok());
}

#[test]
fn test_agent_envelope_injects_script_authoring_note_with_meta() {
    let data = obj(vec![("name", s("test"))]);
    let m = meta(Some(1), false, Some("monitors list"), None);
    let envelope = build_agent_envelope(&data, Some(&m));
    assert_eq!(text(at(&envelope, "status")), "success");
    assert_eq!(at(at(&envelope, "metadata"), "count"), &n("1"));
    assert_eq!(text(at(at(&envelope, "metadata"), "command")), "monitors list");
    assert_eq!(text(at(at(&envelope, "metadata"), "note")), AGENT_ENVELOPE_NOTE);
    assert!(text(at(at(&envelope, "metadata"), "note")).contains("--no-agent"));
}

#[test]
fn test_agent_envelope_injects_script_authoring_note_without_meta() {
    let data = obj(vec![("name", s("test"))]);
    let envelope = build_agent_envelope(&data, None);
    assert_eq!(text(at(at(&envelope, "metadata"), "note")), AGENT_ENVELOPE_NOTE);
    assert_eq!(text(at(&envelope, "status")), "success");
    assert_eq!(at(at(&envelope, "metadata"), "count"), &JsonValue::Null);
    assert!(text(at(at(&envelope, "metadata"), "note")).contains("--no-agent"));
}

#[test]
fn test_agent_envelope_hoists_inner_data_and_keeps_note() {
    let items = arr(vec![obj(vec![("id", n("1"))]), obj(vec![("id", n("2"))])]);
    let payload = obj(vec![("data", items.deep_clone())]);
    let envelope = build_agent_envelope(&payload, None);
    assert_eq!(at(&envelope, "data"), &items);
    assert_eq!(text(at(at(&envelope, "metadata"), "note")), AGENT_ENVELOPE_NOTE);
}

#[test]
fn test_format_and_print_agent_mode_no_meta() {
    let data = obj(vec![("name", s("test"))]);
    let result = format_output(&data, &OutputFormat::Json, true, None, false);
    assert!(result.is_ok());
}

#[test]
fn test_format_and_print_agent_mode_respects_yaml_flag() {
    let data = obj(vec![("name", s("test"))]);
    let result = format_output(&data, &OutputFormat::Yaml, true, None, false).unwrap().unwrap();
    assert!(!result.contains("status"), "yaml output must bypass the envelope: {result}");
    assert!(result.contains("name: test"), "got: {result}");
}

#[test]
fn test_format_and_print_agent_mode_respects_table_flag() {
    let data = arr(vec![obj(vec![("id", n("1")), ("name", s("test"))])]);
    let result = format_output(&data, &OutputFormat::Table, true, None, false).unwrap().unwrap();
    assert!(result.contains("test"), "got: {result}");
    assert!(!result.contains("success"), "table output must bypass the envelope: {result}");
}

#[test]
fn test_print_json_sorted() {
    let data = obj(vec![("z", n("1")), ("a", n("2"))]);
    let out = json_output(&data).unwrap();
    assert_eq!(out, "{\n  \"a\": 2,\n  \"z\": 1\n}");
}

#[test]
fn test_print_table_empty() {
    assert_eq!(format_table_to_string(&arr(vec![])), "No results found");
}

#[test]
fn test_print_table_no_rows() {
    assert_eq!(format_table_to_string(&n("42")), "No results found");
}

#[test]
fn test_format_cell_bool() {
    assert_eq!(format_cell(Some(&JsonValue::Bool(true))), "true");
    assert_eq!(format_cell(Some(&JsonValue::Bool(false))), "false");
}

#[test]
fn test_format_cell_three_item_array() {
    assert_eq!(format_cell(Some(&arr(vec![n("1"), n("2"), n("3")]))), "[1, 2, 3]");
}

#[test]
fn test_csv_escape_plain() {
    assert_eq!(csv_escape("hello"), "hello");
}

#[test]
fn test_csv_escape_with_comma() {
    assert_eq!(csv_escape("a,b"), "\"a,b\"");
}

#[test]
fn test_csv_escape_with_quotes() {
    assert_eq!(csv_escape("say \"hi\""), "\"say \"\"hi\"\"\"");
}

#[test]
fn test_csv_escape_with_newline() {
    assert_eq!(csv_escape("a\nb"), "\"a\nb\"");
}

#[test]
fn test_csv_cell_string() {
    assert_eq!(csv_cell(Some(&s("hello"))), "hello");
}

#[test]
fn test_csv_cell_null() {
    assert_eq!(csv_cell(None), "");
    assert_eq!(csv_cell(Some(&JsonValue::Null)), "");
}

#[test]
fn test_csv_cell_number() {
    assert_eq!(csv_cell(Some(&n("42"))), "42");
}

#[test]
fn test_csv_cell_bool() {
    assert_eq!(csv_cell(Some(&JsonValue::Bool(true))), "true");
}

#[test]
fn test_flatten_deep_simple() {
    let val = obj(vec![("id", s("x")), ("name", s("foo"))]);
    let mut out: Vec<(String, JsonValue)> = Vec::new();
    flatten_deep(&val, &String::new(), &mut out);
    assert_eq!(entry(&out, "id"), Some(&s("x")));
    assert_eq!(entry(&out, "name"), Some(&s("foo")));
}

#[test]
fn test_flatten_deep_nested() {
    let val = obj(vec![("a", obj(vec![("b", obj(vec![("c", n("1"))]))]))]);
    let mut out: Vec<(String, JsonValue)> = Vec::new();
    flatten_deep(&val, &String::new(), &mut out);
    assert_eq!(entry(&out, "a.b.c"), Some(&n("1")));
    assert!(entry(&out, "a").is_none());
    assert!(entry(&out, "a.b").is_none());
}

#[test]
fn test_flatten_deep_mixed() {
    let val = obj(vec![
        ("id", s("x")),
        ("attrs", obj(vec![("host", s("web")), ("tags", obj(vec![("env", s("prod"))]))])),
    ]);
    let mut out: Vec<(String, JsonValue)> = Vec::new();
    flatten_deep(&val, &String::new(), &mut out);
    assert_eq!(entry(&out, "id"), Some(&s("x")));
    assert_eq!(entry(&out, "attrs.host"), Some(&s("web")));
    assert_eq!(entry(&out, "attrs.tags.env"), Some(&s("prod")));
}

#[test]
fn test_print_csv_basic() {
    let data = arr(vec![obj(vec![("id", n("1")), ("name", s("test"))])]);
    assert_eq!(format_csv_to_string(&data), "id,name\n1,test");
}

#[test]
fn test_print_csv_empty() {
    assert_eq!(format_csv_to_string(&arr(vec![])), "");
}

#[test]
fn test_print_csv_nested() {
    let data = arr(vec![obj(vec![("id", n("1")), ("attrs", obj(vec![("host", s("web")), ("env", s("prod"))]))])]);
    assert_eq!(format_csv_to_string(&data), "attrs.env,attrs.host,id\nprod,web,1");
}

#[test]
fn test_format_and_print_csv() {
    let data = arr(vec![obj(vec![("id", n("1")), ("name", s("test"))])]);
    let result = format_output(&data, &OutputFormat::Csv, false, None, false);
    assert!(result.is_ok());
}

#[test]
fn test_output_helper() {
    let data = obj(vec![("hello", s("world"))]);
    let result = format_output(&data, &OutputFormat::Json, false, None, false);
    assert!(result.is_ok());
}

#[test]
fn test_print_table_with_priority_fields() {
    let data = arr(vec![obj(vec![
        ("id", n("1")),
        ("name", s("Test")),
        ("status", s("ok")),
        ("type", s("metric")),
        ("extra", s("val")),
    ])]);
    let (cols, cells) = table_layout(&data).unwrap();
    assert_eq!(cols, vec!["id", "name", "type", "status", "extra"]);
    assert_eq!(cells, vec![vec!["1", "Test", "metric", "ok", "val"]]);
    assert!(format_table_to_string(&data).contains("Test"));
}

#[test]
fn test_print_table_many_columns() {
    let cols: Vec<(String, JsonValue)> = (0..15).map(|i| (format!("col_{i}"), n(&i.to_string()))).collect();
    let data = arr(vec![JsonValue::Object(cols)]);
    let (headers, _) = table_layout(&data).unwrap();
    assert_eq!(headers.len(), 12);
    assert!(!format_table_to_string(&data).is_empty());
}

#[test]
fn test_tsv_escape_plain() {
    assert_eq!(tsv_escape("hello"), "hello");
}

#[test]
fn test_tsv_escape_with_tab() {
    assert_eq!(tsv_escape("a\tb"), "a\\tb");
}

#[test]
fn test_tsv_escape_no_quoting_for_comma() {
    assert_eq!(tsv_escape("a,b"), "a,b");
}

#[test]
fn test_print_tsv_basic() {
    let data = arr(vec![obj(vec![("id", n("1")), ("name", s("test"))])]);
    assert_eq!(format_tsv_to_string(&data), "id\tname\n1\ttest");
}

#[test]
fn test_print_tsv_empty() {
    assert_eq!(format_tsv_to_string(&arr(vec![])), "");
}

#[test]
fn test_print_tsv_nested() {
    let data = arr(vec![obj(vec![("id", n("1")), ("attrs", obj(vec![("host", s("web")), ("env", s("prod"))]))])]);
    assert_eq!(format_tsv_to_string(&data), "attrs.env\tattrs.host\tid\nprod\tweb\t1");
}

#[test]
fn test_format_and_print_tsv() {
    let data = arr(vec![obj(vec![("id", n("1")), ("name", s("test"))])]);
    let result = format_output(&data, &OutputFormat::Tsv, false, None, false);
    assert!(result.is_ok());
}

#[test]
fn test_strip_counts_none_meta_returns_none() {
    assert!(strip_counts_after_filter(None).is_none());
}

#[test]
fn test_strip_counts_drops_count_and_truncated() {
    let m = meta(Some(10), true, Some("monitors list"), Some("next"));
    let stripped = strip_counts_after_filter(Some(&m)).unwrap();
    assert!(stripped.count.is_none(), "count should be dropped");
    assert!(!stripped.truncated, "truncated should be cleared");
    assert_eq!(stripped.command.as_deref(), Some("monitors list"));
    assert_eq!(stripped.next_action.as_deref(), Some("next"));
}

#[test]
fn test_append_jq_note_extends_note_field() {
    let data = obj(vec![("id", n("1"))]);
    let mut envelope = build_agent_envelope(&data, None);
    let before = text(at(at(&envelope, "metadata"), "note")).to_string();
    assert!(before.contains("agent mode"), "pre-condition: {before}");
    append_jq_note(&mut envelope);
    let after = text(at(at(&envelope, "metadata"), "note"));
    assert!(after.contains(AGENT_ENVELOPE_NOTE), "the envelope note must be preserved: {after}");
    assert!(after.contains(JQ_FILTER_NOTE), "jq note must be appended: {after}");
    assert!(after.contains(".data"), "jq note must mention .data: {after}");
}

#[test]
fn test_jq_filter_path_drops_count_and_appends_note() {
    let filtered = obj(vec![("id", n("1")), ("name", s("foo"))]);
    let m = meta(Some(10), false, Some("monitors list"), None);
    let stripped = strip_counts_after_filter(Some(&m));
    let mut env = build_agent_envelope(&filtered, stripped.as_ref());
    append_jq_note(&mut env);
    assert_eq!(at(at(&env, "metadata"), "count"), &JsonValue::Null);
    assert_eq!(at(at(&env, "metadata"), "truncated"), &JsonValue::Null);
    assert_eq!(text(at(at(&env, "metadata"), "command")), "monitors list");
    let note = text(at(at(&env, "metadata"), "note"));
    assert!(note.contains(AGENT_ENVELOPE_NOTE), "the envelope note must survive: {note}");
    assert!(note.contains(JQ_FILTER_NOTE), "jq note must be appended: {note}");
    assert_eq!(text(at(&env, "status")), "success");
}

#[test]
fn test_no_jq_path_keeps_count_and_note_unchanged() {
    let data = arr(vec![obj(vec![("id", n("1"))]), obj(vec![("id", n("2"))])]);
    let m = meta(Some(2), false, Some("monitors list"), None);
    let env = build_agent_envelope(&data, Some(&m));
    assert_eq!(at(at(&env, "metadata"), "count"), &n("2"));
    let note = text(at(at(&env, "metadata"), "note"));
    assert!(!note.contains(JQ_FILTER_NOTE), "jq note must NOT appear without --jq: {note}");
    assert!(note.contains(AGENT_ENVELOPE_NOTE), "the envelope note must be present: {note}");
}

// Further cases of the library's own.

#[test]
fn sorted_keys_are_increasing_at_every_level() {
    let val = obj(vec![
        ("b", arr(vec![obj(vec![("y", n("1")), ("x", n("2"))])])),
        ("a", obj(vec![("d", n("1")), ("c", n("2"))])),
    ]);
    let sorted = sort_json_value(&val);
    assert_eq!(keys(&sorted), vec!["a", "b"]);
    assert_eq!(keys(at(&sorted, "a")), vec!["c", "d"]);
    match at(&sorted, "b") {
        JsonValue::Array(items) => assert_eq!(keys(&items[0]), vec!["x", "y"]),
        other => panic!("not an array: {other:?}"),
    }
    assert_eq!(at(at(&sorted, "a"), "d"), &n("1"));
}

#[test]
fn go_escape_leaves_no_html_specials() {
    let out = go_html_escape("<&><&>");
    assert!(!out.contains('<') && !out.contains('>') && !out.contains('&'));
    assert_eq!(out, r"\u003c\u0026\u003e\u003c\u0026\u003e");
}

#[test]
fn truncate_counts_characters() {
    assert_eq!(truncate_ellipsis("abcdef", 5), "ab...");
    assert_eq!(truncate_ellipsis("abc", 5), "abc");
    assert_eq!(truncate_ellipsis("éééééé", 5), "éé...");
}

#[test]
fn json_format_in_agent_mode_is_the_envelope() {
    let data = obj(vec![("name", s("x&y"))]);
    let out = format_value_to_string(&data, &OutputFormat::Json, true).unwrap();
    assert!(out.contains("\"status\": \"success\""), "got: {out}");
    assert!(out.contains(r"x\u0026y"), "got: {out}");
    let plain = format_value_to_string(&data, &OutputFormat::Json, false).unwrap();
    assert_eq!(plain, "{\n  \"name\": \"x\\u0026y\"\n}");
}

#[test]
fn printed_output_ends_with_newline() {
    let data = obj(vec![("a", n("1"))]);
    let out = format_output(&data, &OutputFormat::Json, false, None, false).unwrap().unwrap();
    assert_eq!(out, "{\n  \"a\": 1\n}\n");
}

#[test]
fn filtered_agent_output_carries_jq_note() {
    let data = obj(vec![("a", n("1"))]);
    let m = meta(Some(3), true, Some("c"), None);
    let out = format_output(&data, &OutputFormat::Json, true, Some(&m), true).unwrap().unwrap();
    assert!(out.contains("--jq"), "got: {out}");
    assert!(!out.contains("\"count\""), "got: {out}");
}

#[test]
fn yaml_output_is_sorted() {
    let data = obj(vec![("z", n("1")), ("a", s("b"))]);
    let out = format_value_to_string(&data, &OutputFormat::Yaml, false).unwrap();
    assert_eq!(out, "a: b\nz: 1\n");
}

#[test]
fn table_layout_absent_for_no_rows() {
    assert!(table_layout(&obj(vec![("data", arr(vec![]))])).is_none());
}

#[test]
fn truncation_without_room_for_dots_keeps_a_prefix() {
    assert_eq!(truncate_ellipsis("abcd", 2), "ab");
    assert_eq!(truncate_ellipsis("abcd", 0), "");
    assert_eq!(truncate_ellipsis("ab", 2), "ab");
    assert_eq!(truncate_ellipsis("abcd", 3), "...");
    assert_eq!(truncate_ellipsis("problème récurrent de résolution", 16), "problème récu...");
}
