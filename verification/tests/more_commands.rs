use pup::commands::llm_obs::{
    model_pricing_body, parse_feedback_items, parse_tag_filters, records_add_body, validate_choice,
    AGENT_INSIGHT_STATUSES,
};
use pup::commands::misc::status_report;
use pup::commands::monitors::{check_list_limit, list_metadata};
use pup::commands::on_call::{
    filter_pages_by_responder, is_uuid, page_has_responder, pages_list_query, pages_sort_params, parse_memberships_sort,
    parse_team_role, resolve_team_from_list, TeamMembershipsSort, UserTeamRole, PAGES_SORT_FIELDS,
};
use pup::commands::organizations::{parse_override_sort, parse_policy_sort, parse_uuid, OrgGroupPolicySortOption};
use pup::commands::profiling::{
    aggregate_body, analytics_body, breakdown_body, breakdown_filter, callgraph_body, fields_body, filter_body, list_body,
    parse_window, save_favorite_body, split_csv, timeline_body,
};
use pup::commands::skills_remote::{filter_by_tags, optional_auth_headers, session_body, skill_get_query};
use pup::commands::software_catalog::entity_matches;
use pup::commands::symdb::{
    all_indexing_complete, collect_names, format_probe_location, language_from_metadata, retry_delay, search_params,
    ProbeCollector, SymdbView,
};
use pup::commands::tag_rules::{parse_tag_rule_source, TagRuleSource};
use pup::commands::workflows::{instance_page_size, payload_source, wait_step, PayloadSource, WaitStep};
use pup::extensions::install::{
    check_install_source, check_install_target, check_remove, extension_binary_name, installed_at_text,
    local_manifest, validate_extension_name,
};
use pup::json::JsonValue;

fn s(x: &str) -> JsonValue {
    JsonValue::String(x.to_string())
}

fn n(x: &str) -> JsonValue {
    JsonValue::Number(x.to_string())
}

fn arr(items: Vec<JsonValue>) -> JsonValue {
    JsonValue::Array(items)
}

fn obj(pairs: Vec<(&str, JsonValue)>) -> JsonValue {
    JsonValue::Object(pairs.into_iter().map(|(k, v)| (k.to_string(), v)).collect())
}

fn at<'a>(v: &'a JsonValue, k: &str) -> &'a JsonValue {
    v.get(k).unwrap_or(&JsonValue::Null)
}

fn ids(doc: &JsonValue) -> Vec<String> {
    match at(doc, "data") {
        JsonValue::Array(items) => items.iter().map(|i| at(i, "id").as_str().unwrap().clone()).collect(),
        other => panic!("no data array: {other:?}"),
    }
}

fn strings(v: &[&str]) -> Vec<String> {
    v.iter().map(|x| x.to_string()).collect()
}

fn pairs(v: &[(&str, &str)]) -> Vec<(String, String)> {
    v.iter().map(|(a, b)| (a.to_string(), b.to_string())).collect()
}

// ---- on-call ----

#[test]
fn test_is_uuid_accepts_canonical() {
    assert!(is_uuid("00000000-0000-0000-0000-000000000000"));
    assert!(is_uuid("abcdef01-2345-6789-abcd-ef0123456789"));
    assert!(is_uuid("ABCDEF01-2345-6789-ABCD-EF0123456789"));
}

#[test]
fn test_is_uuid_rejects_handle() {
    assert!(!is_uuid("example-team"));
    assert!(!is_uuid("team-handle-with-dashes"));
    assert!(!is_uuid(""));
}

#[test]
fn test_is_uuid_rejects_wrong_length() {
    assert!(!is_uuid("00000000-0000-0000-0000-00000000000"));
    assert!(!is_uuid("00000000-0000-0000-0000-0000000000000"));
    assert!(!is_uuid("g0000000-0000-0000-0000-000000000000"));
    assert!(!is_uuid("000000000000000000000000000000000000"));
}

#[test]
fn test_pages_sort_params_accepts_all_fields() {
    for field in PAGES_SORT_FIELDS {
        assert!(pages_sort_params(field).is_ok());
        assert!(pages_sort_params(&format!("-{field}")).is_ok());
    }
}

#[test]
fn test_page_has_responder_matches_and_rejects() {
    let page = obj(vec![(
        "relationships",
        obj(vec![(
            "responders",
            obj(vec![(
                "data",
                arr(vec![
                    obj(vec![("id", s("user-1")), ("type", s("users"))]),
                    obj(vec![("id", s("user-2")), ("type", s("users"))]),
                ]),
            )]),
        )]),
    )]);
    assert!(page_has_responder(&page, "user-2"));
    assert!(!page_has_responder(&page, "user-3"));
}

fn page(id: &str, responder: Option<&str>) -> JsonValue {
    match responder {
        Some(r) => obj(vec![
            ("id", s(id)),
            (
                "relationships",
                obj(vec![("responders", obj(vec![("data", arr(vec![obj(vec![("id", s(r)), ("type", s("users"))])]))]))]),
            ),
        ]),
        None => obj(vec![("id", s(id))]),
    }
}

#[test]
fn test_filter_pages_by_responder() {
    let mut resp = obj(vec![(
        "data",
        arr(vec![page("page-1", Some("user-1")), page("page-2", Some("user-2")), page("page-3", None)]),
    )]);
    filter_pages_by_responder(&mut resp, "user-2");
    match at(&resp, "data") {
        JsonValue::Array(pages) => {
            assert_eq!(pages.len(), 1);
            assert_eq!(at(&pages[0], "id"), &s("page-2"));
        },
        other => panic!("no data: {other:?}"),
    }
}

#[test]
fn responder_filter_twice_changes_nothing_more() {
    let mut resp = obj(vec![
        ("meta", n("1")),
        ("data", arr(vec![page("a", Some("u")), page("b", Some("v")), page("c", Some("u"))])),
    ]);
    filter_pages_by_responder(&mut resp, "u");
    let once = resp.deep_clone();
    filter_pages_by_responder(&mut resp, "u");
    assert_eq!(resp, once);
    assert_eq!(ids(&resp), vec!["a", "c"]);
    assert_eq!(at(&resp, "meta"), &n("1"));
    let mut not_object = arr(vec![page("a", Some("u"))]);
    filter_pages_by_responder(&mut not_object, "x");
    assert_eq!(not_object, arr(vec![page("a", Some("u"))]));
}

#[test]
fn page_query_building() {
    let q = pages_list_query(Some("ops"), 100, 0, "-created_at").unwrap();
    assert_eq!(
        q,
        pairs(&[
            ("page[size]", "100"),
            ("page[current]", "1"),
            ("sort[field]", "created_at"),
            ("sort[order]", "DESC"),
            ("filter", "team:ops"),
        ])
    );
    assert_eq!(
        pages_list_query(None, 0, 1, "priority").unwrap_err(),
        "invalid page_size: 0. Expected a value from 1 to 1000"
    );
    let err = pages_list_query(None, 10, 1, "started_at").unwrap_err();
    assert!(err.contains("invalid --sort value"), "got: {err}");
    assert_eq!(pages_sort_params("priority").unwrap(), ("priority", "ASC"));
}

#[test]
fn team_roles_and_membership_sorts() {
    assert_eq!(parse_team_role("ADMIN").unwrap(), UserTeamRole::Admin);
    assert_eq!(parse_team_role("Owner").unwrap_err(), "invalid --role value: \"owner\"\nExpected: admin");
    assert_eq!(parse_memberships_sort("-email").unwrap(), TeamMembershipsSort::EmailDesc);
    assert!(parse_memberships_sort("bogus").unwrap_err().contains("invalid --sort value"));
}

#[test]
fn team_handle_resolution() {
    let teams = vec![("id-1".to_string(), "Ops".to_string()), ("id-2".to_string(), "ops-east".to_string())];
    assert_eq!(resolve_team_from_list("ops", Some(teams.clone())).unwrap(), "id-1");
    assert_eq!(
        resolve_team_from_list("ops-west", Some(teams.clone())).unwrap_err(),
        "no exact handle match for 'ops-west' (2 candidates matched substring)"
    );
    assert_eq!(resolve_team_from_list("x", Some(vec![])).unwrap_err(), "no team with handle 'x'");
    let dup = vec![("a".to_string(), "t".to_string()), ("b".to_string(), "T".to_string())];
    assert!(resolve_team_from_list("t", Some(dup)).unwrap_err().starts_with("no exact handle match"));
    assert!(resolve_team_from_list("t", None).unwrap_err().contains("'data' field missing"));
}

// ---- organizations ----

#[test]
fn uuid_arguments() {
    assert_eq!(parse_uuid("group-id", "00000000-0000-0000-0000-000000000001").unwrap(), 1);
    let err = parse_uuid("group-id", "nope").unwrap_err();
    assert!(err.starts_with("invalid group-id 'nope': "), "got: {err}");
}

#[test]
fn organization_sorts() {
    assert_eq!(parse_policy_sort("-name").unwrap(), OrgGroupPolicySortOption::NameDesc);
    assert_eq!(parse_policy_sort("x").unwrap_err(), "invalid sort 'x' — use one of: id, -id, name, -name");
    assert!(parse_override_sort("org_uuid").is_ok());
    assert!(parse_override_sort("name").is_err());
}

// ---- llm-obs ----

#[test]
fn test_parse_tag_filters() {
    let map = parse_tag_filters(&strings(&["env:prod", "svc:api:v2"])).unwrap();
    let m = JsonValue::Object(map);
    assert_eq!(at(&m, "env"), &s("prod"));
    assert_eq!(at(&m, "svc"), &s("api:v2"));
    assert!(parse_tag_filters(&vec![]).unwrap().is_empty());
    assert!(parse_tag_filters(&strings(&["nocolon"])).is_err());
    assert!(parse_tag_filters(&strings(&[":novalue"])).is_err());
    assert!(parse_tag_filters(&strings(&["nokey:"])).is_err());
}

#[test]
fn repeated_tag_key_keeps_one_entry() {
    let map = parse_tag_filters(&strings(&["a:1", "b:2", "a:3"])).unwrap();
    assert_eq!(map, vec![("a".to_string(), s("3")), ("b".to_string(), s("2"))]);
}

#[test]
fn test_parse_feedback_items_with_and_without_reasoning() {
    let items =
        parse_feedback_items(&strings(&["insight=useful=helped narrow the retry loop", "fix_with_agent=not_useful"]))
            .expect("valid entries should parse");
    assert_eq!(
        items,
        vec![
            obj(vec![
                ("target_key", s("insight")),
                ("usefulness", s("useful")),
                ("reasoning", s("helped narrow the retry loop")),
            ]),
            obj(vec![("target_key", s("fix_with_agent")), ("usefulness", s("not_useful"))]),
        ]
    );
}

#[test]
fn test_parse_feedback_items_keeps_colons_in_target_key() {
    let items = parse_feedback_items(&strings(&[
        "suggested_evaluator:change-ranker-temporal-gate=somewhat_useful=ok, but a=b was off",
    ]))
    .expect("colon-bearing target key should parse");
    assert_eq!(
        items,
        vec![obj(vec![
            ("target_key", s("suggested_evaluator:change-ranker-temporal-gate")),
            ("usefulness", s("somewhat_useful")),
            ("reasoning", s("ok, but a=b was off")),
        ])]
    );
}

#[test]
fn test_parse_feedback_items_rejects_bad_input() {
    assert!(parse_feedback_items(&vec![]).is_err(), "empty feedback should be rejected");
    assert!(parse_feedback_items(&strings(&["insight"])).is_err(), "missing usefulness should be rejected");
    assert!(parse_feedback_items(&strings(&["=useful"])).is_err(), "empty target key should be rejected");
    assert!(parse_feedback_items(&strings(&["insight=very_useful"])).is_err(), "unknown usefulness should be rejected");
    assert!(parse_feedback_items(&strings(&["insight:useful"])).is_err(), "colon instead of = should be rejected");
    let too_many: Vec<String> = (0..26).map(|i| format!("target-{i}=useful")).collect();
    assert!(parse_feedback_items(&too_many).is_err(), "more than 25 entries should be rejected");
    assert!(parse_feedback_items(&too_many[..25].to_vec()).is_ok(), "exactly 25 entries should be accepted");
}

#[test]
fn feedback_error_texts() {
    assert_eq!(
        parse_feedback_items(&strings(&["k=meh"])).unwrap_err(),
        "--feedback usefulness must be one of useful, somewhat_useful, not_useful, got 'meh'"
    );
    let too_many: Vec<String> = (0..26).map(|i| format!("t{i}=useful")).collect();
    assert_eq!(parse_feedback_items(&too_many).unwrap_err(), "--feedback accepts at most 25 entries, got 26");
    assert_eq!(parse_feedback_items(&strings(&["k=useful="])).unwrap(), vec![obj(vec![
        ("target_key", s("k")),
        ("usefulness", s("useful")),
    ])]);
}

#[test]
fn choices() {
    assert!(validate_choice("--status", "completed", &AGENT_INSIGHT_STATUSES).is_ok());
    assert_eq!(
        validate_choice("--status", "done", &AGENT_INSIGHT_STATUSES).unwrap_err(),
        "--status must be one of for_review, in_progress, completed, ignored, got 'done'"
    );
}

#[test]
fn pricing_and_records_bodies() {
    assert!(model_pricing_body(None, None, Some(5), None).is_err());
    let b = model_pricing_body(None, Some("gpt".into()), Some(5), None).unwrap();
    assert_eq!(b, obj(vec![("model", s("gpt")), ("limit", n("5"))]));
    assert!(records_add_body("p", "d", arr(vec![]), true, None).is_err());
    assert!(records_add_body("p", "d", obj(vec![]), true, None).is_err());
    let r = records_add_body("p", "d", arr(vec![n("1")]), false, Some(true)).unwrap();
    assert_eq!(
        r,
        obj(vec![
            ("project_id", s("p")),
            ("dataset_id", s("d")),
            ("records", arr(vec![n("1")])),
            ("confirmed", JsonValue::Bool(false)),
            ("create_new_version", JsonValue::Bool(true)),
        ])
    );
}

// ---- skills ----

fn sample_catalog() -> JsonValue {
    let skill = |id: &str, tags: Option<Vec<&str>>| {
        obj(vec![
            ("id", s(id)),
            (
                "attributes",
                obj(vec![(
                    "tags",
                    match tags {
                        Some(t) => arr(t.into_iter().map(s).collect()),
                        None => JsonValue::Null,
                    },
                )]),
            ),
        ])
    };
    obj(vec![(
        "data",
        arr(vec![
            skill("agent-install-docker", Some(vec!["agent", "docker", "container"])),
            skill("aws-integration-setup", Some(vec!["integration", "aws"])),
            skill("orchestrator", Some(vec!["orchestrator"])),
            skill("untagged", None),
        ]),
    )])
}

#[test]
fn filter_by_tags_single_tag() {
    let mut doc = sample_catalog();
    filter_by_tags(&mut doc, &strings(&["docker"]));
    assert_eq!(ids(&doc), vec!["agent-install-docker"]);
}

#[test]
fn filter_by_tags_requires_all_tags() {
    let mut doc = sample_catalog();
    filter_by_tags(&mut doc, &strings(&["agent", "container"]));
    assert_eq!(ids(&doc), vec!["agent-install-docker"]);
    let mut doc = sample_catalog();
    filter_by_tags(&mut doc, &strings(&["agent", "aws"]));
    assert!(ids(&doc).is_empty());
}

#[test]
fn filter_by_tags_excludes_skills_without_tags() {
    let mut doc = sample_catalog();
    filter_by_tags(&mut doc, &strings(&["orchestrator"]));
    assert_eq!(ids(&doc), vec!["orchestrator"]);
    let mut doc = sample_catalog();
    filter_by_tags(&mut doc, &strings(&["agent"]));
    assert!(!ids(&doc).contains(&"untagged".to_string()));
}

#[test]
fn skill_fetch_query_and_session_body() {
    assert_eq!(
        skill_get_query("s1", Some("install"), Some("run-9"), Some(42)).unwrap(),
        pairs(&[("intent", "install"), ("onboarding_run_id", "run-9"), ("org_id", "42"), ("format", "md")])
    );
    assert_eq!(skill_get_query("  ", None, None, None).unwrap_err(), "skill_id must not be empty");
    assert_eq!(
        skill_get_query("s", Some("learn"), None, None).unwrap_err(),
        "invalid intent 'learn'; expected one of: explore, install, reference"
    );
    assert_eq!(
        session_body("sess", &vec![], "", "failed").unwrap_err(),
        "at least one --skill-id is required when status is 'failed'"
    );
    assert_eq!(session_body("sess", &strings(&[" "]), "", "in_progress").unwrap_err(), "--skill-id must not be empty");
    assert!(session_body("sess", &vec![], "", "nope").unwrap_err().starts_with("invalid status 'nope'"));
    let body = session_body("sess", &strings(&["a"]), "sum", "completed").unwrap();
    assert_eq!(
        body,
        obj(vec![(
            "data",
            obj(vec![
                ("type", s("onboarding_session")),
                ("id", s("sess")),
                (
                    "attributes",
                    obj(vec![("skill_ids", arr(vec![s("a")])), ("summary", s("sum")), ("status", s("completed"))]),
                ),
            ]),
        )])
    );
}

#[test]
fn optional_credentials() {
    assert_eq!(optional_auth_headers(Some("t"), Some("k"), Some("a")), pairs(&[("Authorization", "Bearer t")]));
    assert_eq!(
        optional_auth_headers(None, Some("k"), Some("a")),
        pairs(&[("DD-API-KEY", "k"), ("DD-APPLICATION-KEY", "a")])
    );
    assert!(optional_auth_headers(None, Some("k"), None).is_empty());
}

// ---- symdb ----

fn scopes_item(names: &[&str]) -> JsonValue {
    obj(vec![(
        "attributes",
        obj(vec![("scopes", arr(names.iter().map(|nm| obj(vec![("scope", obj(vec![("name", s(nm))]))])).collect()))]),
    )])
}

#[test]
fn test_collect_names_empty() {
    assert!(collect_names(&obj(vec![("data", arr(vec![]))])).is_empty());
}

#[test]
fn test_collect_names_extracts_scope_names() {
    let data = obj(vec![("data", arr(vec![scopes_item(&["com.example.Foo", "com.example.Bar"])]))]);
    assert_eq!(collect_names(&data), vec!["com.example.Foo", "com.example.Bar"]);
}

#[test]
fn test_collect_names_deduplicates_across_versions() {
    let data = obj(vec![(
        "data",
        arr(vec![
            scopes_item(&["com.example.Foo", "com.example.Bar"]),
            scopes_item(&["com.example.Bar", "com.example.Baz"]),
        ]),
    )]);
    assert_eq!(collect_names(&data), vec!["com.example.Foo", "com.example.Bar", "com.example.Baz"]);
}

#[test]
fn test_collect_names_missing_data_key() {
    assert!(collect_names(&obj(vec![("other", s("stuff"))])).is_empty());
}

fn symbol(kind: &str, name: &str, ty: &str) -> JsonValue {
    obj(vec![("symbol_type", s(kind)), ("name", s(name)), ("type", s(ty))])
}

#[test]
fn test_format_probe_location_with_args() {
    let scope = obj(vec![(
        "scope",
        obj(vec![(
            "symbols",
            arr(vec![symbol("ARG", "a", "int"), symbol("ARG", "b", "java.lang.String"), symbol("LOCAL", "tmp", "int")]),
        )]),
    )]);
    assert_eq!(format_probe_location(&scope, "com.example.Foo", "bar"), "com.example.Foo:bar(int, java.lang.String)");
}

#[test]
fn test_format_probe_location_no_args() {
    let scope = obj(vec![("scope", obj(vec![("symbols", arr(vec![symbol("LOCAL", "tmp", "int")]))]))]);
    assert_eq!(format_probe_location(&scope, "com.example.Foo", "bar"), "com.example.Foo:bar");
}

#[test]
fn test_format_probe_location_no_symbols() {
    assert_eq!(format_probe_location(&obj(vec![]), "com.example.Foo", "bar"), "com.example.Foo:bar");
}

#[test]
fn test_format_probe_location_empty_symbols() {
    let scope = obj(vec![("scope", obj(vec![("symbols", arr(vec![]))]))]);
    assert_eq!(format_probe_location(&scope, "com.example.Foo", "bar"), "com.example.Foo:bar");
}

fn status_doc(statuses: &[Option<&str>]) -> JsonValue {
    obj(vec![(
        "data",
        arr(statuses
            .iter()
            .map(|st| match st {
                Some(x) => obj(vec![("attributes", obj(vec![("indexing_status", s(x))]))]),
                None => obj(vec![("attributes", obj(vec![]))]),
            })
            .collect()),
    )])
}

#[test]
fn test_all_indexing_complete() {
    assert!(all_indexing_complete(&status_doc(&[Some("COMPLETED")])));
    assert!(all_indexing_complete(&status_doc(&[Some("SOME_FAILED")])));
    assert!(all_indexing_complete(&status_doc(&[Some("ALL_FAILED")])));
    assert!(all_indexing_complete(&status_doc(&[Some("NO_ATTACHMENTS")])));
    assert!(!all_indexing_complete(&status_doc(&[Some("PROCESSING")])));
    assert!(!all_indexing_complete(&status_doc(&[Some("REQUESTED")])));
    assert!(!all_indexing_complete(&status_doc(&[Some("PENDING")])));
    assert!(!all_indexing_complete(&status_doc(&[Some("COMPLETED"), Some("PROCESSING")])));
    assert!(all_indexing_complete(&status_doc(&[])));
    assert!(all_indexing_complete(&obj(vec![])));
    assert!(all_indexing_complete(&status_doc(&[None])));
}

#[test]
fn test_symdb_view_display() {
    assert_eq!(SymdbView::Full.to_string(), "full");
    assert_eq!(SymdbView::Names.to_string(), "names");
    assert_eq!(SymdbView::ProbeLocations.to_string(), "probe-locations");
}

fn probe_scope(t: &str, m: &str) -> JsonValue {
    obj(vec![
        ("scope", obj(vec![("scope_type", s("METHOD"))])),
        ("probe_location", obj(vec![("type_name", s(t)), ("method_name", s(m))])),
    ])
}

fn class_scope(id: &str) -> JsonValue {
    obj(vec![("scope", obj(vec![("scope_type", s("CLASS")), ("id", s(id))])), ("probe_location", JsonValue::Null)])
}

fn scopes_doc(scopes: Vec<JsonValue>) -> JsonValue {
    obj(vec![("data", arr(vec![obj(vec![("attributes", obj(vec![("scopes", arr(scopes))]))])]))])
}

#[test]
fn probe_collector_reports_each_location_once() {
    let mut c = ProbeCollector::new();
    let data = scopes_doc(vec![probe_scope("A", "f"), probe_scope("A", "f"), class_scope("c1"), class_scope("c1")]);
    let (lines, classes) = c.collect_scopes(&data);
    assert_eq!(lines, vec!["A:f"]);
    assert_eq!(classes, vec!["c1"]);
    let (again, classes_again) = c.collect_scopes(&data);
    assert!(again.is_empty());
    assert!(classes_again.is_empty());
    let children = vec![Some(scopes_doc(vec![probe_scope("A", "f"), probe_scope("A", "g"), class_scope("c2")])), None];
    assert_eq!(c.collect_children(&children), vec!["A:g"]);
}

#[test]
fn retry_policy() {
    assert_eq!(retry_delay(Some(502), 0), Some(1000));
    assert_eq!(retry_delay(Some(504), 2), Some(4000));
    assert_eq!(retry_delay(Some(503), 3), None);
    assert_eq!(retry_delay(Some(500), 0), None);
    assert_eq!(retry_delay(None, 0), None);
}

#[test]
fn search_query_and_language() {
    assert_eq!(
        search_params("svc", "Foo", Some("1.2"), true),
        pairs(&[("service", "svc"), ("query", "Foo"), ("allow_partial", "true"), ("version", "1.2")])
    );
    let meta = obj(vec![("data", arr(vec![obj(vec![("attributes", obj(vec![("language", s("java"))]))])]))]);
    assert_eq!(language_from_metadata(&meta, "svc").unwrap(), "java");
    assert_eq!(
        language_from_metadata(&obj(vec![("data", arr(vec![]))]), "svc").unwrap_err(),
        "could not detect language for service svc"
    );
}

// ---- profiling ----

#[test]
fn comma_separated_values() {
    assert_eq!(split_csv("--group-by", None).unwrap(), Vec::<String>::new());
    assert_eq!(split_csv("--group-by", Some(" a, ,b ,".into())).unwrap(), vec!["a", "b"]);
    assert_eq!(
        split_csv("--compute", Some(" , ".into())).unwrap_err(),
        "--compute was provided but contained no non-empty values: \" , \""
    );
}

#[test]
fn profiling_window_and_bodies() {
    let (f, t) = parse_window("1h", "now", Ok(0), Ok(1500)).unwrap();
    assert_eq!(f, "1970-01-01T00:00:00+00:00");
    assert_eq!(t, "1970-01-01T00:00:01.500+00:00");
    assert_eq!(parse_window("x", "now", Err("bad".into()), Ok(0)).unwrap_err(), "invalid --from value: bad");
    let err = parse_window("1h", "y", Ok(0), Ok(i64::MAX)).unwrap_err();
    assert!(err.starts_with("--to \"y\" resolved to 9223372036854775807 ms"), "got: {err}");
    assert_eq!(
        filter_body("q", "F", "T"),
        obj(vec![("filter", obj(vec![("from", s("F")), ("to", s("T")), ("query", s("q"))]))])
    );
    let b = analytics_body("q", Ok(("F".into(), "T".into())), 10, Some("host".into()), None).unwrap();
    assert_eq!(
        b,
        obj(vec![
            ("filter", obj(vec![("from", s("F")), ("to", s("T")), ("query", s("q"))])),
            ("limit", n("10")),
            ("groupBy", arr(vec![s("host")])),
        ])
    );
    assert!(analytics_body("q", Ok(("F".into(), "T".into())), 1, Some(",".into()), None).is_err());
}

// ---- monitors, tag rules, workflows, catalog, misc ----

#[test]
fn monitor_listing_checks() {
    assert!(check_list_limit(1000).is_ok());
    assert_eq!(check_list_limit(0).unwrap_err(), "--limit must be between 1 and 1000, got 0");
    assert!(list_metadata(0).is_none());
    let m = list_metadata(3).unwrap();
    assert_eq!(m.count, Some(3));
    assert_eq!(m.command.as_deref(), Some("monitors list"));
}

#[test]
fn tag_rule_sources() {
    assert_eq!(parse_tag_rule_source("rum").unwrap(), TagRuleSource::Rum);
    assert_eq!(
        parse_tag_rule_source("apm").unwrap_err(),
        "unknown source 'apm'; valid values: logs, spans, metrics, rum, feed"
    );
}

#[test]
fn workflow_decisions() {
    assert!(payload_source(true, true).is_err());
    assert_eq!(payload_source(false, true).unwrap(), PayloadSource::File);
    assert_eq!(wait_step(""), WaitStep::Continue);
    assert_eq!(wait_step("IN_PROGRESS"), WaitStep::Continue);
    assert_eq!(wait_step("SUCCEEDED"), WaitStep::Done);
    assert_eq!(instance_page_size(0), 1);
    assert_eq!(instance_page_size(500), 100);
    assert_eq!(instance_page_size(20), 20);
}

#[test]
fn catalog_name_filter() {
    assert!(entity_matches(Some("Payments-API"), "api"));
    assert!(!entity_matches(Some("web"), "api"));
    assert!(!entity_matches(None, "api"));
}

#[test]
fn status_without_credentials() {
    assert_eq!(status_report(false), obj(vec![("message", s("no credentials configured")), ("status", s("unauthenticated"))]));
    assert_eq!(at(&status_report(true), "status"), &s("ok"));
}

// ---- extensions ----

#[test]
fn test_validate_name_valid() {
    assert!(validate_extension_name("hello").is_ok());
    assert!(validate_extension_name("my-tool").is_ok());
    assert!(validate_extension_name("tool2").is_ok());
    assert!(validate_extension_name("a").is_ok());
}

#[test]
fn test_validate_name_empty() {
    assert!(validate_extension_name("").is_err());
}

#[test]
fn test_validate_name_starts_with_digit() {
    assert!(validate_extension_name("2tool").is_err());
}

#[test]
fn test_validate_name_uppercase() {
    assert!(validate_extension_name("Hello").is_err());
}

#[test]
fn test_validate_name_special_chars() {
    assert!(validate_extension_name("my_tool").is_err());
    assert!(validate_extension_name("my.tool").is_err());
}

#[test]
fn test_validate_name_builtin_conflict() {
    assert!(validate_extension_name("monitors").is_err());
    assert!(validate_extension_name("extension").is_err());
    assert!(validate_extension_name("help").is_err());
    assert!(validate_extension_name("version").is_err());
}

#[test]
fn extension_name_error_texts() {
    assert_eq!(
        validate_extension_name("my_tool").unwrap_err(),
        "extension name 'my_tool' contains invalid character '_' (only lowercase letters, digits, and hyphens allowed)"
    );
    assert_eq!(validate_extension_name("Hello").unwrap_err(), "extension name must start with a lowercase letter, got 'Hello'");
    assert_eq!(
        validate_extension_name("help").unwrap_err(),
        "'help' conflicts with a built-in pup command and cannot be used as an extension name"
    );
}

#[test]
fn install_and_remove_checks() {
    assert_eq!(check_install_source("tool", "/tmp/x", false).unwrap_err(), "source file does not exist: /tmp/x");
    assert!(check_install_source("tool", "/tmp/x", true).is_ok());
    assert_eq!(
        check_install_target("tool", true, false).unwrap_err(),
        "extension 'tool' is already installed (use --force to overwrite)"
    );
    assert_eq!(check_install_target("tool", true, true).unwrap(), true);
    assert_eq!(check_install_target("tool", false, false).unwrap(), false);
    assert_eq!(check_remove("tool", false).unwrap_err(), "extension 'tool' is not installed");
    assert_eq!(extension_binary_name("tool", true), "pup-tool.exe");
    assert_eq!(installed_at_text(1700000000).unwrap(), "2023-11-14T22:13:20Z");
    assert_eq!(installed_at_text(0).unwrap(), "1970-01-01T00:00:00Z");
    assert_eq!(installed_at_text(u64::MAX), None);
    let m = local_manifest("tool", true, "/src", "2023-11-14T22:13:20Z".into(), "pup-tool".into(), None, "1.0");
    assert_eq!(m.source, "local-link:/src");
    assert_eq!(m.version, "unknown");
    assert_eq!(m.description, "");
}

// ---- span search, dataset paging, findings, RUM window ----

use pup::commands::llm_obs::{events_query_body, records_query_body, EventQuery, RecordQuery, insights_list_body, span_summary, spans_search_body, PageOutcome, RecordsPager, SpanFilters};
use pup::commands::rum::rum_window;
use pup::commands::security::{findings_failure_lines, findings_query_warning};

fn no_filters() -> SpanFilters {
    SpanFilters {
        query: None,
        tags: None,
        trace_id: None,
        apm_trace_id: None,
        span_id: None,
        span_kind: None,
        span_name: None,
        ml_app: None,
    }
}

#[test]
fn span_search_body_fields_in_order() {
    let f = SpanFilters { query: Some("q".into()), tags: Some(strings(&["env:prod"])), ml_app: Some("app".into()), ..no_filters() };
    let b = spans_search_body(f, true, Ok(1), Ok(2), 50, Some("c".into())).unwrap();
    assert_eq!(
        b,
        obj(vec![
            ("limit", n("50")),
            ("root_spans_only", JsonValue::Bool(true)),
            ("query", s("q")),
            ("tags", obj(vec![("env", s("prod"))])),
            ("ml_app", s("app")),
            ("from", s("1")),
            ("to", s("2")),
            ("cursor", s("c")),
        ])
    );
    let bad_tags = SpanFilters { tags: Some(strings(&["x"])), ..no_filters() };
    assert!(spans_search_body(bad_tags, false, Err("e".into()), Ok(0), 1, None).unwrap_err().starts_with("--tags entries"));
    assert_eq!(spans_search_body(no_filters(), false, Ok(0), Err("late".into()), 1, None).unwrap_err(), "invalid --to value: late");
}

#[test]
fn span_summary_keeps_listed_fields() {
    let resp = obj(vec![("spans", arr(vec![obj(vec![("span_id", s("1")), ("extra", s("x")), ("status", s("ok"))])]))]);
    let out = span_summary(&resp);
    let spans = match at(&out, "spans") {
        JsonValue::Array(a) => a.clone(),
        other => panic!("no spans: {other:?}"),
    };
    assert_eq!(spans.len(), 1);
    assert_eq!(at(&spans[0], "span_id"), &s("1"));
    assert_eq!(at(&spans[0], "status"), &s("ok"));
    assert_eq!(at(&spans[0], "parent_id"), &JsonValue::Null);
    assert!(spans[0].get("extra").is_none());
    assert_eq!(span_summary(&obj(vec![])), obj(vec![("spans", arr(vec![]))]));
}

#[test]
fn dataset_paging_stops_on_empty_or_repeated_cursor() {
    let mut p = RecordsPager::new();
    assert_eq!(p.page_query(None), pairs(&[("page[limit]", "100")]));
    let page1 = obj(vec![("data", arr(vec![n("1"), n("2")])), ("meta", obj(vec![("after", s("c1"))]))]);
    assert!(matches!(p.take_page(&page1), PageOutcome::More));
    assert_eq!(p.page_query(Some(5)), pairs(&[("page[limit]", "5"), ("page[cursor]", "c1")]));
    let page2 = obj(vec![("data", arr(vec![n("3")])), ("meta", obj(vec![("after", s("c1"))]))]);
    assert!(matches!(p.take_page(&page2), PageOutcome::Done));
    let out = p.full_list("ds");
    assert_eq!(at(&out, "records"), &arr(vec![n("1"), n("2"), n("3")]));
    assert_eq!(at(&out, "returned"), &n("3"));
    assert_eq!(at(&out, "pages_fetched"), &n("2"));
    let mut q = RecordsPager::new();
    assert!(matches!(q.take_page(&obj(vec![("data", arr(vec![]))])), PageOutcome::Done));
}

#[test]
fn dataset_paging_is_capped() {
    let mut p = RecordsPager::new();
    p.pages = 199;
    let page = obj(vec![("data", arr(vec![n("1")])), ("meta", obj(vec![("after", s("next"))]))]);
    match p.take_page(&page) {
        PageOutcome::Capped(w) => assert_eq!(w, "warning: stopped after 200 pages (1 records); the dataset may have more"),
        _ => panic!("expected the cap"),
    }
}

#[test]
fn findings_hints() {
    assert!(findings_query_warning("SELECT * FROM dd.security_findings()").is_none());
    assert!(findings_query_warning("SELECT 1").unwrap().contains("pup ddsql table"));
    let lines = findings_failure_lines("HTTP 400 Bad Request");
    assert_eq!(lines.len(), 11);
    assert_eq!(lines[0], "Error: Invalid query. Check that:");
    assert_eq!(lines[10], "Raw API error: HTTP 400 Bad Request");
    assert_eq!(
        findings_failure_lines("timeout"),
        vec!["Hint: run `pup security findings schema` to see available fields and types."]
    );
}

#[test]
fn rum_window_texts() {
    assert_eq!(rum_window(0, 1000).unwrap(), ("1970-01-01T00:00:00+00:00".to_string(), "1970-01-01T00:00:01+00:00".to_string()));
    assert_eq!(rum_window(i64::MIN, 0).unwrap_err(), "--from value -9223372036854775808ms is out of representable range");
}

#[test]
fn insight_listing_body() {
    let b = insights_list_body(Some("app".into()), Some("completed".into()), None, Some(3), None).unwrap();
    assert_eq!(b, obj(vec![("ml_app", s("app")), ("status", s("completed")), ("limit", n("3"))]));
    assert!(insights_list_body(None, Some("stale".into()), None, None, None).unwrap_err().starts_with("--status must be one of"));
    assert_eq!(insights_list_body(None, None, None, None, None).unwrap(), obj(vec![]));
}

#[test]
fn profiling_bodies() {
    let filter = obj(vec![("from", s("F")), ("to", s("T")), ("query", s("q"))]);
    assert_eq!(
        callgraph_body("q", "F", "T", "cpu", 5),
        obj(vec![("filter", filter.deep_clone()), ("profileType", s("cpu")), ("limit", n("5"))])
    );
    assert_eq!(
        fields_body("q", "F", "T", "host", 5),
        obj(vec![("filter", filter.deep_clone()), ("fieldName", s("host")), ("limit", n("5"))])
    );
    assert_eq!(
        save_favorite_body("q", "F", "T", "id1", 5),
        obj(vec![("filter", filter.deep_clone()), ("queryId", s("id1")), ("limit", n("5"))])
    );
    assert_eq!(
        list_body("q", "F", "T", Some("duration"), "desc", 5),
        obj(vec![
            ("filter", filter.deep_clone()),
            ("limit", n("5")),
            ("sort", obj(vec![("field", s("duration")), ("order", s("desc"))])),
        ])
    );
    assert_eq!(list_body("q", "F", "T", None, "desc", 5), obj(vec![("filter", filter.deep_clone()), ("limit", n("5"))]));
    assert_eq!(
        aggregate_body("cpu", "q", "F", "T", 3, "sum"),
        obj(vec![
            ("profileType", s("cpu")),
            ("query", s("q")),
            ("from", s("F")),
            ("to", s("T")),
            ("limit", n("3")),
            ("aggregationFunction", s("sum")),
        ])
    );
    assert_eq!(breakdown_filter(true, true, true).unwrap(), true);
    assert_eq!(breakdown_filter(false, false, false).unwrap(), false);
    assert!(breakdown_filter(true, false, true).is_err());
    assert_eq!(
        breakdown_body("p1", Some(("q", "F", "T"))),
        obj(vec![("profileIds", arr(vec![s("p1")])), ("filter", filter)])
    );
    assert_eq!(
        timeline_body("p", "e"),
        obj(vec![("profile-ids", arr(vec![s("p")])), ("event-ids", arr(vec![s("e")])), ("archivalContext", s(""))])
    );
}

#[test]
fn dataset_and_experiment_bodies() {
    let q = RecordQuery {
        record_ids: Some(strings(&["r1"])),
        tags: None,
        canonical_id: None,
        dataset_version: Some(-2),
        cursor: None,
        compute_schema: Some(false),
    };
    assert_eq!(
        records_query_body("p", "d", 10, q),
        obj(vec![
            ("project_id", s("p")),
            ("dataset_id", s("d")),
            ("limit", n("10")),
            ("record_ids", arr(vec![s("r1")])),
            ("dataset_version", n("-2")),
            ("compute_schema", JsonValue::Bool(false)),
        ])
    );
    let e = EventQuery {
        filter_dimension_key: Some("k".into()),
        filter_dimension_value: None,
        filter_metric_label: None,
        sort_by_metric: Some("m".into()),
    };
    assert_eq!(
        events_query_body("x", 1, 2, "asc", e),
        obj(vec![
            ("experiment_id", s("x")),
            ("limit", n("1")),
            ("offset", n("2")),
            ("sort_direction", s("asc")),
            ("filter_dimension_key", s("k")),
            ("sort_by_metric_label", s("m")),
        ])
    );
}

use pup::commands::llm_obs::{missing_spans, missing_spans_warning, trace_tool_body, trace_tool_failure, trace_tool_path, TraceTool};

#[test]
fn trace_body_for_get_trace() {
    let b = trace_tool_body(&TraceTool::GetTrace { include_tree: false }, "t-1", Ok(1000), Ok(2000)).unwrap();
    assert_eq!(b, obj(vec![("trace_id", s("t-1")), ("from", s("1000")), ("to", s("2000"))]));
    let t = trace_tool_body(&TraceTool::GetTrace { include_tree: true }, "t-1", Ok(-5), Ok(0)).unwrap();
    assert_eq!(t, obj(vec![("trace_id", s("t-1")), ("include_tree", JsonValue::Bool(true)), ("from", s("-5")), ("to", s("0"))]));
    assert_eq!(trace_tool_path(&TraceTool::GetTrace { include_tree: true }), "/api/unstable/llm-obs-mcp/v1/trace/get-trace");
    assert_eq!(trace_tool_failure(&TraceTool::GetTrace { include_tree: true }), "failed to get trace");
}

#[test]
fn trace_body_window_errors_in_order() {
    let tool = TraceTool::FindErrorSpans;
    assert_eq!(
        trace_tool_body(&tool, "t-1", Err("not-a-time".into()), Err("late".into())).unwrap_err(),
        "invalid --from value: not-a-time"
    );
    assert_eq!(trace_tool_body(&tool, "t-1", Ok(1), Err("late".into())).unwrap_err(), "invalid --to value: late");
    assert_eq!(trace_tool_path(&tool), "/api/unstable/llm-obs-mcp/v1/trace/find-error-spans");
}

#[test]
fn trace_body_for_span_tools() {
    let details = TraceTool::SpanDetails { span_ids: strings(&["s-1", "s-2"]) };
    assert_eq!(
        trace_tool_body(&details, "t-1", Ok(1), Ok(2)).unwrap(),
        obj(vec![("trace_id", s("t-1")), ("span_ids", arr(vec![s("s-1"), s("s-2")])), ("from", s("1")), ("to", s("2"))])
    );
    let content = TraceTool::SpanContent {
        span_id: "s-1".into(),
        field: "input".into(),
        path: Some("messages.0".into()),
        max_tokens: Some(500),
    };
    assert_eq!(
        trace_tool_body(&content, "t-1", Ok(1), Ok(2)).unwrap(),
        obj(vec![
            ("trace_id", s("t-1")),
            ("span_id", s("s-1")),
            ("field", s("input")),
            ("path", s("messages.0")),
            ("max_tokens", n("500")),
            ("from", s("1")),
            ("to", s("2")),
        ])
    );
    let expand = TraceTool::ExpandSpans { span_ids: strings(&["s-1"]), max_depth: Some(3), filter_kind: Some("llm".into()) };
    assert_eq!(
        trace_tool_body(&expand, "t-1", Ok(1), Ok(2)).unwrap(),
        obj(vec![
            ("trace_id", s("t-1")),
            ("span_ids", arr(vec![s("s-1")])),
            ("max_depth", n("3")),
            ("filter_kind", s("llm")),
            ("from", s("1")),
            ("to", s("2")),
        ])
    );
    let agent = TraceTool::AgentLoop { loop_span_id: None, max_content_length: Some(100) };
    assert_eq!(
        trace_tool_body(&agent, "t-1", Ok(1), Ok(2)).unwrap(),
        obj(vec![("trace_id", s("t-1")), ("max_content_length", n("100")), ("from", s("1")), ("to", s("2"))])
    );
    assert_eq!(trace_tool_path(&agent), "/api/unstable/llm-obs-mcp/v1/trace/get-agent-loop");
    assert_eq!(trace_tool_failure(&expand), "failed to expand spans");
    assert_eq!(trace_tool_failure(&content), "failed to get span content");
}

#[test]
fn span_details_missing_warning() {
    let one = obj(vec![("spans", arr(vec![obj(vec![("span_id", s("s-1"))])]))]);
    assert_eq!(missing_spans(2, &one), 1);
    assert_eq!(
        missing_spans_warning(2, &one).unwrap(),
        "warning: 1 of 2 requested span(s) not found in trace hierarchy \u{2014} the span may exist but be orphaned (no path to a root span). Use 'spans get-content' to retrieve its content directly."
    );
    let two = obj(vec![("spans", arr(vec![obj(vec![("span_id", s("s-1"))]), obj(vec![("span_id", s("s-2"))])]))]);
    assert_eq!(missing_spans(2, &two), 0);
    assert_eq!(missing_spans_warning(2, &two), None);
    assert_eq!(missing_spans(1, &two), 0);
    assert_eq!(missing_spans(3, &obj(vec![])), 3);
}

use pup::commands::llm_obs::{eval_stats_body, events_submit_body, experiment_tool_body, experiment_tool_failure, experiment_tool_path, ExperimentTool};
use pup::formatter::search_metadata;

#[test]
fn experiment_bodies() {
    assert_eq!(experiment_tool_body(ExperimentTool::Summary, "e1"), obj(vec![("experiment_id", s("e1"))]));
    let mv = ExperimentTool::MetricValues {
        metric_label: "acc".into(),
        segment_by_dimension: Some("model".into()),
        segment_dimension_value: None,
    };
    assert_eq!(experiment_tool_path(&mv), "/api/unstable/llm-obs-mcp/v1/experiment/metric-values");
    assert_eq!(experiment_tool_failure(&mv), "failed to get experiment metric values");
    assert_eq!(
        experiment_tool_body(mv, "e1"),
        obj(vec![("experiment_id", s("e1")), ("metric_label", s("acc")), ("segment_by_dimension", s("model"))])
    );
    let dv = ExperimentTool::DimensionValues { dimension_key: "model".into() };
    assert_eq!(experiment_tool_body(dv, "e1"), obj(vec![("experiment_id", s("e1")), ("dimension_key", s("model"))]));
}

#[test]
fn events_submission_body() {
    let metrics = arr(vec![obj(vec![("label", s("acc"))])]);
    assert_eq!(
        events_submit_body("e1", Ok(metrics.deep_clone()), Some(strings(&["a:b"]))).unwrap(),
        obj(vec![("experiment_id", s("e1")), ("metrics", metrics.deep_clone()), ("tags", arr(vec![s("a:b")]))])
    );
    assert_eq!(events_submit_body("e1", Ok(metrics.deep_clone()), None).unwrap(), obj(vec![("experiment_id", s("e1")), ("metrics", metrics)]));
    assert_eq!(
        events_submit_body("e1", Err("EOF while parsing".into()), None).unwrap_err(),
        "--metrics must be a JSON array of eval-metric events: EOF while parsing"
    );
}

#[test]
fn eval_statistics_body() {
    assert_eq!(
        eval_stats_body("faith", Some("app".into()), Ok(1), Ok(2)).unwrap(),
        obj(vec![("eval_name", s("faith")), ("ml_app", s("app")), ("from", s("1")), ("to", s("2"))])
    );
    assert_eq!(eval_stats_body("faith", None, Err("bad".into()), Ok(2)).unwrap_err(), "invalid --from value: bad");
    assert_eq!(eval_stats_body("faith", None, Ok(1), Err("bad".into())).unwrap_err(), "invalid --to value: bad");
}

#[test]
fn search_metadata_flags_a_full_page() {
    let m = search_metadata("traces search", Some(50), 50);
    assert_eq!(m.count, Some(50));
    assert!(m.truncated);
    assert_eq!(m.command.as_deref(), Some("traces search"));
    assert_eq!(
        m.next_action.as_deref(),
        Some("Results may be truncated at 50. Use --limit=51 or narrow the --query")
    );
    let short = search_metadata("logs search", Some(3), 50);
    assert!(!short.truncated);
    assert_eq!(short.next_action, None);
    let unknown = search_metadata("logs search", None, 50);
    assert!(!unknown.truncated);
}

use pup::commands::llm_obs::{insight_feedback_body, insight_status_body, patterns_body, patterns_failure, patterns_path, PatternsTool};

#[test]
fn patterns_requests() {
    assert_eq!(patterns_body(PatternsTool::ConfigsList), obj(vec![]));
    assert_eq!(patterns_path(&PatternsTool::ConfigsList), "/api/unstable/llm-obs-mcp/v1/topic-discovery/configs/list");
    let t = PatternsTool::TopicsWithPoints { config_id: "c1".into(), run_id: Some("r1".into()), include_metrics: true };
    assert_eq!(patterns_failure(&t), "get patterns with points");
    assert_eq!(patterns_path(&t), "/api/unstable/llm-obs-mcp/v1/topic-discovery/topics-with-points");
    assert_eq!(
        patterns_body(t),
        obj(vec![("config_id", s("c1")), ("run_id", s("r1")), ("include_metrics", JsonValue::Bool(true))])
    );
    let p = PatternsTool::Points { topic_id: "t1".into(), page_size: Some(20), page_token: None };
    assert_eq!(patterns_body(p), obj(vec![("topic_id", s("t1")), ("page_size", n("20"))]));
}

#[test]
fn insight_status_and_feedback_bodies() {
    assert_eq!(
        insight_status_body("i1", "completed").unwrap(),
        obj(vec![("insight_id", s("i1")), ("status", s("completed"))])
    );
    assert_eq!(
        insight_status_body("i1", "done").unwrap_err(),
        "--status must be one of for_review, in_progress, completed, ignored, got 'done'"
    );
    let b = insight_feedback_body("i1", &strings(&["k=useful"])).unwrap();
    match &b {
        JsonValue::Object(e) => {
            assert_eq!(e[0], ("insight_id".to_string(), s("i1")));
            assert_eq!(e[1].0, "feedback_items");
        },
        other => panic!("not an object: {other:?}"),
    }
    assert!(insight_feedback_body("i1", &strings(&["k=maybe"])).is_err());
}

use pup::commands::traces::{search_plan, SpansSearchPlan, SpansSort};
use pup::commands::workflows::{poll_action, PollAction, POLL_INTERVAL_MS};

#[test]
fn spans_search_checks_in_order() {
    assert_eq!(
        search_plan("timestamp", Ok(1), Ok(2), 50).unwrap(),
        SpansSearchPlan { from_ms: 1, to_ms: 2, limit: 50, sort: SpansSort::TimestampAscending }
    );
    assert_eq!(search_plan("-timestamp", Ok(1), Ok(2), 1000).unwrap().sort, SpansSort::TimestampDescending);
    assert!(search_plan("bogus", Err("bad from".into()), Ok(2), 0).unwrap_err().starts_with("invalid --sort value"));
    assert_eq!(search_plan("timestamp", Err("bad from".into()), Err("bad to".into()), 0).unwrap_err(), "bad from");
    assert_eq!(search_plan("timestamp", Ok(1), Err("bad to".into()), 0).unwrap_err(), "bad to");
    assert_eq!(search_plan("timestamp", Ok(1), Ok(2), 0).unwrap_err(), "--limit must be between 1 and 1000, got 0");
}

#[test]
fn workflow_polling_gives_up_after_timeout() {
    assert_eq!(poll_action(0, 1000), PollAction::WaitThenPoll(POLL_INTERVAL_MS));
    assert_eq!(poll_action(1000, 1000), PollAction::WaitThenPoll(2000));
    assert_eq!(poll_action(1001, 1000), PollAction::TimedOut);
}
