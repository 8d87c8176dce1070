use tgcp::app::{App, ResourceFilter};
use tgcp::fetcher::{
    accumulate_page, apply_wave, build_request_params, extract_items, next_page_token, page_from_response, Page,
};
use tgcp::json::{extract_json_value, parse_index, split_path, JsonValue, Record};
use tgcp::pagination::PaginationState;
use tgcp::registry::{ColumnDef, Registry, ResourceDef};

fn obj(members: Vec<(&str, JsonValue)>) -> JsonValue {
    JsonValue::Object(members.into_iter().map(|(k, v)| (k.to_string(), v)).collect())
}

fn s(v: &str) -> JsonValue {
    JsonValue::Str(v.to_string())
}

fn instances_def() -> ResourceDef {
    ResourceDef {
        display_name: "VM Instances".to_string(),
        service: "compute".to_string(),
        sdk_method: "list_instances".to_string(),
        sdk_method_params: vec![("maxResults".to_string(), "100".to_string())],
        response_path: "items".to_string(),
        id_field: "id".to_string(),
        name_field: "name".to_string(),
        is_global: false,
        is_regional: false,
        columns: vec![ColumnDef {
            header: "NAME".to_string(),
            json_path: "name".to_string(),
            width: 20,
            color_map: None,
        }],
        sub_resources: Vec::new(),
        actions: Vec::new(),
    }
}

fn to_records(items: Vec<JsonValue>) -> Vec<Record> {
    items
        .into_iter()
        .map(|v| {
            let name = extract_json_value(&v, "name").unwrap_or_default();
            Record { value: v, text: format!("{{\"name\":\"{}\"}}", name) }
        })
        .collect()
}

#[test]
fn next_then_prev_restores_the_token() {
    let mut p = PaginationState::new();
    p.apply_result(Some("T1".to_string()));
    assert_eq!(p.next_page(), Some(Some("T1".to_string())));
    p.apply_result(Some("T2".to_string()));
    assert_eq!(p.next_page(), Some(Some("T2".to_string())));
    p.apply_result(None);
    assert_eq!(p.current_page, 3);
    assert_eq!(p.next_page(), None);
    assert_eq!(p.prev_page(), Some(Some("T1".to_string())));
    assert_eq!(p.current_token, Some("T1".to_string()));
    assert_eq!(p.current_page, 2);
    assert_eq!(p.prev_page(), Some(None));
    assert_eq!(p.current_page, 1);
    assert_eq!(p.prev_page(), None);
    assert_eq!(p.token_stack.len(), 0);
}

#[test]
fn fetch_page_scenario() {
    let def = instances_def();
    let mut reg = Registry::new();
    reg.insert_resource("compute-instances".to_string(), instances_def());
    let response = obj(vec![
        ("items", JsonValue::Array(vec![obj(vec![("name", s("vm-1"))]), obj(vec![("name", s("vm-2"))])])),
        ("nextPageToken", s("T1")),
    ]);
    let page = page_from_response(&def, response);
    assert_eq!(page.items.len(), 2);
    assert_eq!(page.next_token, Some("T1".to_string()));

    let mut app = App::new(
        "compute-instances".to_string(),
        "p".to_string(),
        "z".to_string(),
        Vec::new(),
        Vec::new(),
        Vec::new(),
        false,
    );
    let g = app.refresh_request().generation;
    assert!(app.apply_fetch_result(&reg, g, Ok((to_records(page.items), page.next_token))));
    assert_eq!(app.filtered_len(), 2);
    assert_eq!(app.pagination.current_page, 1);
    let before_next = app.pagination.next_token.clone();
    let before_stack = app.pagination.token_stack.clone();

    let req = app.next_page().expect("a next page");
    assert_eq!(req.page_token, Some("T1".to_string()));
    assert_eq!(app.pagination.current_page, 2);
    assert!(app.apply_fetch_result(&reg, req.generation, Ok((Vec::new(), None))));

    let back = app.prev_page().expect("a previous page");
    assert_eq!(back.page_token, None);
    assert_eq!(app.pagination.current_page, 1);
    assert!(app.apply_fetch_result(&reg, back.generation, Ok((Vec::new(), Some("T1".to_string())))));
    assert_eq!(app.pagination.next_token, before_next);
    assert_eq!(app.pagination.token_stack, before_stack);
    assert!(app.pagination.has_more);
    assert!(app.prev_page().is_none());
    assert_eq!(app.pagination.current_page, 1);
}

#[test]
fn items_follow_the_response_path() {
    let response = obj(vec![("data", obj(vec![("list", JsonValue::Array(vec![s("a"), s("b")]))]))]);
    assert_eq!(extract_items(response, "data.list").len(), 2);
    let missing = obj(vec![("other", JsonValue::Null)]);
    assert_eq!(extract_items(missing, "items").len(), 0);
    let top = JsonValue::Array(vec![s("x")]);
    assert_eq!(extract_items(top, "").len(), 1);
    assert_eq!(next_page_token(&obj(vec![])), None);
}

#[test]
fn request_params_merge_filters_and_token() {
    let def = instances_def();
    let filters = vec![ResourceFilter::new("instance", vec!["vm-1".to_string()])];
    let params = build_request_params(&def, &filters, Some("tok"));
    let keys: Vec<&str> = params.iter().map(|(k, _)| k.as_str()).collect();
    assert_eq!(keys, vec!["maxResults", "instance", "pageToken"]);
    match &params[1].1 {
        JsonValue::Array(v) => assert_eq!(v.len(), 1),
        _ => panic!("filter values are a list"),
    }
    match &params[2].1 {
        JsonValue::Str(t) => assert_eq!(t, "tok"),
        _ => panic!("token is a string"),
    }
}

#[test]
fn fetch_all_collects_every_page() {
    let mut all: Vec<JsonValue> = Vec::new();
    let first = accumulate_page(
        &mut all,
        tgcp::fetcher::Page { items: vec![s("a"), s("b")], next_token: Some("T".to_string()) },
    );
    assert_eq!(first, Some("T".to_string()));
    let second = accumulate_page(&mut all, tgcp::fetcher::Page { items: vec![s("c")], next_token: None });
    assert_eq!(second, None);
    assert_eq!(all.len(), 3);
}

#[test]
fn dot_paths_reach_nested_fields() {
    let v = obj(vec![
        ("name", s("vm")),
        ("disks", JsonValue::Array(vec![obj(vec![("size", JsonValue::Number("10".to_string()))])])),
        ("flag", JsonValue::Bool(true)),
        ("nothing", JsonValue::Null),
    ]);
    assert_eq!(extract_json_value(&v, "disks.0.size"), Some("10".to_string()));
    assert_eq!(extract_json_value(&v, "disks"), Some("[1 items]".to_string()));
    assert_eq!(extract_json_value(&v, "flag"), Some("true".to_string()));
    assert_eq!(extract_json_value(&v, "nothing"), None);
    assert_eq!(extract_json_value(&v, "disks.3.size"), None);
    assert_eq!(extract_json_value(&v, "missing"), None);
    assert_eq!(split_path("a.b..c"), vec!["a", "b", "", "c"]);
    assert_eq!(parse_index("12"), Some(12));
    assert_eq!(parse_index("1x"), None);
    assert_eq!(parse_index(""), None);
}

#[test]
fn waves_keep_page_order_and_drop_failed_pages() {
    let mut all = vec![s("first")];
    let next = apply_wave(
        &mut all,
        vec![
            Ok(Page { items: vec![s("a1"), s("a2")], next_token: Some("TA".to_string()) }),
            Err("API request failed: 500".to_string()),
            Ok(Page { items: vec![s("c1")], next_token: None }),
            Ok(Page { items: vec![], next_token: Some("TD".to_string()) }),
        ],
    );
    assert_eq!(next, vec!["TA".to_string(), "TD".to_string()]);
    let names: Vec<String> = all
        .iter()
        .map(|v| match v {
            JsonValue::Str(t) => t.clone(),
            _ => String::new(),
        })
        .collect();
    assert_eq!(names, vec!["first", "a1", "a2", "c1"]);
}

#[test]
fn derived_fields_are_added_once_per_fetch() {
    let item = obj(vec![
        ("zone", s("https://www.googleapis.com/compute/v1/projects/p/zones/us-central1-a")),
        ("machineType", s("zones/us-central1-a/machineTypes/n1-standard-4")),
        ("disks", JsonValue::Array(vec![obj(vec![]), obj(vec![])])),
        ("creationTimestamp", s("2023-01-15T10:30:00.000Z")),
        ("zone_short", s("stale")),
    ]);
    let out = tgcp::derived::add_derived_fields(item);
    assert_eq!(extract_json_value(&out, "zone_short"), Some("us-central1-a".to_string()));
    assert_eq!(extract_json_value(&out, "machineType_short"), Some("n1-standard-4".to_string()));
    assert_eq!(extract_json_value(&out, "disks_count"), Some("2".to_string()));
    assert_eq!(extract_json_value(&out, "creationTimestamp_short"), Some("2023-01-15".to_string()));
    assert_eq!(extract_json_value(&out, "labels_count"), Some("0".to_string()));
    assert_eq!(tgcp::derived::extract_short_name("no-slash"), "no-slash");
    assert_eq!(tgcp::derived::extract_short_name("ends/"), "");
    let not_object = s("plain");
    assert!(matches!(tgcp::derived::add_derived_fields(not_object), JsonValue::Str(_)));
}

#[test]
fn vcpus_from_machine_type_names() {
    use_vcpus("n1-standard-4", Some("4"));
    use_vcpus("c2-standard-60", Some("60"));
    use_vcpus("e2-medium", Some("1"));
    use_vcpus("f1-micro", Some("0.2"));
    use_vcpus("custom-8-32768", Some("8"));
    use_vcpus("n1-custom-2-4096", Some("2"));
    use_vcpus("n2-highmem", None);
    use_vcpus("weird", None);
    let item = obj(vec![("machineType", s("zones/z/machineTypes/n2-standard-16"))]);
    let out = tgcp::derived::add_derived_fields(item);
    assert_eq!(extract_json_value(&out, "vcpus"), Some("16".to_string()));
}

fn use_vcpus(name: &str, expected: Option<&str>) {
    assert_eq!(tgcp::json::extract_vcpus_from_machine_type(name).as_deref(), expected);
}

#[test]
fn aggregated_listings_are_flattened() {
    let response = obj(vec![(
        "items",
        obj(vec![
            ("zones/a", obj(vec![("instances", JsonValue::Array(vec![s("i1"), s("i2")]))])),
            ("zones/b", obj(vec![("warning", JsonValue::Array(vec![s("w")]))])),
            ("zones/c", obj(vec![("instances", JsonValue::Array(vec![s("i3")]))])),
        ]),
    )]);
    let flat = tgcp::fetcher::flatten_aggregated_response(response);
    assert_eq!(extract_items(flat, "items").len(), 3);
    let empty = tgcp::fetcher::flatten_aggregated_response(obj(vec![]));
    assert_eq!(extract_items(empty, "items").len(), 0);
}

#[test]
fn flag_and_config_fields_are_derived() {
    let item = obj(vec![
        ("allowed", JsonValue::Array(vec![])),
        ("autopilot", obj(vec![("enabled", JsonValue::Bool(true))])),
        ("enableCDN", JsonValue::Bool(false)),
        ("healthChecks", JsonValue::Array(vec![s("projects/p/global/healthChecks/hc-1")])),
        (
            "subjectAlternativeNames",
            JsonValue::Array(vec![s("a.com"), s("b.com"), s("c.com"), s("d.com"), s("e.com")]),
        ),
        ("tcpHealthCheck", obj(vec![("port", JsonValue::Number("443".to_string()))])),
        ("scheduling", obj(vec![("preemptible", JsonValue::Bool(true))])),
    ]);
    let out = tgcp::derived::add_derived_fields(item);
    let f = |k: &str| extract_json_value(&out, k);
    assert_eq!(f("action_display"), Some("ALLOW".to_string()));
    assert_eq!(f("autopilot_display"), Some("Autopilot".to_string()));
    assert_eq!(f("enableCDN_display"), Some("No".to_string()));
    assert_eq!(f("healthChecks_short"), Some("hc-1".to_string()));
    assert_eq!(f("subjectAlternativeNames_display"), Some("a.com, b.com, c.com +2".to_string()));
    assert_eq!(f("healthCheck_port"), Some("443".to_string()));
    assert_eq!(f("adaptiveProtectionConfig_display"), Some("-".to_string()));
    assert_eq!(f("scheduling_display"), Some("Preempt".to_string()));
    assert_eq!(f("autoscaling_display"), None);
}

#[test]
fn endpoints_build_api_urls() {
    let e = tgcp::endpoints::Endpoints { project_id: "p1".to_string(), zone: "us-central1-a".to_string() };
    assert_eq!(e.get_region(), "us-central1");
    assert_eq!(
        e.compute_zonal_url("instances"),
        "https://compute.googleapis.com/compute/v1/projects/p1/zones/us-central1-a/instances"
    );
    assert_eq!(
        e.compute_regional_url("addresses"),
        "https://compute.googleapis.com/compute/v1/projects/p1/regions/us-central1/addresses"
    );
    assert_eq!(e.storage_objects_url("b1"), "https://storage.googleapis.com/storage/v1/b/b1/o");
    assert_eq!(
        e.container_location_url("europe-west1", "clusters"),
        "https://container.googleapis.com/v1/projects/p1/locations/europe-west1/clusters"
    );
    let plain = tgcp::endpoints::Endpoints { project_id: "p".to_string(), zone: "global".to_string() };
    assert_eq!(plain.get_region(), "global");
    let listing = obj(vec![(
        "items",
        JsonValue::Array(vec![obj(vec![("name", s("b-zone"))]), obj(vec![("name", s("a-zone"))])]),
    )]);
    assert_eq!(tgcp::endpoints::zone_names(&listing), vec!["a-zone".to_string(), "b-zone".to_string()]);
}
