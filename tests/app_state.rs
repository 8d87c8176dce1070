use tgcp::app::{App, Mode};
use tgcp::json::{JsonValue, Record};
use tgcp::registry::{ColumnDef, Registry, ResourceDef, SubResourceDef};

fn record(name: &str, status: &str, cpus: &str) -> Record {
    let value = JsonValue::Object(vec![
        ("name".to_string(), JsonValue::Str(name.to_string())),
        ("status".to_string(), JsonValue::Str(status.to_string())),
        ("cpus".to_string(), JsonValue::Number(cpus.to_string())),
    ]);
    Record {
        value,
        text: format!("{{\"name\":\"{}\",\"status\":\"{}\",\"cpus\":{}}}", name, status, cpus),
    }
}

fn numbered(n: usize) -> Vec<Record> {
    (0..n)
        .map(|i| Record {
            value: JsonValue::Object(vec![("id".to_string(), JsonValue::Number(i.to_string()))]),
            text: format!("{{\"id\":{}}}", i),
        })
        .collect()
}

fn column(header: &str, path: &str) -> ColumnDef {
    ColumnDef {
        header: header.to_string(),
        json_path: path.to_string(),
        width: 10,
        color_map: None,
    }
}

fn registry() -> Registry {
    let mut reg = Registry::new();
    reg.insert_resource(
        "compute-instances".to_string(),
        ResourceDef {
            display_name: "VM Instances".to_string(),
            service: "compute".to_string(),
            sdk_method: "list_instances".to_string(),
            sdk_method_params: Vec::new(),
            response_path: "items".to_string(),
            id_field: "id".to_string(),
            name_field: "name".to_string(),
            is_global: false,
            is_regional: false,
            columns: vec![column("NAME", "name"), column("STATUS", "status"), column("CPUS", "cpus")],
            sub_resources: vec![SubResourceDef {
                resource_key: "compute-disks".to_string(),
                display_name: "Disks".to_string(),
                shortcut: "d".to_string(),
                parent_id_field: "name".to_string(),
                filter_param: "instance".to_string(),
            }],
            actions: Vec::new(),
        },
    );
    reg.insert_resource(
        "compute-disks".to_string(),
        ResourceDef {
            display_name: "Disks".to_string(),
            service: "compute".to_string(),
            sdk_method: "list_disks".to_string(),
            sdk_method_params: Vec::new(),
            response_path: "items".to_string(),
            id_field: "id".to_string(),
            name_field: "name".to_string(),
            is_global: false,
            is_regional: false,
            columns: vec![column("NAME", "name")],
            sub_resources: Vec::new(),
            actions: Vec::new(),
        },
    );
    reg
}

fn app_with(items: Vec<Record>) -> App {
    App::new(
        "compute-instances".to_string(),
        "my-project".to_string(),
        "us-central1-a".to_string(),
        vec!["my-project".to_string(), "other-project".to_string()],
        vec!["us-central1-a".to_string(), "europe-west1-b".to_string()],
        items,
        false,
    )
}

fn shown_names(app: &App) -> Vec<String> {
    app.filtered
        .iter()
        .map(|&i| tgcp::json::extract_json_value(&app.items[i].value, "name").unwrap())
        .collect()
}

#[test]
fn test_visible_range_basic() {
    let mut app = app_with(numbered(100));
    app.scroll_offset = 0;
    app.viewport_height = 10;
    assert_eq!(app.visible_range(), (0, 10));
}

#[test]
fn test_visible_range_scrolled() {
    let mut app = app_with(numbered(100));
    app.scroll_offset = 50;
    app.viewport_height = 10;
    assert_eq!(app.visible_range(), (50, 60));
}

#[test]
fn test_visible_range_at_end() {
    let mut app = app_with(numbered(25));
    app.scroll_offset = 20;
    app.viewport_height = 10;
    assert_eq!(app.visible_range(), (20, 25));
}

#[test]
fn test_selection_toggle() {
    let mut app = app_with(numbered(10));
    app.selected = 5;
    app.toggle_selection();
    assert!(app.is_selected(5));
    app.toggle_selection();
    assert!(!app.is_selected(5));
}

#[test]
fn test_select_all() {
    let mut app = app_with(numbered(50));
    app.select_all();
    assert_eq!(app.selection_count(), 50);
    assert!(app.is_selected(0));
    assert!(app.is_selected(49));
}

#[test]
fn test_clear_selection() {
    let mut app = app_with(numbered(10));
    app.select_all();
    assert_eq!(app.selection_count(), 10);
    app.clear_selection();
    assert_eq!(app.selection_count(), 0);
}

#[test]
fn test_selection_count() {
    let mut app = app_with(numbered(10));
    for i in [1usize, 3, 5, 7, 9] {
        app.selected = i;
        app.toggle_selection();
    }
    assert_eq!(app.selection_count(), 5);
}

#[test]
fn test_ensure_visible_logic() {
    let mut app = app_with(numbered(100));
    app.viewport_height = 10;

    // Case 1: selected is at top, scroll should be 0
    app.selected = 0;
    app.scroll_offset = 5;
    app.ensure_visible();
    assert_eq!(app.scroll_offset, 0);

    // Case 2: selected is at bottom, scroll should adjust
    app.selected = 50;
    app.scroll_offset = 30;
    app.ensure_visible();
    let max_offset = 100 - 10;
    assert!(app.scroll_offset <= max_offset);
    assert!(app.selected >= app.scroll_offset);
    assert!(app.selected < app.scroll_offset + app.viewport_height);
}

#[test]
fn test_extend_selection_down() {
    let mut app = app_with(numbered(100));
    app.selected = 5;
    app.extend_selection_down();
    assert!(app.is_selected(5));
    assert!(app.is_selected(6));
    assert_eq!(app.selected, 6);
}

#[test]
fn test_extend_selection_up() {
    let mut app = app_with(numbered(100));
    app.selected = 5;
    app.extend_selection_up();
    assert!(app.is_selected(5));
    assert!(app.is_selected(4));
    assert_eq!(app.selected, 4);
}

#[test]
fn extend_selection_accumulates_a_range() {
    let mut app = app_with(numbered(10));
    app.selected = 2;
    app.extend_selection_down();
    app.extend_selection_down();
    assert_eq!(app.selected, 4);
    assert_eq!(app.selection_count(), 3);
    assert!(app.is_selected(2) && app.is_selected(3) && app.is_selected(4));
}

#[test]
fn extend_selection_stops_at_the_edges() {
    let mut app = app_with(numbered(3));
    app.selected = 2;
    app.extend_selection_down();
    assert_eq!(app.selected, 2);
    assert_eq!(app.selection_count(), 1);
    app.selected = 0;
    app.extend_selection_up();
    assert_eq!(app.selected, 0);
    assert_eq!(app.selection_count(), 2);
}

#[test]
fn ensure_visible_on_empty_view_resets_offset() {
    let mut app = app_with(Vec::new());
    app.scroll_offset = 7;
    app.ensure_visible();
    assert_eq!(app.scroll_offset, 0);
}

#[test]
fn ensure_visible_keeps_cursor_on_screen_for_every_position() {
    for total in [1usize, 5, 20, 37] {
        for height in [1usize, 2, 3, 4, 10, 50] {
            for sel in 0..total {
                for offset in [0usize, 3, 15, 40] {
                    let mut app = app_with(numbered(total));
                    app.viewport_height = height;
                    app.selected = sel;
                    app.scroll_offset = offset;
                    app.ensure_visible();
                    let max_offset = total.saturating_sub(height);
                    assert!(app.scroll_offset <= max_offset);
                    assert!(app.scroll_offset <= sel && sel < app.scroll_offset + height);
                }
            }
        }
    }
}

#[test]
fn update_viewport_keeps_at_least_one_row() {
    let mut app = app_with(numbered(5));
    app.update_viewport(0);
    assert_eq!(app.viewport_height, 1);
    app.update_viewport(30);
    assert_eq!(app.viewport_height, 30);
}

#[test]
fn filter_matches_declared_columns_case_insensitively() {
    let reg = registry();
    let mut app = app_with(vec![
        record("web-1", "RUNNING", "4"),
        record("db-1", "STOPPED", "8"),
        record("web-2", "TERMINATED", "2"),
    ]);
    app.filter_text = "WEB".to_string();
    app.apply_filter(&reg);
    assert_eq!(shown_names(&app), vec!["web-1", "web-2"]);
    app.filter_text = "stopped".to_string();
    app.apply_filter(&reg);
    assert_eq!(shown_names(&app), vec!["db-1"]);
}

#[test]
fn empty_filter_keeps_every_record() {
    let reg = registry();
    let mut app = app_with(vec![record("a", "RUNNING", "1"), record("b", "STOPPED", "2")]);
    app.filter_text = "zzz".to_string();
    app.apply_filter(&reg);
    assert_eq!(app.filtered_len(), 0);
    app.clear_filter(&reg);
    assert_eq!(app.filtered, vec![0, 1]);
}

#[test]
fn filtering_twice_is_the_same_as_once() {
    let reg = registry();
    let mut app = app_with(vec![
        record("alpha", "RUNNING", "1"),
        record("beta", "STOPPED", "2"),
        record("alphabet", "RUNNING", "3"),
    ]);
    app.filter_text = "alpha".to_string();
    app.apply_filter(&reg);
    let once = app.filtered.clone();
    assert!(once.len() <= app.items.len());
    app.apply_filter(&reg);
    assert_eq!(app.filtered, once);
}

#[test]
fn filter_clears_selection_and_clamps_cursor() {
    let reg = registry();
    let mut app = app_with(vec![
        record("a1", "RUNNING", "1"),
        record("b1", "RUNNING", "2"),
        record("a2", "RUNNING", "3"),
    ]);
    app.selected = 2;
    app.select_all();
    app.filter_text = "b".to_string();
    app.apply_filter(&reg);
    assert_eq!(app.selection_count(), 0);
    assert_eq!(app.selected, 0);
    assert_eq!(app.scroll_offset, 0);
}

#[test]
fn unknown_type_filters_on_the_textual_form() {
    let reg = registry();
    let mut app = app_with(vec![record("a", "RUNNING", "1"), record("b", "STOPPED", "2")]);
    app.current_resource_key = "unknown-kind".to_string();
    app.filter_text = "\"cpus\":2".to_string();
    app.apply_filter(&reg);
    assert_eq!(app.filtered, vec![1]);
}

#[test]
fn sort_numeric_column_and_toggle_direction() {
    let reg = registry();
    let mut app = app_with(vec![
        record("a", "RUNNING", "10"),
        record("b", "RUNNING", "9"),
        record("c", "RUNNING", "100"),
    ]);
    app.sort_by_column(&reg, 2);
    assert_eq!(shown_names(&app), vec!["b", "a", "c"]);
    app.sort_by_column(&reg, 2);
    assert_eq!(shown_names(&app), vec!["c", "a", "b"]);
    assert!(!app.sort_ascending);
    app.sort_by_column(&reg, 0);
    assert!(app.sort_ascending);
    assert_eq!(shown_names(&app), vec!["a", "b", "c"]);
}

#[test]
fn sort_is_stable_for_equal_keys() {
    let reg = registry();
    let mut app = app_with(vec![
        record("x", "STOPPED", "1"),
        record("y", "RUNNING", "2"),
        record("z", "STOPPED", "3"),
        record("w", "RUNNING", "4"),
    ]);
    app.sort_by_column(&reg, 1);
    assert_eq!(shown_names(&app), vec!["y", "w", "x", "z"]);
    app.sort_by_column(&reg, 1);
    assert_eq!(shown_names(&app), vec!["x", "z", "y", "w"]);
}

#[test]
fn ascending_reversed_equals_descending_for_distinct_keys() {
    let reg = registry();
    let items = vec![
        record("m", "RUNNING", "5"),
        record("b", "RUNNING", "50"),
        record("q", "RUNNING", "7"),
        record("a", "RUNNING", "-3"),
    ];
    let mut asc = app_with(items.clone_records());
    asc.sort_by_column(&reg, 2);
    let mut up = shown_names(&asc);
    up.reverse();
    let mut desc = app_with(items.clone_records());
    desc.sort_by_column(&reg, 2);
    desc.sort_by_column(&reg, 2);
    assert_eq!(up, shown_names(&desc));
}

trait CloneRecords {
    fn clone_records(&self) -> Vec<Record>;
}

impl CloneRecords for Vec<Record> {
    fn clone_records(&self) -> Vec<Record> {
        self.iter()
            .map(|r| {
                let name = tgcp::json::extract_json_value(&r.value, "name").unwrap();
                let status = tgcp::json::extract_json_value(&r.value, "status").unwrap();
                let cpus = tgcp::json::extract_json_value(&r.value, "cpus").unwrap();
                record(&name, &status, &cpus)
            })
            .collect()
    }
}

#[test]
fn sort_clears_selection() {
    let reg = registry();
    let mut app = app_with(vec![record("b", "RUNNING", "1"), record("a", "RUNNING", "2")]);
    app.select_all();
    app.sort_by_column(&reg, 0);
    assert_eq!(app.selection_count(), 0);
}

#[test]
fn clear_sort_restores_fetched_order() {
    let reg = registry();
    let mut app = app_with(vec![record("b", "RUNNING", "1"), record("a", "RUNNING", "2")]);
    app.sort_by_column(&reg, 0);
    assert_eq!(shown_names(&app), vec!["a", "b"]);
    app.clear_sort(&reg);
    assert_eq!(shown_names(&app), vec!["b", "a"]);
}

#[test]
fn cursor_moves_stay_in_range() {
    let mut app = app_with(numbered(5));
    app.next();
    assert_eq!(app.selected, 1);
    app.page_down(10);
    assert_eq!(app.selected, 4);
    app.previous();
    assert_eq!(app.selected, 3);
    app.page_up(10);
    assert_eq!(app.selected, 0);
    app.go_to_bottom();
    assert_eq!(app.selected, 4);
    app.go_to_top();
    assert_eq!(app.selected, 0);
}

#[test]
fn projects_picker_starts_on_current_project_and_filters() {
    let mut app = app_with(numbered(1));
    app.project = "other-project".to_string();
    app.enter_projects_mode();
    assert_eq!(app.mode, Mode::Projects);
    assert_eq!(app.projects_selected, 1);
    app.next();
    assert_eq!(app.projects_selected, 1);
    app.projects_search_text = "MY".to_string();
    app.apply_projects_filter();
    assert_eq!(app.projects_filtered, vec!["my-project".to_string()]);
    assert_eq!(app.projects_selected, 0);
}

#[test]
fn zones_picker_filters_by_substring() {
    let mut app = app_with(numbered(1));
    app.enter_zones_mode();
    assert_eq!(app.mode, Mode::Zones);
    assert_eq!(app.zones_selected, 0);
    app.zones_search_text = "europe".to_string();
    app.apply_zones_filter();
    assert_eq!(app.zones_filtered, vec!["europe-west1-b".to_string()]);
}

#[test]
fn drill_down_and_back_restore_the_parent() {
    let reg = registry();
    let mut app = app_with(vec![record("vm-1", "RUNNING", "2"), record("vm-2", "RUNNING", "4")]);
    app.selected = 1;
    app.filter_text = "vm".to_string();
    let req = app.navigate_to_sub_resource(&reg, "compute-disks").expect("drill-down");
    assert_eq!(req.resource_key, "compute-disks");
    assert_eq!(req.filters.len(), 1);
    assert_eq!(req.filters[0].param, "instance");
    assert_eq!(req.filters[0].values, vec!["vm-2".to_string()]);
    assert_eq!(app.current_resource_key, "compute-disks");
    let parent = app.parent_context.as_ref().unwrap();
    assert_eq!(tgcp::json::extract_json_value(&parent.item.value, "name"), Some("vm-2".to_string()));
    assert_eq!(app.selected, 0);
    assert_eq!(app.filter_text, "");
    assert_eq!(
        app.get_breadcrumb(),
        vec!["compute-instances:vm-2".to_string(), "compute-disks".to_string()]
    );
    let back = app.navigate_back().expect("back");
    assert_eq!(back.resource_key, "compute-instances");
    assert!(app.parent_context.is_none());
    assert!(app.navigate_back().is_none());
}

#[test]
fn drill_into_undeclared_sub_resource_is_refused() {
    let reg = registry();
    let mut app = app_with(vec![record("vm-1", "RUNNING", "2")]);
    assert!(app.navigate_to_sub_resource(&reg, "storage-buckets").is_none());
    assert_eq!(
        app.error_message.as_deref(),
        Some("storage-buckets is not a sub-resource of compute-instances")
    );
    assert_eq!(app.current_resource_key, "compute-instances");
}

#[test]
fn unknown_resource_leaves_the_view_unchanged() {
    let reg = registry();
    let mut app = app_with(vec![record("vm-1", "RUNNING", "2")]);
    assert!(app.navigate_to_resource(&reg, "nope").is_none());
    assert_eq!(app.error_message.as_deref(), Some("Unknown resource: nope"));
    assert_eq!(app.current_resource_key, "compute-instances");
    assert_eq!(app.items.len(), 1);
}

#[test]
fn stale_fetch_results_are_discarded() {
    let reg = registry();
    let mut app = app_with(vec![record("vm-1", "RUNNING", "2")]);
    let old = app.refresh_request();
    let fresh = app.navigate_to_resource(&reg, "compute-disks").unwrap();
    assert_ne!(old.generation, fresh.generation);
    assert!(!app.apply_fetch_result(&reg, old.generation, Ok((Vec::new(), None))));
    assert_eq!(app.items.len(), 1);
    assert!(app.apply_fetch_result(&reg, fresh.generation, Ok((vec![record("d", "READY", "0")], None))));
    assert_eq!(app.items.len(), 1);
    assert_eq!(shown_names(&app), vec!["d"]);
}

#[test]
fn failed_fetch_shows_error_and_empties_list() {
    let reg = registry();
    let mut app = app_with(vec![record("vm-1", "RUNNING", "2")]);
    let g = app.generation;
    assert!(app.apply_fetch_result(&reg, g, Err("API request failed: 403 Forbidden".to_string())));
    assert_eq!(
        app.error_message.as_deref(),
        Some("Permission denied. Check your GCP IAM permissions.")
    );
    assert_eq!(app.items.len(), 0);
    assert_eq!(app.filtered_len(), 0);
    assert_eq!(app.pagination.current_page, 1);
}

#[test]
fn modes_return_to_normal_and_drop_transient_state() {
    let mut app = app_with(numbered(2));
    app.show_warning("careful");
    assert_eq!(app.mode, Mode::Warning);
    assert_eq!(app.warning_message.as_deref(), Some("careful"));
    app.exit_mode();
    assert_eq!(app.mode, Mode::Normal);
    assert!(app.warning_message.is_none());
    app.enter_help_mode();
    assert_eq!(app.mode, Mode::Help);
    app.exit_mode();
    app.enter_describe_mode();
    assert_eq!(app.mode, Mode::Describe);
}
