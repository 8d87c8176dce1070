use tgcp::app::{ActionOutcome, ActionStart, App, CommandEffect, Key, KeyCode, KeyEffect, KeyOutcome, Mode};
use tgcp::config::{Config, NotificationConfig};
use tgcp::json::{JsonValue, Record};
use tgcp::notification::{DetailLevel, NotificationManager, NotificationStatus, SoundConfig};
use tgcp::operation::OperationStatus;
use tgcp::registry::{
    ActionDef, ActionKind, ColorDef, ColumnDef, ConfirmConfig, Registry, ResourceDef,
};
use tgcp::startup::{list_zones, SplashState};

fn vm(name: &str) -> Record {
    Record {
        value: JsonValue::Object(vec![("name".to_string(), JsonValue::Str(name.to_string()))]),
        text: format!("{{\"name\":\"{}\"}}", name),
    }
}

fn def() -> ResourceDef {
    ResourceDef {
        display_name: "VM Instances".to_string(),
        service: "compute".to_string(),
        sdk_method: "list_instances".to_string(),
        sdk_method_params: Vec::new(),
        response_path: "items".to_string(),
        id_field: "id".to_string(),
        name_field: "name".to_string(),
        is_global: false,
        is_regional: false,
        columns: vec![ColumnDef {
            header: "NAME".to_string(),
            json_path: "name".to_string(),
            width: 20,
            color_map: Some("status".to_string()),
        }],
        sub_resources: Vec::new(),
        actions: Vec::new(),
    }
}

fn registry() -> Registry {
    let mut reg = Registry::new();
    reg.insert_resource("compute-instances".to_string(), def());
    reg.insert_color_map(
        "status".to_string(),
        vec![
            ColorDef { value: "RUNNING".to_string(), color: [0, 255, 0] },
            ColorDef { value: "STOPPED".to_string(), color: [255, 0, 0] },
        ],
    );
    reg
}

fn action(confirm: Option<ConfirmConfig>) -> ActionDef {
    ActionDef {
        key: "delete".to_string(),
        display_name: "Delete".to_string(),
        shortcut: None,
        sdk_method: "delete_instance".to_string(),
        kind: ActionKind::Api,
        needs_confirm: false,
        confirm,
    }
}

fn app(n: usize) -> App {
    App::new(
        "compute-instances".to_string(),
        "p".to_string(),
        "z".to_string(),
        Vec::new(),
        Vec::new(),
        (0..n).map(|i| vm(&format!("vm-{}", i))).collect(),
        false,
    )
}

#[test]
fn test_get_all_resource_keys() {
    let reg = registry();
    let keys = reg.get_all_resource_keys();
    assert!(!keys.is_empty(), "Should have resource types");
    assert!(
        keys.contains(&"compute-instances".to_string()),
        "Should contain compute-instances"
    );
}

#[test]
fn test_common_color_maps_exist() {
    let reg = registry();
    let state_map = reg.get_color_map("status");
    assert!(state_map.is_some(), "Status color map should exist");
}

#[test]
fn test_registry_loads_successfully() {
    let reg = registry();
    assert!(!reg.resources.is_empty(), "Registry should have resources");
}

#[test]
fn test_compute_instances_resource_exists() {
    let reg = registry();
    let resource = reg.get_resource("compute-instances");
    assert!(resource.is_some(), "Compute instances resource should exist");
    let resource = resource.unwrap();
    assert_eq!(resource.display_name, "VM Instances");
    assert_eq!(resource.service, "compute");
}

#[test]
fn colors_and_replacement() {
    let mut reg = registry();
    assert_eq!(reg.get_color_for_value("status", "STOPPED"), Some([255, 0, 0]));
    assert_eq!(reg.get_color_for_value("status", "GONE"), None);
    assert_eq!(reg.get_color_for_value("nope", "RUNNING"), None);
    let mut other = def();
    other.display_name = "Replaced".to_string();
    reg.insert_resource("compute-instances".to_string(), other);
    assert_eq!(reg.resources.len(), 1);
    assert_eq!(reg.get_resource("compute-instances").unwrap().display_name, "Replaced");
}

#[test]
fn test_list_zones() {
    let zones = list_zones();
    assert!(!zones.is_empty());
    assert!(zones.contains(&"us-central1-a".to_string()));
}

#[test]
fn confirm_policy_defaults() {
    let plain = action(None);
    assert!(!plain.requires_confirm());
    assert!(plain.get_confirm_config().is_none());
    let mut legacy = action(None);
    legacy.needs_confirm = true;
    let c = legacy.get_confirm_config().unwrap();
    assert_eq!(c.message.as_deref(), Some("Delete"));
    assert!(!c.destructive && !c.default_yes);
}

#[test]
fn destructive_action_without_policy_runs_at_once() {
    let reg = registry();
    let mut app = app(3);
    let start = app.begin_action(&reg, &action(None));
    assert_eq!(app.notification_manager.notifications.len(), 0);
    match start {
        ActionStart::Execute { service, sdk_method, resource_ids } => {
            assert_eq!(resource_ids, vec!["vm-0".to_string()]);
            app.record_action_outcome(&service, &sdk_method, &resource_ids[0], ActionOutcome::Completed, 5);
        },
        _ => panic!("expected an immediate execution"),
    }
    assert_eq!(app.notification_manager.notifications.len(), 1);
    assert!(matches!(app.notification_manager.notifications[0].status, NotificationStatus::Success));
}

#[test]
fn action_with_policy_waits_for_confirmation() {
    let reg = registry();
    let mut app = app(3);
    let policy = ConfirmConfig { message: Some("Really delete".to_string()), default_yes: false, destructive: true };
    let start = app.begin_action(&reg, &action(Some(policy)));
    assert!(matches!(start, ActionStart::Confirm));
    assert_eq!(app.mode, Mode::Confirm);
    assert_eq!(app.notification_manager.notifications.len(), 0);
    assert_eq!(app.pending_action.as_ref().unwrap().message, "Really delete 'vm-0'?");
    assert!(app.take_confirmed(false).is_none());
    assert_eq!(app.mode, Mode::Normal);
    assert_eq!(app.notification_manager.notifications.len(), 0);

    let policy = ConfirmConfig { message: None, default_yes: false, destructive: true };
    app.begin_action(&reg, &action(Some(policy)));
    app.choose_confirm(true);
    let accepted = app.take_confirmed(false).expect("accepted");
    app.record_action_outcome(
        &accepted.service,
        &accepted.sdk_method,
        &accepted.resource_ids[0],
        ActionOutcome::Started { operation_url: "op".to_string() },
        1,
    );
    assert_eq!(app.notification_manager.notifications.len(), 1);
    assert_eq!(app.notification_manager.pending_operations.len(), 1);
}

#[test]
fn bulk_delete_of_five() {
    let reg = registry();
    let mut app = app(8);
    for i in [0usize, 2, 3, 5, 7] {
        app.selected = i;
        app.toggle_selection();
    }
    let start = app.begin_action(&reg, &action(None));
    assert!(matches!(start, ActionStart::Confirm));
    assert_eq!(app.notification_manager.notifications.len(), 0);
    let pending = app.take_confirmed(true).expect("confirmed");
    assert_eq!(pending.resource_ids.len(), 5);
    assert_eq!(pending.message, "Delete 5 resources?");
    let outcomes = vec![
        ActionOutcome::Completed,
        ActionOutcome::Failed { error: "API request failed: 403".to_string() },
        ActionOutcome::Started { operation_url: "op".to_string() },
        ActionOutcome::Completed,
        ActionOutcome::Failed { error: "API request failed: 409".to_string() },
    ];
    let k = app.record_bulk_outcomes(&pending.service, &pending.sdk_method, &pending.resource_ids, outcomes, 9);
    assert_eq!(k, 3);
    assert_eq!(app.notification_manager.notifications.len(), 5);
    assert_eq!(app.selection_count(), 0);
    assert_eq!(app.error_message.as_deref(), Some("3 succeeded, 2 failed of 5"));
}

#[test]
fn failed_action_reports_on_status_line() {
    let mut app = app(1);
    let report = app.record_action_outcome(
        "compute",
        "stop_instance",
        "vm-0",
        ActionOutcome::Failed { error: "API request failed: 404".to_string() },
        3,
    );
    assert!(!report.succeeded);
    assert_eq!(app.error_message.as_deref(), Some("Resource not found."));
    assert!(matches!(app.notification_manager.notifications[0].status, NotificationStatus::Error(_)));
}

#[test]
fn read_only_refuses_remote_actions() {
    let reg = registry();
    let mut app = app(1);
    app.readonly = true;
    assert!(matches!(app.begin_action(&reg, &action(None)), ActionStart::Refused));
    assert_eq!(app.mode, Mode::Warning);
    let mut shell = action(None);
    shell.kind = ActionKind::Shell;
    app.exit_mode();
    assert!(matches!(app.begin_action(&reg, &shell), ActionStart::Shell { .. }));
}

#[test]
fn poll_results_drive_notifications() {
    let mut app = app(1);
    let id = app.create_operation_notification("start_instance", "compute", "vm-0", 0);
    app.notification_manager.mark_in_progress(id, Some("op".to_string()), 0);
    let e = app.apply_poll_result(id, OperationStatus::Running, 1);
    assert!(!e.refresh);
    let e = app.apply_poll_result(id, OperationStatus::Done, 2);
    assert!(e.refresh);
    assert!(matches!(app.notification_manager.notifications[0].status, NotificationStatus::Success));
    assert!(app.notification_manager.pending_operations.is_empty());
}

#[test]
fn disabled_notifications_give_nil_id() {
    let mut app = app(1);
    app.notifications_enabled = false;
    assert_eq!(app.create_operation_notification("start_instance", "compute", "vm-0", 0), 0);
    assert!(app.notification_manager.notifications.is_empty());
}

#[test]
fn commands_dispatch() {
    let reg = registry();
    let mut cfg = Config::new();
    let mut app = app(2);
    assert!(matches!(app.execute_command(&reg, &mut cfg, "  quit "), CommandEffect::Quit));
    app.execute_command(&reg, &mut cfg, "notifications");
    assert_eq!(app.mode, Mode::Notifications);
    match app.execute_command(&reg, &mut cfg, "zone europe-west1-b") {
        CommandEffect::SwitchZone(z) => assert_eq!(z, "europe-west1-b"),
        _ => panic!("zone switch"),
    }
    assert_eq!(cfg.zone.as_deref(), Some("europe-west1-b"));
    app.execute_command(&reg, &mut cfg, "alias vms compute-instances");
    assert_eq!(cfg.resolve_alias("vms").map(|s| s.as_str()), Some("compute-instances"));
    assert!(matches!(app.execute_command(&reg, &mut cfg, "vms"), CommandEffect::Fetch(_)));
    app.execute_command(&reg, &mut cfg, "frobnicate");
    assert_eq!(app.error_message.as_deref(), Some("Unknown command: frobnicate"));
    assert!(matches!(app.execute_command(&reg, &mut cfg, "   "), CommandEffect::Nothing));
}

#[test]
fn config_values() {
    let mut cfg = Config::new();
    assert_eq!(cfg.effective_project(Some("tool".to_string())), "tool");
    assert_eq!(cfg.effective_zone(None), "us-central1-a");
    cfg.set_project("mine");
    assert_eq!(cfg.effective_project(Some("tool".to_string())), "mine");
    assert_eq!(cfg.effective_theme("p1"), "default");
    cfg.set_theme("nord");
    assert_eq!(cfg.effective_theme("p1"), "nord");
    cfg.project_themes.push(("p1".to_string(), "dracula".to_string()));
    assert_eq!(cfg.effective_theme("p1"), "dracula");
    cfg.add_alias("d", "compute-disks");
    cfg.add_alias("d", "gke-clusters");
    assert_eq!(cfg.aliases.len(), 1);
    assert_eq!(cfg.resolve_alias("d").unwrap(), "gke-clusters");
    assert!(cfg.get_hidden_columns("vm").is_empty());
    cfg.set_hidden_columns("vm", vec!["ZONE".to_string()]);
    assert_eq!(cfg.get_hidden_columns("vm"), vec!["ZONE".to_string()]);
    cfg.set_hidden_columns("vm", Vec::new());
    assert!(cfg.get_hidden_columns("vm").is_empty());
}

#[test]
fn tracker_takes_configured_settings() {
    let mut m = NotificationManager::new();
    let mut nc = NotificationConfig::default();
    nc.detail_level = "Verbose".to_string();
    nc.sound = "all".to_string();
    nc.toast_duration_secs = 3;
    nc.max_history = 7;
    m.configure(&nc);
    assert_eq!(m.detail_level, DetailLevel::Verbose);
    assert_eq!(m.sound_config, SoundConfig::All);
    assert_eq!(m.toast_duration_ms, 3_000);
    assert_eq!(m.max_history, 7);
}

#[test]
fn splash_steps_stop_at_total() {
    let mut s = SplashState::new();
    for _ in 0..10 {
        s.complete_step();
    }
    assert_eq!(s.completed_steps, 5);
    s.set_message("Loading projects");
    assert_eq!(s.message, "Loading projects");
}

#[test]
fn column_overlay_hides_and_records_columns() {
    let reg = registry();
    let mut cfg = Config::new();
    let mut app = app(1);
    app.enter_column_config_mode(&reg, &cfg);
    assert_eq!(app.mode, Mode::ColumnConfig);
    let st = app.column_config_state.as_ref().unwrap();
    assert_eq!(st.columns.len(), 1);
    assert!(st.columns[0].visible);
    app.toggle_column_visibility();
    assert!(app.column_config_state.as_ref().unwrap().columns[0].visible);
    app.apply_column_config(&mut cfg);
    assert_eq!(app.mode, Mode::Normal);
    assert!(cfg.get_hidden_columns("compute-instances").is_empty());
}

#[test]
fn suggestions_filter_and_wrap() {
    let mut reg = registry();
    reg.insert_resource("compute-disks".to_string(), def());
    let mut cfg = Config::new();
    cfg.add_alias("vm", "compute-instances");
    let themes = vec!["nord".to_string()];
    let mut app = app(1);
    let all = app.get_available_commands(&reg, &cfg, &themes);
    let mut sorted = all.clone();
    sorted.sort();
    assert_eq!(all, sorted);
    assert!(all.contains(&"theme nord".to_string()));
    assert!(all.contains(&"vm".to_string()));
    app.enter_command_mode(&reg, &cfg, &themes);
    assert_eq!(app.mode, Mode::Command);
    app.command_text = "DISK".to_string();
    app.update_command_suggestions(&reg, &cfg, &themes);
    assert_eq!(app.command_suggestions, vec!["compute-disks".to_string()]);
    assert_eq!(app.command_preview.as_deref(), Some("compute-disks"));
    assert_eq!(app.command_line(), "DISK");
    app.command_text = "disk".to_string();
    assert_eq!(app.command_line(), "compute-disks");
    app.command_text = "compute".to_string();
    app.update_command_suggestions(&reg, &cfg, &themes);
    assert_eq!(app.command_suggestions.len(), 2);
    app.prev_suggestion();
    assert_eq!(app.command_suggestion_selected, 1);
    app.next_suggestion();
    assert_eq!(app.command_suggestion_selected, 0);
}

#[test]
fn polling_is_gated_by_settings() {
    let mut app = app(1);
    let id = app.create_operation_notification("start_instance", "compute", "vm-0", 0);
    app.notification_manager.mark_in_progress(id, Some("op".to_string()), 0);
    assert_eq!(app.operations_due(5_000), vec![(id, "op".to_string())]);
    app.notification_manager.auto_poll = false;
    assert!(app.operations_due(10_000).is_empty());
    app.notification_manager.auto_poll = true;
    app.notifications_enabled = false;
    assert!(app.operations_due(10_000).is_empty());
}

fn key(c: char) -> Key {
    Key { code: KeyCode::Char(c), shift: false, ctrl: false }
}

fn code(code: KeyCode) -> Key {
    Key { code, shift: false, ctrl: false }
}

#[test]
fn list_keys_drive_the_state_machine() {
    let reg = registry();
    let mut app = app(12);
    assert!(matches!(app.handle_normal_key(&reg, key('j'), 0), KeyEffect::Nothing));
    assert_eq!(app.selected, 1);
    app.handle_normal_key(&reg, key('5'), 0);
    assert_eq!(app.selected, 4);
    app.handle_normal_key(&reg, key(' '), 0);
    assert!(app.is_selected(4));
    assert_eq!(app.selected, 5);
    app.handle_normal_key(&reg, code(KeyCode::Esc), 0);
    assert_eq!(app.selection_count(), 0);
    app.handle_normal_key(&reg, key('G'), 0);
    assert_eq!(app.selected, 11);
    app.handle_normal_key(&reg, key('g'), 100);
    app.handle_normal_key(&reg, key('g'), 600);
    assert_eq!(app.selected, 0);
    assert!(matches!(app.handle_normal_key(&reg, key(':'), 0), KeyEffect::OpenCommandLine));
    assert!(matches!(app.handle_normal_key(&reg, key('q'), 0), KeyEffect::Quit));
}

#[test]
fn filter_line_edits_the_filter() {
    let reg = registry();
    let mut app = app(12);
    app.handle_normal_key(&reg, key('/'), 0);
    assert!(app.filter_active);
    app.handle_normal_key(&reg, key('1'), 0);
    app.handle_normal_key(&reg, key('1'), 0);
    assert_eq!(app.filter_text, "11");
    assert_eq!(app.filtered_len(), 1);
    app.handle_normal_key(&reg, code(KeyCode::Backspace), 0);
    assert_eq!(app.filter_text, "1");
    assert_eq!(app.filtered_len(), 3);
    assert!(matches!(app.handle_normal_key(&reg, key('q'), 0), KeyEffect::Nothing));
    assert_eq!(app.filter_text, "1q");
    app.handle_normal_key(&reg, code(KeyCode::Esc), 0);
    assert!(!app.filter_active);
    assert_eq!(app.filter_text, "");
    assert_eq!(app.filtered_len(), 12);
}

#[test]
fn confirm_keys_answer_the_dialog() {
    let reg = registry();
    let mut app = app(2);
    let policy = ConfirmConfig { message: None, default_yes: false, destructive: true };
    app.begin_action(&reg, &action(Some(policy)));
    assert!(app.handle_confirm_key(code(KeyCode::Left)).is_none());
    assert!(app.pending_action.as_ref().unwrap().selected_yes);
    let accepted = app.handle_confirm_key(code(KeyCode::Enter)).expect("accepted");
    assert_eq!(accepted.resource_ids, vec!["vm-0".to_string()]);
    assert_eq!(app.mode, Mode::Normal);
    let policy = ConfirmConfig { message: None, default_yes: true, destructive: true };
    app.begin_action(&reg, &action(Some(policy)));
    assert!(app.handle_confirm_key(key('N')).is_none());
    assert!(app.pending_action.is_none());
}

#[test]
fn overlay_keys_close_overlays() {
    let mut app = app(2);
    app.enter_help_mode();
    app.handle_overlay_key(key('x'));
    assert_eq!(app.mode, Mode::Help);
    app.handle_overlay_key(key('?'));
    assert_eq!(app.mode, Mode::Normal);
    app.show_warning("read only");
    app.handle_overlay_key(code(KeyCode::Enter));
    assert_eq!(app.mode, Mode::Normal);
    assert!(app.warning_message.is_none());
}

#[test]
fn describe_keys_scroll() {
    let mut app = app(2);
    app.enter_describe_mode();
    app.handle_describe_key(key('j'), 100);
    app.handle_describe_key(code(KeyCode::PageDown), 100);
    assert_eq!(app.describe_scroll, 11);
    app.handle_describe_key(key('G'), 100);
    assert_eq!(app.describe_scroll, 70);
    app.handle_describe_key(key('g'), 100);
    assert_eq!(app.describe_scroll, 0);
    app.handle_describe_key(key('k'), 100);
    assert_eq!(app.describe_scroll, 0);
    app.handle_describe_key(key('q'), 100);
    assert_eq!(app.mode, Mode::Normal);
}

#[test]
fn notification_history_keys() {
    let mut app = app(1);
    for i in 0..3 {
        app.create_operation_notification("start_instance", "compute", &format!("vm-{}", i), 0);
    }
    app.enter_notifications_mode();
    app.handle_notifications_key(key('j'));
    app.handle_notifications_key(key('j'));
    app.handle_notifications_key(key('j'));
    assert_eq!(app.notifications_selected, 2);
    app.handle_notifications_key(code(KeyCode::Home));
    assert_eq!(app.notifications_selected, 0);
    app.handle_notifications_key(key('c'));
    assert_eq!(app.notification_manager.notifications.len(), 0);
    app.handle_notifications_key(key('n'));
    assert_eq!(app.mode, Mode::Normal);
}

#[test]
fn picker_keys_search_and_choose() {
    let mut cfg = Config::new();
    let mut app = App::new(
        "compute-instances".to_string(),
        "alpha".to_string(),
        "z".to_string(),
        vec!["alpha".to_string(), "beta".to_string(), "gamma".to_string()],
        vec!["us-east1-b".to_string()],
        Vec::new(),
        false,
    );
    app.enter_projects_mode();
    app.handle_selector_key(key('m'));
    assert_eq!(app.projects_filtered, vec!["gamma".to_string()]);
    app.handle_selector_key(code(KeyCode::Backspace));
    assert_eq!(app.projects_filtered.len(), 3);
    app.handle_selector_key(code(KeyCode::Down));
    let picked = app.handle_selector_key(code(KeyCode::Enter)).expect("a project");
    assert_eq!(picked, "beta");
    assert_eq!(app.mode, Mode::Normal);
    app.switch_project(&mut cfg, &picked);
    assert_eq!(app.project, "beta");
    assert_eq!(cfg.project_id.as_deref(), Some("beta"));
    app.enter_zones_mode();
    assert!(app.handle_selector_key(code(KeyCode::Esc)).is_none());
    assert_eq!(app.mode, Mode::Normal);
}

#[test]
fn command_line_keys() {
    let reg = registry();
    let cfg = Config::new();
    let themes: Vec<String> = Vec::new();
    let mut app = app(1);
    app.enter_command_mode(&reg, &cfg, &themes);
    for c in "zon".chars() {
        app.handle_command_key(key(c), &reg, &cfg, &themes);
    }
    assert_eq!(app.command_preview.as_deref(), Some("zones"));
    app.handle_command_key(code(KeyCode::Tab), &reg, &cfg, &themes);
    assert_eq!(app.command_text, "zones");
    let line = app.handle_command_key(code(KeyCode::Enter), &reg, &cfg, &themes);
    assert_eq!(line.as_deref(), Some("zones"));
    assert_eq!(app.mode, Mode::Normal);
}

#[test]
fn column_overlay_keys() {
    let reg = registry();
    let mut cfg = Config::new();
    let mut app = app(1);
    app.enter_column_config_mode(&reg, &cfg);
    app.handle_column_config_key(key('j'), &mut cfg);
    assert_eq!(app.column_config_state.as_ref().unwrap().selected, 0);
    app.handle_column_config_key(code(KeyCode::Esc), &mut cfg);
    assert_eq!(app.mode, Mode::Normal);
    assert!(app.column_config_state.is_none());
}

#[test]
fn keys_are_routed_by_mode() {
    let reg = registry();
    let mut cfg = Config::new();
    let themes: Vec<String> = Vec::new();
    let mut app = app(3);
    let ctrl_c = Key { code: KeyCode::Char('c'), shift: false, ctrl: true };
    assert!(matches!(app.handle_key(&reg, &mut cfg, &themes, ctrl_c, 0, 0), KeyOutcome::Quit));
    app.handle_key(&reg, &mut cfg, &themes, key('?'), 0, 0);
    assert_eq!(app.mode, Mode::Help);
    app.handle_key(&reg, &mut cfg, &themes, code(KeyCode::Esc), 0, 0);
    assert_eq!(app.mode, Mode::Normal);
    let policy = ConfirmConfig { message: None, default_yes: true, destructive: false };
    app.begin_action(&reg, &action(Some(policy)));
    match app.handle_key(&reg, &mut cfg, &themes, code(KeyCode::Enter), 0, 0) {
        KeyOutcome::Confirmed(p) => assert_eq!(p.resource_ids, vec!["vm-0".to_string()]),
        _ => panic!("confirmed action expected"),
    }
}

#[test]
fn status_line_priority() {
    let mut app = app(1);
    assert!(matches!(app.status_line(0), tgcp::app::StatusLine::Empty));
    app.loading = true;
    assert!(matches!(app.status_line(0), tgcp::app::StatusLine::Loading));
    app.create_operation_notification("start_instance", "compute", "vm-0", 0);
    match app.status_line(10) {
        tgcp::app::StatusLine::Toast(t) => assert_eq!(t, "◯ Starting vm-0..."),
        _ => panic!("toast expected"),
    }
    app.error_message = Some("Resource not found.".to_string());
    match app.status_line(10) {
        tgcp::app::StatusLine::Error(e) => assert_eq!(e, "Resource not found."),
        _ => panic!("error expected"),
    }
}

#[test]
fn startup_choices() {
    let none: Option<String> = None;
    assert!(tgcp::startup::choose_project(none.clone(), String::new()).is_err());
    assert_eq!(
        tgcp::startup::choose_project(Some("cli".to_string()), "cfg".to_string()).ok(),
        Some("cli".to_string())
    );
    assert_eq!(tgcp::startup::choose_zone(none, "z1".to_string()), "z1");
    assert_eq!(tgcp::startup::project_choices("cur", Some(Vec::new())), vec!["cur".to_string()]);
    let zones = tgcp::startup::zone_choices(Some(vec!["z1".to_string()]));
    assert_eq!(zones, vec!["all".to_string(), "z1".to_string()]);
    assert_eq!(tgcp::startup::zone_choices(None).len(), tgcp::startup::KNOWN_ZONE_COUNT + 1);
}
