use tgcp::notification::{
    DetailLevel, Notification, NotificationManager, NotificationStatus, OperationType, SoundConfig,
};
use tgcp::operation::{extract_operation_url, operation_status_of, OperationStatus};
use tgcp::json::JsonValue;

fn obj(members: Vec<(&str, JsonValue)>) -> JsonValue {
    JsonValue::Object(members.into_iter().map(|(k, v)| (k.to_string(), v)).collect())
}

fn s(v: &str) -> JsonValue {
    JsonValue::Str(v.to_string())
}

#[test]
fn test_notification_lifecycle() {
    let mut manager = NotificationManager::new();
    let id = manager.create_notification(
        OperationType::Start,
        "compute-instances".to_string(),
        "my-vm".to_string(),
        1_000,
    );
    assert_eq!(manager.notifications.len(), 1);
    assert!(matches!(manager.get(id).unwrap().status, NotificationStatus::Pending));

    manager.mark_in_progress(id, Some("https://example.com/op/123".to_string()), 1_100);
    assert!(matches!(manager.get(id).unwrap().status, NotificationStatus::InProgress));

    manager.mark_success(id, 1_200);
    assert!(matches!(manager.get(id).unwrap().status, NotificationStatus::Success));
}

#[test]
fn test_operation_type_from_method() {
    assert!(matches!(OperationType::from_method("start_instance"), OperationType::Start));
    assert!(matches!(OperationType::from_method("delete_disk"), OperationType::Delete));
    assert!(matches!(OperationType::from_method("custom_action"), OperationType::Other(_)));
}

#[test]
fn test_toast_message_formats() {
    let mut notif = Notification::new(
        OperationType::Start,
        "compute-instances".to_string(),
        "my-vm".to_string(),
        7,
        0,
    );
    let msg = notif.toast_message(DetailLevel::Minimal, 10);
    assert!(msg.contains("Starting"));
    assert!(msg.contains("my-vm"));

    notif.set_success(20);
    let msg = notif.toast_message(DetailLevel::Minimal, 30);
    assert!(msg.contains("Started"));
    assert!(msg.contains("✓"));
}

#[test]
fn toast_messages_per_detail_level() {
    let mut n = Notification::new(
        OperationType::Stop,
        "compute-instances".to_string(),
        "vm".to_string(),
        1,
        1_000,
    );
    assert_eq!(n.toast_message(DetailLevel::Detailed, 1_500), "◯ Stopping vm...");
    n.set_error("boom".to_string(), 62_500);
    assert_eq!(
        n.toast_message(DetailLevel::Verbose, 70_000),
        "✗ Failed vm [compute-instances] - boom"
    );
    let mut ok = Notification::new(OperationType::Reset, "t".to_string(), "r".to_string(), 2, 0);
    ok.set_success(2_500);
    assert_eq!(ok.toast_message(DetailLevel::Detailed, 9_999), "✓ Reset r (2s)");
    assert_eq!(ok.duration_display(0), "2s");
}

#[test]
fn duration_display_units() {
    let mut n = Notification::new(OperationType::Delete, "t".to_string(), "r".to_string(), 3, 0);
    assert_eq!(n.duration_display(999), "999ms");
    n.set_success(125_000);
    assert_eq!(n.duration_display(0), "2m5s");
}

#[test]
fn created_notifications_start_pending_with_nonzero_ids() {
    let mut m = NotificationManager::new();
    let a = m.create_notification(OperationType::Start, "t".to_string(), "a".to_string(), 0);
    let b = m.create_notification(OperationType::Stop, "t".to_string(), "b".to_string(), 0);
    assert_ne!(a, 0);
    assert_ne!(a, b);
    assert_eq!(m.notifications[0].id, b);
    assert_eq!(m.in_progress_count(), 2);
}

#[test]
fn in_progress_with_reference_is_polled_until_terminal() {
    let mut m = NotificationManager::new();
    m.poll_interval_ms = 2_000;
    let id = m.create_notification(OperationType::Start, "t".to_string(), "vm".to_string(), 0);
    m.mark_in_progress(id, Some("op-url".to_string()), 0);
    assert_eq!(m.pending_operations.len(), 1);
    assert!(m.operations_to_poll(1_000).is_empty());
    let due = m.operations_to_poll(2_000);
    assert_eq!(due, vec![(id, "op-url".to_string())]);
    assert_eq!(m.pending_operations[0].poll_count, 1);
    assert!(m.operations_to_poll(3_000).is_empty());
    m.mark_error(id, "quota".to_string(), 4_000);
    assert!(m.pending_operations.is_empty());
    assert!(m.get(id).unwrap().status.is_terminal());
    assert_eq!(m.get(id).unwrap().completed_at_ms, Some(4_000));
}

#[test]
fn without_reference_or_auto_poll_nothing_is_polled() {
    let mut m = NotificationManager::new();
    let id = m.create_notification(OperationType::Start, "t".to_string(), "vm".to_string(), 0);
    m.mark_in_progress(id, None, 0);
    assert!(m.pending_operations.is_empty());
    m.auto_poll = false;
    let id2 = m.create_notification(OperationType::Start, "t".to_string(), "vm2".to_string(), 0);
    m.mark_in_progress(id2, Some("x".to_string()), 0);
    assert!(m.pending_operations.is_empty());
    assert!(matches!(m.get(id2).unwrap().status, NotificationStatus::InProgress));
}

#[test]
fn history_evicts_oldest_terminal_first() {
    let mut m = NotificationManager::new();
    m.max_history = 3;
    let a = m.create_notification(OperationType::Start, "t".to_string(), "a".to_string(), 0);
    let b = m.create_notification(OperationType::Start, "t".to_string(), "b".to_string(), 0);
    let c = m.create_notification(OperationType::Start, "t".to_string(), "c".to_string(), 0);
    m.mark_success(b, 1);
    let d = m.create_notification(OperationType::Start, "t".to_string(), "d".to_string(), 2);
    assert_eq!(m.notifications.len(), 3);
    assert!(m.get(b).is_none());
    assert!(m.get(a).is_some() && m.get(c).is_some() && m.get(d).is_some());
    let e = m.create_notification(OperationType::Start, "t".to_string(), "e".to_string(), 3);
    assert_eq!(m.notifications.len(), 3);
    assert!(m.get(a).is_none());
    assert!(m.get(e).is_some());
}

#[test]
fn history_never_exceeds_cap() {
    let mut m = NotificationManager::new();
    m.max_history = 5;
    for i in 0..20u64 {
        let id = m.create_notification(OperationType::Start, "t".to_string(), format!("r{}", i), i);
        if i % 3 == 0 {
            m.mark_success(id, i);
        }
        assert!(m.notifications.len() <= 5);
    }
}

#[test]
fn toast_visible_only_within_duration() {
    let mut m = NotificationManager::new();
    assert!(m.current_toast(0).is_none());
    m.toast_duration_ms = 5_000;
    let id = m.create_notification(OperationType::Start, "t".to_string(), "vm".to_string(), 1_000);
    assert_eq!(m.current_toast(6_000).unwrap().id, id);
    assert!(m.current_toast(6_001).is_none());
    m.mark_success(id, 10_000);
    assert!(m.current_toast(12_000).is_some());
}

#[test]
fn sound_policy_only_decides_the_beep() {
    let mut m = NotificationManager::new();
    m.sound_config = SoundConfig::ErrorsOnly;
    let a = m.create_notification(OperationType::Start, "t".to_string(), "a".to_string(), 0);
    let b = m.create_notification(OperationType::Start, "t".to_string(), "b".to_string(), 0);
    assert!(!m.mark_success(a, 1));
    assert!(m.mark_error(b, "x".to_string(), 1));
    m.sound_config = SoundConfig::All;
    let c = m.create_notification(OperationType::Start, "t".to_string(), "c".to_string(), 0);
    assert!(m.mark_success(c, 1));
}

#[test]
fn recent_count_and_clear() {
    let mut m = NotificationManager::new();
    m.create_notification(OperationType::Start, "t".to_string(), "old".to_string(), 0);
    m.create_notification(OperationType::Start, "t".to_string(), "new".to_string(), 400_000);
    assert_eq!(m.recent_count(500_000), 1);
    assert!(m.has_notifications());
    m.clear();
    assert!(!m.has_notifications());
    assert!(m.current_toast(400_000).is_none());
}

#[test]
fn level_and_sound_names() {
    assert_eq!(DetailLevel::from_str("MINIMAL"), DetailLevel::Minimal);
    assert_eq!(DetailLevel::from_str("Verbose"), DetailLevel::Verbose);
    assert_eq!(DetailLevel::from_str("whatever"), DetailLevel::Detailed);
    assert_eq!(DetailLevel::Minimal.as_str(), "minimal");
    assert_eq!(SoundConfig::from_str("Errors"), SoundConfig::ErrorsOnly);
    assert_eq!(SoundConfig::from_str("ALL"), SoundConfig::All);
    assert_eq!(SoundConfig::from_str("loud"), SoundConfig::Off);
    assert_eq!(SoundConfig::ErrorsOnly.as_str(), "errors_only");
}

#[test]
fn operation_words() {
    assert_eq!(OperationType::Reset.present_participle(), "Resetting");
    assert_eq!(OperationType::Delete.past_tense(), "Deleted");
    assert_eq!(OperationType::from_method("resize_disk").display_name(), "resize_disk");
    assert_eq!(OperationType::from_method("stop_instance"), OperationType::Stop);
    assert_eq!(NotificationStatus::InProgress.icon(), "↻");
}

#[test]
fn operation_status_from_response() {
    assert_eq!(operation_status_of(&obj(vec![("status", s("DONE"))])), OperationStatus::Done);
    assert_eq!(operation_status_of(&obj(vec![("status", s("PENDING"))])), OperationStatus::Running);
    assert_eq!(
        operation_status_of(&obj(vec![("status", s("WEIRD"))])),
        OperationStatus::Unknown("WEIRD".to_string())
    );
    assert_eq!(operation_status_of(&obj(vec![])), OperationStatus::Unknown("UNKNOWN".to_string()));
    let failed = obj(vec![
        ("status", s("DONE")),
        (
            "error",
            obj(vec![("errors", JsonValue::Array(vec![obj(vec![("message", s("quota exceeded"))])]))]),
        ),
    ]);
    assert_eq!(operation_status_of(&failed), OperationStatus::Failed("quota exceeded".to_string()));
    let failed_plain = obj(vec![("status", s("DONE")), ("error", obj(vec![]))]);
    assert_eq!(
        operation_status_of(&failed_plain),
        OperationStatus::Failed("Unknown operation error".to_string())
    );
    assert!(OperationStatus::Done.is_terminal());
    assert!(!OperationStatus::Running.is_terminal());
    assert_eq!(
        extract_operation_url(&obj(vec![("selfLink", s("https://x/op/1"))])),
        Some("https://x/op/1".to_string())
    );
}

#[test]
fn active_projects_are_listed_in_order() {
    let listing = obj(vec![(
        "projects",
        JsonValue::Array(vec![
            obj(vec![("projectId", s("alpha")), ("lifecycleState", s("ACTIVE"))]),
            obj(vec![("projectId", s("gone")), ("lifecycleState", s("DELETE_REQUESTED"))]),
            obj(vec![("projectId", s("beta")), ("lifecycleState", s("ACTIVE")), ("name", s("Beta"))]),
        ]),
    )]);
    let projects = tgcp::operation::active_projects(&listing);
    let ids: Vec<&str> = projects.iter().map(|p| p.project_id.as_str()).collect();
    assert_eq!(ids, vec!["alpha", "beta"]);
    assert_eq!(projects[0].name, "-");
    assert_eq!(projects[1].name, "Beta");
    let bare = tgcp::operation::Project::from_value(&obj(vec![]));
    assert_eq!(bare.lifecycle_state, "UNKNOWN");
    assert!(tgcp::operation::active_projects(&obj(vec![])).is_empty());
}
