use pc_monitor::aggregate::{aggregate_durations, TimedEvent};
use pc_monitor::ignore::is_ignored;
use pc_monitor::store::UsageStore;

fn timed(seconds: i64, app: &str) -> TimedEvent {
    TimedEvent { seconds: Some(seconds), app_name: app.to_string() }
}

const T0: i64 = 1_736_000_000;

#[test]
fn scenario_editor_browser_editor() {
    let events = vec![timed(T0, "Editor"), timed(T0 + 30, "Browser"), timed(T0 + 90, "Editor")];
    let m = aggregate_durations(&events).expect("no overflow");
    assert_eq!(m.len(), 2);
    assert_eq!(m.get("Editor"), Some(30));
    assert_eq!(m.get("Browser"), Some(60));
    assert_eq!(m.entries()[0].app_name, "Editor");
    assert_eq!(m.entries()[1].app_name, "Browser");
}

#[test]
fn scenario_from_stored_timestamps() {
    let mut store = UsageStore::new();
    store.record_event("2025-01-05 09:00:00".to_string(), "Editor".to_string()).unwrap();
    store.record_event("2025-01-05 09:00:30".to_string(), "Browser".to_string()).unwrap();
    store.record_event("2025-01-05 09:01:30".to_string(), "Editor".to_string()).unwrap();
    let m = store
        .collect_app_usage_duration("2025-01-05 00:00:00", "2025-01-05 23:59:59")
        .expect("no overflow");
    assert_eq!(m.len(), 2);
    assert_eq!(m.get("Editor"), Some(30));
    assert_eq!(m.get("Browser"), Some(60));
}

#[test]
fn window_leaves_out_events_of_other_days() {
    let mut store = UsageStore::new();
    store.record_event("2025-01-04 23:59:00".to_string(), "Night".to_string()).unwrap();
    store.record_event("2025-01-05 08:00:00".to_string(), "Editor".to_string()).unwrap();
    store.record_event("2025-01-05 08:10:00".to_string(), "Browser".to_string()).unwrap();
    store.record_event("2025-01-06 00:00:05".to_string(), "Late".to_string()).unwrap();
    let m = store
        .collect_app_usage_duration("2025-01-05 00:00:00", "2025-01-05 23:59:59")
        .unwrap();
    assert_eq!(m.len(), 1);
    assert_eq!(m.get("Editor"), Some(600));
    assert_eq!(m.get("Night"), None);
    assert_eq!(m.get("Browser"), None);
}

#[test]
fn unreadable_timestamp_skips_its_pairs() {
    let mut store = UsageStore::new();
    store.record_event("2025-01-05 09:00:00".to_string(), "Editor".to_string()).unwrap();
    store.record_event("2025-01-05 09:02:xx".to_string(), "Browser".to_string()).unwrap();
    store.record_event("2025-01-05 09:05:00".to_string(), "Mail".to_string()).unwrap();
    store.record_event("2025-01-05 09:06:00".to_string(), "Editor".to_string()).unwrap();
    let m = store.collect_app_usage_duration("", "\u{10FFFF}").unwrap();
    assert_eq!(m.len(), 1);
    assert_eq!(m.get("Mail"), Some(60));
}

#[test]
fn total_spans_first_to_last_event() {
    let events = vec![
        timed(T0, "A"),
        timed(T0 + 7, "B"),
        timed(T0 + 7, "C"),
        timed(T0 + 100, "A"),
        timed(T0 + 160, "B"),
        timed(T0 + 400, "D"),
    ];
    let m = aggregate_durations(&events).unwrap();
    let sum: i64 = m.entries().iter().map(|e| e.seconds).sum();
    assert_eq!(sum, 400);
    assert_eq!(m.get("A"), Some(7 + 60));
    assert_eq!(m.get("B"), Some(0 + 240));
    assert_eq!(m.get("C"), Some(93));
    assert_eq!(m.get("D"), None);
}

#[test]
fn consecutive_pairs_accumulate() {
    let events = vec![timed(T0, "Editor"), timed(T0 + 20, "Editor"), timed(T0 + 50, "Browser")];
    let m = aggregate_durations(&events).unwrap();
    assert_eq!(m.get("Editor"), Some(50));
    assert_eq!(m.len(), 1);
}

#[test]
fn ignored_event_is_never_a_key_and_closes_the_interval() {
    let events = vec![
        timed(T0, "Editor"),
        timed(T0 + 40, "LockApp.exe"),
        timed(T0 + 1000, "Browser"),
        timed(T0 + 1010, "Application Exited"),
    ];
    let m = aggregate_durations(&events).unwrap();
    assert_eq!(m.len(), 2);
    assert_eq!(m.get("Editor"), Some(40));
    assert_eq!(m.get("Browser"), Some(10));
    assert_eq!(m.get("LockApp.exe"), None);
    assert_eq!(m.get("Application Exited"), None);
}

#[test]
fn leading_ignored_events_are_skipped() {
    let events = vec![timed(T0, "TaskManager"), timed(T0 + 5, "ShellHost"), timed(T0 + 9, "Editor"), timed(T0 + 19, "Mail")];
    let m = aggregate_durations(&events).unwrap();
    assert_eq!(m.len(), 1);
    assert_eq!(m.get("Editor"), Some(10));
}

#[test]
fn empty_and_single_event_give_empty_mapping() {
    assert_eq!(aggregate_durations(&vec![]).unwrap().len(), 0);
    assert_eq!(aggregate_durations(&vec![timed(T0, "Editor")]).unwrap().len(), 0);
}

#[test]
fn overflowing_delta_is_reported() {
    let events = vec![timed(i64::MIN, "Editor"), timed(i64::MAX, "Browser")];
    assert!(aggregate_durations(&events).is_none());
    let events = vec![timed(0, "Editor"), timed(i64::MAX, "Browser"), timed(0, "Editor"), timed(i64::MAX, "Mail")];
    assert!(aggregate_durations(&events).is_none());
}

#[test]
fn ignore_policy_membership() {
    for name in [
        "Windows Shell Experience Host",
        "Windows Start Experience Host",
        "LockApp.exe",
        "Windows 资源管理器",
        "Windows Explorer",
        "Windows Terminal Host",
        "ShellHost",
        "任务管理器",
        "TaskManager",
        "Application Exited",
    ] {
        assert!(is_ignored(name), "{}", name);
    }
    assert!(!is_ignored("Visual Studio Code"));
    assert!(!is_ignored(""));
    assert!(!is_ignored("lockapp.exe"));
}

#[test]
fn events_are_taken_in_time_order() {
    let mut store = UsageStore::new();
    store.record_event("2025-01-05 09:00:30".to_string(), "Browser".to_string()).unwrap();
    store.record_event("2025-01-05 09:00:00".to_string(), "Editor".to_string()).unwrap();
    store.record_event("2025-01-05 09:01:30".to_string(), "Editor".to_string()).unwrap();
    let m = store
        .collect_app_usage_duration("2025-01-05 00:00:00", "2025-01-05 23:59:59")
        .unwrap();
    assert_eq!(m.get("Editor"), Some(30));
    assert_eq!(m.get("Browser"), Some(60));
}

#[test]
fn equal_timestamps_keep_id_order() {
    let mut store = UsageStore::new();
    store.record_event("2025-01-05 09:00:00".to_string(), "Editor".to_string()).unwrap();
    store.record_event("2025-01-05 09:00:10".to_string(), "Browser".to_string()).unwrap();
    store.record_event("2025-01-05 09:00:10".to_string(), "Mail".to_string()).unwrap();
    store.record_event("2025-01-05 09:00:05".to_string(), "Terminal".to_string()).unwrap();
    store.record_event("2025-01-05 09:01:10".to_string(), "Editor".to_string()).unwrap();
    let m = store
        .collect_app_usage_duration("2025-01-05 00:00:00", "2025-01-05 23:59:59")
        .unwrap();
    assert_eq!(m.get("Editor"), Some(5));
    assert_eq!(m.get("Terminal"), Some(5));
    assert_eq!(m.get("Browser"), Some(0));
    assert_eq!(m.get("Mail"), Some(60));
}
