use pc_monitor::capture::FocusTracker;
use pc_monitor::constants::{WindowEvent, TABLE};
use pc_monitor::schedule::{daily_run_delay, next_daily_run_delay};
use pc_monitor::window::{set_start_on_boot, window_close, AutostartCommand, WindowCommand, WindowManager, WindowProbe};

#[test]
fn focus_changes_are_logged_once() {
    let mut t = FocusTracker::new();
    assert!(t.observe("Editor"));
    assert!(!t.observe("Editor"));
    assert!(t.observe("Browser"));
    assert!(!t.observe("Windows Shell Experience Host"));
    assert!(t.observe("Browser"));
    assert!(!t.observe("LockApp.exe"));
    assert!(!t.observe("Application Exited"));
    assert!(t.observe("Editor"));
}

#[test]
fn minimize_decisions() {
    assert_eq!(WindowManager::minimize(WindowProbe::Answered(false)), (WindowCommand::Minimize, true));
    assert_eq!(WindowManager::minimize(WindowProbe::Missing), (WindowCommand::Leave, false));
    assert_eq!(WindowManager::minimize(WindowProbe::Failed), (WindowCommand::Leave, false));
}

#[test]
fn toggle_maximize_decisions() {
    assert_eq!(WindowManager::toggle_maximize(WindowProbe::Answered(true)), (WindowCommand::Unmaximize, true));
    assert_eq!(WindowManager::toggle_maximize(WindowProbe::Answered(false)), (WindowCommand::Maximize, true));
    assert_eq!(WindowManager::toggle_maximize(WindowProbe::Failed), (WindowCommand::Leave, false));
}

#[test]
fn toggle_always_on_top_decisions() {
    assert_eq!(
        WindowManager::toggle_always_on_top(WindowProbe::Answered(true)),
        (WindowCommand::SetAlwaysOnTop(false), true)
    );
    assert_eq!(
        WindowManager::toggle_always_on_top(WindowProbe::Answered(false)),
        (WindowCommand::SetAlwaysOnTop(true), true)
    );
    assert_eq!(WindowManager::toggle_always_on_top(WindowProbe::Missing), (WindowCommand::Leave, false));
}

#[test]
fn start_on_boot_choice() {
    assert_eq!(set_start_on_boot(true), AutostartCommand::Enable);
    assert_eq!(set_start_on_boot(false), AutostartCommand::Disable);
}

#[test]
fn daily_delay_today_or_tomorrow() {
    assert_eq!(daily_run_delay(10, 0, 0, 20, 0, 0), Some(36_000));
    assert_eq!(daily_run_delay(21, 0, 0, 20, 0, 0), Some(82_800));
    assert_eq!(daily_run_delay(20, 0, 0, 20, 0, 0), Some(0));
    assert_eq!(daily_run_delay(19, 59, 59, 20, 0, 0), Some(1));
    assert_eq!(daily_run_delay(10, 0, 0, 24, 0, 0), None);
    assert_eq!(daily_run_delay(10, 60, 0, 20, 0, 0), None);
}

#[test]
fn test_run_daily_task() {
    let delay = next_daily_run_delay(20, 0, 0).expect("valid time of day");
    assert!(delay < 86_400);
    assert_eq!(next_daily_run_delay(20, 0, 60), None);
}

#[test]
fn names_of_relations_and_markers() {
    assert_eq!(TABLE::APP_USAGE_LOGS, "app_usage_logs");
    assert_eq!(TABLE::DAILY_APP_USAGE, "daily_app_usage");
    assert_eq!(TABLE::DAILY_USAGE_STATS, "daily_usage_stats");
    assert_eq!(WindowEvent::EXITED, "Application Exited");
    assert_eq!(WindowEvent::LOCKED, "LockApp.exe");
}

#[test]
fn close_decisions() {
    assert_eq!(window_close(true, true), WindowCommand::Hide);
    assert_eq!(window_close(true, false), WindowCommand::Close);
    assert_eq!(window_close(false, true), WindowCommand::Leave);
}
