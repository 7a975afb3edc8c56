//! Names shared by the library and the program around it.

use vstd::prelude::*;

verus! {

/// The application's name.
pub const APP_NAME: &'static str = "pc-monitor";

/// The file name of the durable store.
pub const DB_NAME: &'static str = "pc_monitor.db";

/// The names of the store's relations.
pub struct TABLE;

impl TABLE {
    pub const APP_USAGE_LOGS: &'static str = "app_usage_logs";
    pub const DAILY_APP_USAGE: &'static str = "daily_app_usage";
    pub const DAILY_USAGE_STATS: &'static str = "daily_usage_stats";
}

/// Window titles with a meaning of their own in the event log.
pub struct WindowEvent;

impl WindowEvent {
    /// Written on a clean shutdown, to close the last open interval.
    pub const EXITED: &'static str = "Application Exited";
    /// The lock screen.
    pub const LOCKED: &'static str = "LockApp.exe";
}

} // verus!
