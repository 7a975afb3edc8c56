//! The durable form of the store: one SQL table per relation, and the
//! statement that appends a row to each.

use vstd::prelude::*;
use crate::store::UsageError;
use crate::text::same_text;

verus! {

/// Creates the event log.
pub const CREATE_APP_USAGE_LOGS: &'static str =
    "CREATE TABLE IF NOT EXISTS app_usage_logs (id INTEGER PRIMARY KEY, time DATETIME NOT NULL, app_name TEXT NOT NULL)";

/// Creates the per-application rollups, unique on date and application.
pub const CREATE_DAILY_APP_USAGE: &'static str =
    "CREATE TABLE IF NOT EXISTS daily_app_usage (id INTEGER PRIMARY KEY, date DATETIME NOT NULL, app_name TEXT NOT NULL, total_usage INTEGER NOT NULL, UNIQUE (date, app_name))";

/// Creates the whole-day totals, unique on date.
pub const CREATE_DAILY_USAGE_STATS: &'static str =
    "CREATE TABLE IF NOT EXISTS daily_usage_stats (id INTEGER PRIMARY KEY, date DATETIME NOT NULL, total_usage INTEGER NOT NULL, UNIQUE (date))";

/// Writes a per-application rollup, replacing the value of an existing row.
pub const UPSERT_DAILY_APP_USAGE: &'static str =
    "INSERT INTO daily_app_usage (date, app_name, total_usage) VALUES (?1, ?2, ?3) ON CONFLICT(date, app_name) DO UPDATE SET total_usage = ?3";

/// Writes a whole-day total, replacing the value of an existing row.
pub const UPSERT_DAILY_USAGE_STATS: &'static str =
    "INSERT INTO daily_usage_stats (date, total_usage) VALUES (?1, ?2) ON CONFLICT(date) DO UPDATE SET total_usage = ?2";

pub open spec fn insert_statement_spec(table_name: Seq<char>) -> Option<Seq<char>> {
    if table_name == "app_usage_logs"@ {
        Some("INSERT INTO app_usage_logs (id, time, app_name) VALUES (?, ?, ?)"@)
    } else if table_name == "daily_app_usage"@ {
        Some("INSERT INTO daily_app_usage (date, app_name, total_usage) VALUES (?, ?, ?)"@)
    } else if table_name == "daily_usage_stats"@ {
        Some("INSERT INTO daily_usage_stats (date, total_usage) VALUES (?, ?)"@)
    } else {
        None
    }
}

/// The statement that appends a row to the relation named `table_name`;
/// `UnknownTable` for any other name.
pub fn insert(table_name: &str) -> (r: Result<&'static str, UsageError>)
    ensures
        match r {
            Ok(s) => insert_statement_spec(table_name@) == Some(s@),
            Err(e) => e == UsageError::UnknownTable && insert_statement_spec(table_name@) is None,
        },
{
    if same_text(table_name, "app_usage_logs") {
        Ok("INSERT INTO app_usage_logs (id, time, app_name) VALUES (?, ?, ?)")
    } else if same_text(table_name, "daily_app_usage") {
        Ok("INSERT INTO daily_app_usage (date, app_name, total_usage) VALUES (?, ?, ?)")
    } else if same_text(table_name, "daily_usage_stats") {
        Ok("INSERT INTO daily_usage_stats (date, total_usage) VALUES (?, ?)")
    } else {
        Err(UsageError::UnknownTable)
    }
}

} // verus!
