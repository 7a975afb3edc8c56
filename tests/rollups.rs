use pc_monitor::schema::insert;
use pc_monitor::stats::{
    get_local_day_start_end_in_utc,
    app_usage_last_n_days, daily_totals_last_n_days, get_app_usage_duration_last_n_days,
    get_app_usage_duration_range, get_daily_usage_duration_last_n_days, refresh_data,
    update_daily_app_usage, update_daily_usage_stats,
};
use pc_monitor::store::{UsageError, UsageStore};

fn rows(store: &UsageStore) -> Vec<(String, String, i64)> {
    store
        .app_usage_rows()
        .iter()
        .map(|r| (r.date.clone(), r.app_name.clone(), r.total_usage))
        .collect()
}

fn day_events(store: &mut UsageStore) {
    store.record_event("2025-01-05 09:00:00".to_string(), "Editor".to_string()).unwrap();
    store.record_event("2025-01-05 09:00:30".to_string(), "Browser".to_string()).unwrap();
    store.record_event("2025-01-05 09:01:30".to_string(), "Editor".to_string()).unwrap();
}

#[test]
fn upsert_replaces_instead_of_adding() {
    let mut store = UsageStore::new();
    store.upsert_app_usage("2025-01-05", "Editor", 120);
    store.upsert_app_usage("2025-01-05", "Editor", 95);
    assert_eq!(rows(&store), vec![("2025-01-05".to_string(), "Editor".to_string(), 95)]);
}

#[test]
fn rollup_twice_gives_identical_rows() {
    let mut store = UsageStore::new();
    day_events(&mut store);
    store.update_daily_app_usage_at("2025-01-05", "2025-01-05 00:00:00", "2025-01-05 23:59:59").unwrap();
    let once = rows(&store);
    store.update_daily_app_usage_at("2025-01-05", "2025-01-05 00:00:00", "2025-01-05 23:59:59").unwrap();
    assert_eq!(rows(&store), once);
    assert_eq!(
        once,
        vec![
            ("2025-01-05".to_string(), "Editor".to_string(), 30),
            ("2025-01-05".to_string(), "Browser".to_string(), 60),
        ]
    );
}

#[test]
fn rollup_overwrites_with_recomputed_totals() {
    let mut store = UsageStore::new();
    day_events(&mut store);
    store.update_daily_app_usage_at("2025-01-05", "2025-01-05 00:00:00", "2025-01-05 23:59:59").unwrap();
    store.record_event("2025-01-05 09:02:30".to_string(), "Mail".to_string()).unwrap();
    store.update_daily_app_usage_at("2025-01-05", "2025-01-05 00:00:00", "2025-01-05 23:59:59").unwrap();
    let day = store.usage_for_day("2025-01-05");
    assert_eq!(day.get("Editor"), Some(90));
    assert_eq!(day.get("Browser"), Some(60));
    assert_eq!(day.get("Mail"), None);
    assert_eq!(store.app_usage_rows().len(), 2);
}

#[test]
fn stats_rollup_sums_the_day() {
    let mut store = UsageStore::new();
    store.upsert_app_usage("2025-01-05", "Editor", 30);
    store.upsert_app_usage("2025-01-05", "Browser", 60);
    store.upsert_app_usage("2025-01-06", "Editor", 1000);
    assert_eq!(store.daily_usage_total("2025-01-05"), Some(90));
    assert_eq!(store.daily_usage_total("2025-01-07"), Some(0));
    store.update_daily_usage_stats_at("2025-01-05").unwrap();
    store.update_daily_usage_stats_at("2025-01-05").unwrap();
    let stats: Vec<(String, i64)> =
        store.usage_stats_rows().iter().map(|r| (r.date.clone(), r.total_usage)).collect();
    assert_eq!(stats, vec![("2025-01-05".to_string(), 90)]);
}

#[test]
fn stats_overflow_is_reported() {
    let mut store = UsageStore::new();
    store.upsert_app_usage("2025-01-05", "Editor", i64::MAX);
    store.upsert_app_usage("2025-01-05", "Browser", 1);
    assert_eq!(store.daily_usage_total("2025-01-05"), None);
    assert_eq!(store.update_daily_usage_stats_at("2025-01-05"), Err(UsageError::Overflow));
    assert_eq!(store.usage_stats_rows().len(), 0);
}

#[test]
fn point_range_equals_day() {
    let mut store = UsageStore::new();
    store.upsert_app_usage("2025-01-04", "Editor", 10);
    store.upsert_app_usage("2025-01-05", "Editor", 30);
    store.upsert_app_usage("2025-01-05", "LockApp.exe", 300);
    store.upsert_app_usage("2025-01-05", "Browser", 60);
    store.upsert_app_usage("2025-01-06", "Browser", 70);
    let day = store.usage_for_day("2025-01-05");
    let range = store.usage_for_range("2025-01-05", "2025-01-05");
    assert_eq!(range.len(), 1);
    assert_eq!(range.days()[0].date, "2025-01-05");
    let from_range = range.get("2025-01-05").unwrap();
    assert_eq!(from_range.len(), day.len());
    assert_eq!(day.len(), 2);
    assert_eq!(from_range.get("Editor"), day.get("Editor"));
    assert_eq!(from_range.get("Browser"), day.get("Browser"));
    assert_eq!(day.get("LockApp.exe"), None);
    assert_eq!(store.usage_for_range("2025-01-07", "2025-01-07").len(), 0);
    assert_eq!(store.usage_for_day("2025-01-07").len(), 0);
}

#[test]
fn range_groups_by_date() {
    let mut store = UsageStore::new();
    store.upsert_app_usage("2025-01-04", "Editor", 10);
    store.upsert_app_usage("2025-01-05", "Editor", 30);
    store.upsert_app_usage("2025-01-04", "Browser", 5);
    store.upsert_app_usage("2025-01-09", "Browser", 70);
    let range = store.usage_for_range("2025-01-04", "2025-01-05");
    assert_eq!(range.len(), 2);
    assert_eq!(range.days()[0].date, "2025-01-04");
    assert_eq!(range.days()[1].date, "2025-01-05");
    assert_eq!(range.get("2025-01-04").unwrap().get("Browser"), Some(5));
    assert_eq!(range.get("2025-01-04").unwrap().get("Editor"), Some(10));
    assert!(range.get("2025-01-09").is_none());
}

#[test]
fn inverted_range_is_empty_not_an_error() {
    let mut store = UsageStore::new();
    store.upsert_app_usage("2025-01-07", "Editor", 30);
    let r = get_app_usage_duration_range(&store, "2025-01-10", "2025-01-05").expect("not an error");
    assert_eq!(r.len(), 0);
    assert_eq!(store.usage_for_range("2025-01-10", "2025-01-05").len(), 0);
}

#[test]
fn test_get_app_usage_duration_range() {
    let mut store = UsageStore::new();
    store.upsert_app_usage("2025-08-28", "Editor", 1);
    store.upsert_app_usage("2025-08-29", "Editor", 2);
    store.upsert_app_usage("2025-09-02", "Browser", 3);
    store.upsert_app_usage("2025-09-03", "Browser", 4);
    let mp = get_app_usage_duration_range(&store, "2025-08-29", "2025-9-02").expect("msg");
    assert_eq!(mp.len(), 2);
    assert_eq!(mp.get("2025-08-29").unwrap().get("Editor"), Some(2));
    assert_eq!(mp.get("2025-09-02").unwrap().get("Browser"), Some(3));
}

#[test]
fn invalid_date_is_reported() {
    let store = UsageStore::new();
    assert_eq!(get_app_usage_duration_range(&store, "2025-13-01", "2025-01-05").err(), Some(UsageError::InvalidDate));
    assert_eq!(get_app_usage_duration_range(&store, "2025-01-01", "yesterday").err(), Some(UsageError::InvalidDate));
}

#[test]
fn test_get_app_usage_duration_last_n_days() {
    let store = UsageStore::new();
    let mp = get_app_usage_duration_last_n_days(&store, 7).expect("msg");
    assert_eq!(mp.len(), 0);
}

#[test]
fn last_n_days_from_a_given_day() {
    let mut store = UsageStore::new();
    store.upsert_app_usage("2025-01-04", "Editor", 10);
    store.upsert_app_usage("2025-01-05", "Editor", 30);
    store.upsert_app_usage("2025-01-10", "Browser", 60);
    store.upsert_app_usage("2025-01-11", "Browser", 70);
    let r = app_usage_last_n_days(&store, "2025-01-10", 5).unwrap();
    assert_eq!(r.len(), 2);
    assert!(r.get("2025-01-05").is_some());
    assert!(r.get("2025-01-10").is_some());
    assert!(r.get("2025-01-04").is_none());
    assert_eq!(app_usage_last_n_days(&store, "2025-01-10", u64::MAX).err(), Some(UsageError::DateOutOfRange));
}

#[test]
fn daily_totals_of_last_n_days() {
    let mut store = UsageStore::new();
    store.upsert_usage_stats("2025-01-01", 5);
    store.upsert_usage_stats("2025-01-03", 50);
    store.upsert_usage_stats("2025-01-04", 500);
    store.upsert_usage_stats("2025-01-03", 40);
    let m = daily_totals_last_n_days(&store, "2025-01-04", 1).unwrap();
    assert_eq!(m.len(), 2);
    assert_eq!(m.get("2025-01-03"), Some(40));
    assert_eq!(m.get("2025-01-04"), Some(500));
    assert_eq!(store.totals_for_range("2025-01-01", "2025-01-04").len(), 3);
    assert!(get_daily_usage_duration_last_n_days(&store, 3).is_ok());
    assert_eq!(get_daily_usage_duration_last_n_days(&store, u64::MAX).err(), Some(UsageError::DateOutOfRange));
}

#[test]
fn clock_driven_rollups_run() {
    let mut store = UsageStore::new();
    store.record_event("2000-01-01 00:00:00".to_string(), "Editor".to_string()).unwrap();
    assert!(update_daily_app_usage(&mut store).is_ok());
    assert!(update_daily_usage_stats(&mut store).is_ok());
    assert_eq!(store.usage_stats_rows().len(), 1);
    assert_eq!(store.usage_stats_rows()[0].total_usage, 0);
    assert!(refresh_data(&mut store).is_ok());
    assert_eq!(store.usage_stats_rows().len(), 1);
}

#[test]
fn event_ids_are_a_sequence() {
    let mut store = UsageStore::new();
    assert_eq!(store.record_event("2025-01-05 09:00:00".to_string(), "Editor".to_string()), Ok(1));
    assert_eq!(store.record_event("2025-01-05 09:00:01".to_string(), "Mail".to_string()), Ok(2));
    assert!(!store.restore_event(2, "x".to_string(), "y".to_string()));
    assert!(store.restore_event(10, "2025-01-05 09:00:02".to_string(), "Editor".to_string()));
    assert_eq!(store.record_event("2025-01-05 09:00:03".to_string(), "Mail".to_string()), Ok(11));
    let ids: Vec<u64> = store.events().iter().map(|e| e.id).collect();
    assert_eq!(ids, vec![1, 2, 10, 11]);
}

#[test]
fn exhausted_ids_are_reported() {
    let mut store = UsageStore::new();
    assert!(store.restore_event(u64::MAX - 1, "t".to_string(), "a".to_string()));
    assert_eq!(store.record_event("t".to_string(), "b".to_string()), Err(UsageError::IdsExhausted));
    assert!(!store.restore_event(u64::MAX, "t".to_string(), "b".to_string()));
    assert_eq!(store.events().len(), 1);
}

#[test]
fn insert_statement_per_table() {
    assert_eq!(insert("app_usage_logs"), Ok("INSERT INTO app_usage_logs (id, time, app_name) VALUES (?, ?, ?)"));
    assert_eq!(insert("daily_app_usage"), Ok("INSERT INTO daily_app_usage (date, app_name, total_usage) VALUES (?, ?, ?)"));
    assert_eq!(insert("daily_usage_stats"), Ok("INSERT INTO daily_usage_stats (date, total_usage) VALUES (?, ?)"));
    assert_eq!(insert("sessions"), Err(UsageError::UnknownTable));
}

#[test]
fn local_day_bounds_span_the_day() {
    let (lo, hi) = get_local_day_start_end_in_utc("2025-01-05").expect("a plain winter day");
    assert_eq!(lo.len(), 19);
    assert_eq!(hi.len(), 19);
    assert!(lo < hi);
    let secs = |t: &str| chrono::NaiveDateTime::parse_from_str(t, "%Y-%m-%d %H:%M:%S").unwrap().and_utc().timestamp();
    let span = secs(&hi) - secs(&lo);
    assert!(span > 86399 - 86400 && span < 86399 + 86400);
    assert!(get_local_day_start_end_in_utc("2025-02-30").is_none());
    assert!(get_local_day_start_end_in_utc("today").is_none());
}
