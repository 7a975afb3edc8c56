//! The operations that the scheduler and the user interface invoke: they read
//! today's date or the local day's bounds from the clock, then run the verified
//! rollups and queries of the store on those values.

use vstd::prelude::*;
use crate::aggregate::{aggregate, aggregate_fits};
use crate::clock::{
    days_before, iso_date, iso_date_days_before, iso_date_of, local_offset_at, local_today, parse_timestamp,
    timestamp_of, utc_text, utc_text_of, utc_today,
};
use crate::durations::{fits_i64, put, UsageMap};
use crate::query::{range_totals, range_usage, RangeUsage};
use crate::rollup::{apply_rollup, day_total};
use crate::timeline::window_moments;
use crate::store::{UsageError, UsageStore};

verus! {

/// The seconds by which a time zone may be ahead of UTC: less than a day
/// either way.
pub open spec fn offset_in_day(o: int) -> bool {
    -86400 < o < 86400
}

/// The UTC texts of the first and the last second of the local day `d`, where
/// the time zone is `o1` seconds ahead of UTC at local midnight and `o2`
/// seconds ahead at 23:59:59.
pub open spec fn day_window(d: Seq<char>, o1: int, o2: int) -> Option<(Seq<char>, Seq<char>)> {
    match timestamp_of(d + " 00:00:00"@) {
        Some(midnight) => match (utc_text_of(midnight - o1), utc_text_of(midnight + 86399 - o2)) {
            (Some(lo), Some(hi)) => Some((lo, hi)),
            _ => None,
        },
        None => None,
    }
}

/// `lo..=hi` is the window of some local calendar day, under offsets that a
/// time zone can have.
pub open spec fn local_day_window(lo: Seq<char>, hi: Seq<char>) -> bool {
    exists|d: Seq<char>, o1: int, o2: int|
        iso_date_of(d) == Some(d) && offset_in_day(o1) && offset_in_day(o2)
        && #[trigger] day_window(d, o1, o2) == Some((lo, hi))
}

/// The first and the last second of the local day `local_date`, as UTC
/// timestamps: the window of events that make up that day. `None` where the
/// date is invalid, a wall-clock time of the day names no single instant, or
/// an instant leaves chrono's range.
pub fn get_local_day_start_end_in_utc(local_date: &str) -> (r: Option<(String, String)>)
    ensures
        r matches Some((lo, hi)) ==> exists|o1: int, o2: int|
            offset_in_day(o1) && offset_in_day(o2)
            && #[trigger] day_window(local_date@, o1, o2) == Some((lo@, hi@)),
{
    let midnight_text = String::from_str(local_date).concat(" 00:00:00");
    let midnight = match parse_timestamp(midnight_text.as_str()) {
        Some(t) => t,
        None => {
            return None;
        },
    };
    let o1 = match local_offset_at(local_date, 0, 0, 0) {
        Some(o) => o,
        None => {
            return None;
        },
    };
    let o2 = match local_offset_at(local_date, 23, 59, 59) {
        Some(o) => o,
        None => {
            return None;
        },
    };
    let lo = match utc_text(midnight - o1 as i64) {
        Some(t) => t,
        None => {
            return None;
        },
    };
    let hi = match utc_text(midnight + 86399 - o2 as i64) {
        Some(t) => t,
        None => {
            return None;
        },
    };
    assert(day_window(local_date@, o1 as int, o2 as int) == Some((lo@, hi@)));
    Some((lo, hi))
}

/// Recomputes the per-application usage of the current local day from the
/// event log and upserts it under `today`.
fn update_app_usage_on(store: &mut UsageStore, today: &str) -> (r: Result<(), UsageError>)
    requires
        old(store).wf(),
    ensures
        final(store).wf(),
        final(store).event_rows() == old(store).event_rows(),
        final(store).stat_rows() == old(store).stat_rows(),
        final(store).next_event_id() == old(store).next_event_id(),
        match r {
            Ok(()) => exists|lo: Seq<char>, hi: Seq<char>|
                local_day_window(lo, hi)
                && aggregate_fits(window_moments(old(store).event_rows(), lo, hi))
                && #[trigger] final(store).app_rows() == apply_rollup(
                    old(store).app_rows(),
                    today@,
                    aggregate(window_moments(old(store).event_rows(), lo, hi)),
                ),
            Err(e) => final(store).app_rows() == old(store).app_rows() && (e
                == UsageError::LocalTimeUnavailable || (e == UsageError::Overflow && exists|
                lo: Seq<char>,
                hi: Seq<char>,
            | local_day_window(lo, hi) && !aggregate_fits(#[trigger] window_moments(old(store).event_rows(), lo, hi)))),
        },
{
    let local = local_today();
    match get_local_day_start_end_in_utc(local.as_str()) {
        Some((start, end)) => {
            proof {
                let (o1, o2) = choose|o1: int, o2: int| offset_in_day(o1) && offset_in_day(o2)
                    && #[trigger] day_window(local@, o1, o2) == Some((start@, end@));
                assert(local_day_window(start@, end@));
            }
            store.update_daily_app_usage_at(today, start.as_str(), end.as_str())
        },
        None => Err(UsageError::LocalTimeUnavailable),
    }
}

/// Recomputes the per-application usage of the current local day from the
/// event log and upserts it under today's UTC date.
pub fn update_daily_app_usage(store: &mut UsageStore) -> (r: Result<(), UsageError>)
    requires
        old(store).wf(),
    ensures
        final(store).wf(),
        final(store).event_rows() == old(store).event_rows(),
        final(store).stat_rows() == old(store).stat_rows(),
        final(store).next_event_id() == old(store).next_event_id(),
        match r {
            Ok(()) => exists|today: Seq<char>, lo: Seq<char>, hi: Seq<char>|
                iso_date_of(today) == Some(today)
                && local_day_window(lo, hi)
                && aggregate_fits(window_moments(old(store).event_rows(), lo, hi))
                && #[trigger] final(store).app_rows() == apply_rollup(
                    old(store).app_rows(),
                    today,
                    aggregate(window_moments(old(store).event_rows(), lo, hi)),
                ),
            Err(e) => final(store).app_rows() == old(store).app_rows() && (e
                == UsageError::LocalTimeUnavailable || (e == UsageError::Overflow && exists|
                lo: Seq<char>,
                hi: Seq<char>,
            | local_day_window(lo, hi) && !aggregate_fits(#[trigger] window_moments(old(store).event_rows(), lo, hi)))),
        },
{
    let today = utc_today();
    update_app_usage_on(store, today.as_str())
}

/// Sums today's per-application rows (today's UTC date) and upserts the
/// result as today's whole-day total.
pub fn update_daily_usage_stats(store: &mut UsageStore) -> (r: Result<(), UsageError>)
    requires
        old(store).wf(),
    ensures
        final(store).wf(),
        final(store).event_rows() == old(store).event_rows(),
        final(store).app_rows() == old(store).app_rows(),
        final(store).next_event_id() == old(store).next_event_id(),
        match r {
            Ok(()) => exists|today: Seq<char>|
                iso_date_of(today) == Some(today)
                && fits_i64(day_total(old(store).app_rows(), today))
                && #[trigger] final(store).stat_rows() == put(
                    old(store).stat_rows(),
                    today,
                    day_total(old(store).app_rows(), today),
                ),
            Err(e) => e == UsageError::Overflow && final(store).stat_rows() == old(store).stat_rows()
                && exists|today: Seq<char>| iso_date_of(today) == Some(today)
                    && !fits_i64(#[trigger] day_total(old(store).app_rows(), today)),
        },
{
    let today = utc_today();
    store.update_daily_usage_stats_at(today.as_str())
}

/// Runs both rollups for one UTC date, the per-application one first, so that
/// the whole-day total is the sum of the per-application rows just written.
pub fn refresh_data(store: &mut UsageStore) -> (r: Result<(), UsageError>)
    requires
        old(store).wf(),
    ensures
        final(store).wf(),
        final(store).event_rows() == old(store).event_rows(),
        final(store).next_event_id() == old(store).next_event_id(),
        match r {
            Ok(()) => exists|today: Seq<char>, lo: Seq<char>, hi: Seq<char>|
                iso_date_of(today) == Some(today) && local_day_window(lo, hi)
                && #[trigger] final(store).app_rows() == apply_rollup(
                    old(store).app_rows(),
                    today,
                    aggregate(window_moments(old(store).event_rows(), lo, hi)),
                ) && final(store).stat_rows() == put(
                    old(store).stat_rows(),
                    today,
                    day_total(final(store).app_rows(), today),
                ),
            Err(e) => final(store).stat_rows() == old(store).stat_rows() && (
            (e == UsageError::LocalTimeUnavailable && final(store).app_rows() == old(store).app_rows())
                || (e == UsageError::Overflow && ((exists|lo: Seq<char>, hi: Seq<char>|
                local_day_window(lo, hi) && !aggregate_fits(#[trigger] window_moments(old(store).event_rows(), lo, hi)))
                || (exists|today: Seq<char>| iso_date_of(today) == Some(today)
                    && !fits_i64(#[trigger] day_total(final(store).app_rows(), today)))))),
        },
{
    let today = utc_today();
    update_app_usage_on(store, today.as_str())?;
    store.update_daily_usage_stats_at(today.as_str())
}

/// The usage of each day from `start_date` to `end_date`, both inclusive,
/// given as `%Y-%m-%d` dates (fields may be unpadded). An inverted range gives
/// an empty result; a text that is no date gives `InvalidDate`.
pub fn get_app_usage_duration_range(store: &UsageStore, start_date: &str, end_date: &str) -> (r: Result<RangeUsage, UsageError>)
    requires
        store.wf(),
    ensures
        match r {
            Ok(u) => iso_date_of(start_date@) is Some && iso_date_of(end_date@) is Some
                && u@ == range_usage(store.app_rows(), iso_date_of(start_date@)->0, iso_date_of(end_date@)->0),
            Err(e) => e == UsageError::InvalidDate
                && (iso_date_of(start_date@) is None || iso_date_of(end_date@) is None),
        },
{
    let start = match iso_date(start_date) {
        Some(s) => s,
        None => {
            return Err(UsageError::InvalidDate);
        },
    };
    let end = match iso_date(end_date) {
        Some(s) => s,
        None => {
            return Err(UsageError::InvalidDate);
        },
    };
    Ok(store.usage_for_range(start.as_str(), end.as_str()))
}

/// The usage of each day from `n` days before `today` up to `today`, where
/// `today` is a `YYYY-MM-DD` date.
pub fn app_usage_last_n_days(store: &UsageStore, today: &str, n: u64) -> (r: Result<RangeUsage, UsageError>)
    requires
        store.wf(),
    ensures
        match r {
            Ok(u) => iso_date_days_before(today@, n) is Some
                && u@ == range_usage(store.app_rows(), iso_date_days_before(today@, n)->0, today@),
            Err(e) => e == UsageError::DateOutOfRange && iso_date_days_before(today@, n) is None,
        },
{
    match days_before(today, n) {
        Some(start) => Ok(store.usage_for_range(start.as_str(), today)),
        None => Err(UsageError::DateOutOfRange),
    }
}

/// The usage of each day of the last `n` days up to today (UTC), inclusive.
pub fn get_app_usage_duration_last_n_days(store: &UsageStore, n: u64) -> (r: Result<RangeUsage, UsageError>)
    requires
        store.wf(),
    ensures
        match r {
            Ok(u) => exists|today: Seq<char>| iso_date_of(today) == Some(today)
                && iso_date_days_before(today, n) is Some
                && #[trigger] range_usage(store.app_rows(), iso_date_days_before(today, n)->0, today) == u@,
            Err(e) => e == UsageError::DateOutOfRange && exists|today: Seq<char>|
                iso_date_of(today) == Some(today) && #[trigger] iso_date_days_before(today, n) is None,
        },
{
    let today = utc_today();
    app_usage_last_n_days(store, today.as_str(), n)
}

/// The whole-day totals from `n` days before `today` up to `today`, keyed by
/// date, where `today` is a `YYYY-MM-DD` date.
pub fn daily_totals_last_n_days(store: &UsageStore, today: &str, n: u64) -> (r: Result<UsageMap, UsageError>)
    requires
        store.wf(),
    ensures
        match r {
            Ok(m) => iso_date_days_before(today@, n) is Some && m.wf()
                && m@ == range_totals(store.stat_rows(), iso_date_days_before(today@, n)->0, today@),
            Err(e) => e == UsageError::DateOutOfRange && iso_date_days_before(today@, n) is None,
        },
{
    match days_before(today, n) {
        Some(start) => Ok(store.totals_for_range(start.as_str(), today)),
        None => Err(UsageError::DateOutOfRange),
    }
}

/// The whole-day totals of the last `n` days up to today (UTC), inclusive,
/// keyed by date.
pub fn get_daily_usage_duration_last_n_days(store: &UsageStore, n: u64) -> (r: Result<UsageMap, UsageError>)
    requires
        store.wf(),
    ensures
        match r {
            Ok(m) => m.wf() && exists|today: Seq<char>| iso_date_of(today) == Some(today)
                && iso_date_days_before(today, n) is Some
                && #[trigger] range_totals(store.stat_rows(), iso_date_days_before(today, n)->0, today) == m@,
            Err(e) => e == UsageError::DateOutOfRange && exists|today: Seq<char>|
                iso_date_of(today) == Some(today) && #[trigger] iso_date_days_before(today, n) is None,
        },
{
    let today = utc_today();
    daily_totals_last_n_days(store, today.as_str(), n)
}

} // verus!
