//! When a daily task next runs: the wait from the current local time of day
//! to the task's time of day, today if that is still ahead, else tomorrow.

use chrono::Timelike;
use vstd::prelude::*;

verus! {

pub const SECONDS_PER_DAY: u64 = 86400;

pub open spec fn valid_time_of_day(hour: u32, minute: u32, second: u32) -> bool {
    hour < 24 && minute < 60 && second < 60
}

pub open spec fn second_of_day(hour: u32, minute: u32, second: u32) -> int {
    hour * 3600 + minute * 60 + second
}

/// The seconds from `now` to the next occurrence of `target`, both seconds of
/// the day: zero where they are equal, and a wait into tomorrow where `target`
/// has passed.
pub open spec fn wait_until(now: int, target: int) -> int {
    if now > target {
        target + 86400 - now
    } else {
        target - now
    }
}

/// Relies on chrono's `Local::now` and `Timelike`: the hour (0 to 23), minute
/// (0 to 59) and second (0 to 59) of the current local time. It depends on the
/// clock, so nothing more is promised.
#[verifier::external_body]
fn local_time_of_day() -> (r: (u32, u32, u32))
    ensures
        valid_time_of_day(r.0, r.1, r.2),
{
    let now = chrono::Local::now();
    (now.hour(), now.minute(), now.second())
}

/// The wait, in seconds, from the time of day `now_*` to the next run at
/// `hour:minute:second`; `None` where either is not a valid time of day.
pub fn daily_run_delay(
    now_hour: u32,
    now_minute: u32,
    now_second: u32,
    hour: u32,
    minute: u32,
    second: u32,
) -> (r: Option<u64>)
    ensures
        match r {
            Some(w) => valid_time_of_day(now_hour, now_minute, now_second)
                && valid_time_of_day(hour, minute, second)
                && w == wait_until(
                    second_of_day(now_hour, now_minute, now_second),
                    second_of_day(hour, minute, second),
                ),
            None => !valid_time_of_day(now_hour, now_minute, now_second)
                || !valid_time_of_day(hour, minute, second),
        },
{
    if now_hour >= 24 || now_minute >= 60 || now_second >= 60 || hour >= 24 || minute >= 60 || second >= 60 {
        return None;
    }
    let now = (now_hour * 3600 + now_minute * 60 + now_second) as u64;
    let target = (hour * 3600 + minute * 60 + second) as u64;
    if now > target {
        Some(target + SECONDS_PER_DAY - now)
    } else {
        Some(target - now)
    }
}

/// The wait, in seconds, from now to the next run of a daily task at
/// `hour:minute:second` local time; `None` where that is not a valid time of
/// day.
pub fn next_daily_run_delay(hour: u32, minute: u32, second: u32) -> (r: Option<u64>)
    ensures
        r is Some <==> valid_time_of_day(hour, minute, second),
        match r {
            Some(w) => exists|now_hour: u32, now_minute: u32, now_second: u32|
                valid_time_of_day(now_hour, now_minute, now_second)
                && w == #[trigger] wait_until(
                    second_of_day(now_hour, now_minute, now_second),
                    second_of_day(hour, minute, second),
                ),
            None => true,
        },
{
    let (now_hour, now_minute, now_second) = local_time_of_day();
    daily_run_delay(now_hour, now_minute, now_second, hour, minute, second)
}

} // verus!
