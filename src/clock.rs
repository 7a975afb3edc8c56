//! Calendar and clock operations, all delegated to chrono. Results that depend
//! on the text alone are named; those that depend on the clock or the local
//! time zone carry no promise and are handed on as values.

use chrono::TimeZone;
use vstd::prelude::*;

verus! {

/// The instant, in whole seconds since the Unix epoch, that a stored
/// `YYYY-MM-DD HH:MM:SS` timestamp denotes; `None` where the text is not one.
pub uninterp spec fn timestamp_of(text: Seq<char>) -> Option<i64>;

/// The `YYYY-MM-DD` form of the calendar date that `text` (`%Y-%m-%d`, fields
/// possibly unpadded) denotes; `None` where it is not a valid date.
pub uninterp spec fn iso_date_of(text: Seq<char>) -> Option<Seq<char>>;

/// The `YYYY-MM-DD` form of the date `n` days before the date that `text`
/// denotes; `None` where `text` is no date or the result leaves chrono's range.
pub uninterp spec fn iso_date_days_before(text: Seq<char>, n: u64) -> Option<Seq<char>>;

/// The UTC `YYYY-MM-DD HH:MM:SS` text of the instant `secs` seconds after the
/// Unix epoch; `None` where the instant is outside chrono's range.
pub uninterp spec fn utc_text_of(secs: int) -> Option<Seq<char>>;

/// Bounds every instant chrono can represent: its dates lie within 262143
/// years of the common era, well inside ten trillion seconds of 1970.
pub open spec fn within_calendar(t: int) -> bool {
    -10_000_000_000_000 < t < 10_000_000_000_000
}

/// Relies on chrono's `NaiveDateTime::parse_from_str` with the format
/// `%Y-%m-%d %H:%M:%S`, the parsed value read as UTC by `and_utc().timestamp()`:
/// the result depends on the text alone. `timestamp` counts days from a
/// `NaiveDate`, whose year stays within `MIN_YEAR..=MAX_YEAR` (262142).
#[verifier::external_body]
pub(crate) fn parse_timestamp(text: &str) -> (r: Option<i64>)
    ensures
        r == timestamp_of(text@),
        r matches Some(t) ==> within_calendar(t as int),
{
    match chrono::NaiveDateTime::parse_from_str(text, "%Y-%m-%d %H:%M:%S") {
        Ok(t) => Some(t.and_utc().timestamp()),
        Err(_) => None,
    }
}

/// Relies on chrono's `NaiveDate::parse_from_str` with the format `%Y-%m-%d`,
/// the parsed date rendered by its `Display` impl: the result depends on the
/// text alone.
#[verifier::external_body]
pub(crate) fn iso_date(text: &str) -> (r: Option<String>)
    ensures
        match r {
            Some(s) => iso_date_of(text@) == Some(s@),
            None => iso_date_of(text@) is None,
        },
{
    match chrono::NaiveDate::parse_from_str(text, "%Y-%m-%d") {
        Ok(d) => Some(d.to_string()),
        Err(_) => None,
    }
}

/// Relies on chrono's `NaiveDate::checked_sub_days` on the date parsed with
/// `%Y-%m-%d`, rendered by `Display`: the result depends on the arguments alone.
#[verifier::external_body]
pub(crate) fn days_before(text: &str, n: u64) -> (r: Option<String>)
    ensures
        match r {
            Some(s) => iso_date_days_before(text@, n) == Some(s@),
            None => iso_date_days_before(text@, n) is None,
        },
{
    match chrono::NaiveDate::parse_from_str(text, "%Y-%m-%d") {
        Ok(d) => match d.checked_sub_days(chrono::Days::new(n)) {
            Some(e) => Some(e.to_string()),
            None => None,
        },
        Err(_) => None,
    }
}

/// Relies on chrono's `Utc::now`: today's date in UTC, rendered by
/// `NaiveDate`'s `Display` as `YYYY-MM-DD`. It depends on the clock; whatever
/// it is, the text reads back as itself.
#[verifier::external_body]
pub(crate) fn utc_today() -> (r: String)
    ensures
        iso_date_of(r@) == Some(r@),
{
    chrono::Utc::now().date_naive().to_string()
}

/// Relies on chrono's `Local::now`: today's date in the machine's time zone,
/// rendered by `NaiveDate`'s `Display` as `YYYY-MM-DD`. It depends on the clock
/// and the time zone; whatever it is, the text reads back as itself.
#[verifier::external_body]
pub(crate) fn local_today() -> (r: String)
    ensures
        iso_date_of(r@) == Some(r@),
{
    chrono::Local::now().date_naive().to_string()
}

/// Relies on chrono's `DateTime::from_timestamp` (whole seconds), rendered
/// with `format("%Y-%m-%d %H:%M:%S")`: the result depends on `secs` alone.
#[verifier::external_body]
pub(crate) fn utc_text(secs: i64) -> (r: Option<String>)
    ensures
        match r {
            Some(s) => utc_text_of(secs as int) == Some(s@),
            None => utc_text_of(secs as int) is None,
        },
{
    match chrono::DateTime::from_timestamp(secs, 0) {
        Some(t) => Some(t.format("%Y-%m-%d %H:%M:%S").to_string()),
        None => None,
    }
}

/// Relies on chrono's `Local::offset_from_local_datetime(..).single()` and
/// `FixedOffset::local_minus_utc`: the seconds by which the machine's time
/// zone is ahead of UTC at the wall-clock time `hour:minute:second` on the
/// `%Y-%m-%d` date `date`. `None` where the date or the time is invalid, or
/// the wall-clock time names no single instant (a daylight-saving change). It
/// depends on the time zone; chrono builds a `FixedOffset` only strictly within
/// a day (`east_opt`), which is all that is promised.
#[verifier::external_body]
pub(crate) fn local_offset_at(date: &str, hour: u32, minute: u32, second: u32) -> (r: Option<i32>)
    ensures
        r matches Some(o) ==> -86400 < o < 86400,
{
    let day = chrono::NaiveDate::parse_from_str(date, "%Y-%m-%d").ok()?;
    let offset = chrono::Local.offset_from_local_datetime(&day.and_hms_opt(hour, minute, second)?).single()?;
    Some(offset.local_minus_utc())
}

} // verus!
