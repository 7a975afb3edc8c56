//! The daily rollups: today's events aggregated and upserted per application,
//! and the per-application rows of a day summed into its whole-day total.

use vstd::prelude::*;
use crate::aggregate::{
    aggregate, aggregate_durations, aggregate_fits, clean_and_ordered, lemma_aggregate_distinct,
    lemma_clean_window_fits, moments, Moment, TimedEvent,
};
use crate::clock::{parse_timestamp, timestamp_of, within_calendar};
use crate::durations::{
    distinct_keys, fits_i64, has_key, total, key_index, lemma_key_index, lemma_put_keys, put, value_of,
    Durations, Keyed, UsageMap,
};
use crate::store::{AppDay, EventRow, RawEvent, UsageError, UsageStore};
use crate::text::text_leq;
use crate::timeline::{by_time, in_window, moments_of, slot_after, window_moments};

verus! {

/// Every readable instant in `ms` lies within chrono's calendar.
pub open spec fn instants_within_calendar(ms: Seq<Moment>) -> bool {
    forall|i: int| 0 <= i < ms.len() ==> ((#[trigger] ms[i]).0 matches Some(t) ==> within_calendar(t as int))
}

/// The accounting of a day window that holds no ignored application and whose
/// timestamps all read and never decrease in the order taken (every instant
/// lies within the calendar, as `collect_app_usage_duration` ensures): the
/// sweep succeeds, so the window's aggregation is `Some`, and the credited
/// durations add up to the time from the first event to the last.
pub proof fn lemma_window_accounting(evs: Seq<EventRow>, lo: Seq<char>, hi: Seq<char>)
    requires
        window_moments(evs, lo, hi).len() > 0,
        clean_and_ordered(window_moments(evs, lo, hi)),
        instants_within_calendar(window_moments(evs, lo, hi)),
    ensures
        aggregate_fits(window_moments(evs, lo, hi)),
        total(aggregate(window_moments(evs, lo, hi))) == window_moments(evs, lo, hi).last().0->0
            - window_moments(evs, lo, hi)[0].0->0,
{
    let ms = window_moments(evs, lo, hi);
    assert(ms[0].0 is Some && ms[ms.len() - 1].0 is Some);
    assert(within_calendar(ms[0].0->0 as int) && within_calendar(ms[ms.len() - 1].0->0 as int));
    lemma_clean_window_fits(ms);
}

/// The per-application rows after upserting each entry of `m` under `date`,
/// in order.
pub open spec fn apply_rollup(rows: Keyed<AppDay>, date: Seq<char>, m: Durations) -> Keyed<AppDay>
    decreases m.len(),
{
    if m.len() == 0 {
        rows
    } else {
        put(apply_rollup(rows, date, m.drop_last()), (date, m.last().0), m.last().1)
    }
}

/// The sum of the per-application rows of `date`.
pub open spec fn day_total(rows: Keyed<AppDay>, date: Seq<char>) -> int
    decreases rows.len(),
{
    if rows.len() == 0 {
        0
    } else {
        day_total(rows.drop_last(), date) + if rows.last().0.0 == date { rows.last().1 } else { 0 }
    }
}

proof fn lemma_rollup_sets(rows: Keyed<AppDay>, date: Seq<char>, m: Durations, j: int)
    requires
        distinct_keys(m),
        0 <= j < m.len(),
    ensures
        has_key(apply_rollup(rows, date, m), (date, m[j].0)),
        value_of(apply_rollup(rows, date, m), (date, m[j].0)) == m[j].1,
    decreases m.len(),
{
    let init = m.drop_last();
    let key = (date, m.last().0);
    lemma_put_keys(apply_rollup(rows, date, init), key, m.last().1, (date, m[j].0));
    if j < m.len() - 1 {
        assert(init[j] == m[j]);
        lemma_rollup_sets(rows, date, init, j);
    }
}

proof fn lemma_put_present(rows: Keyed<AppDay>, k: AppDay, v: int)
    requires
        has_key(rows, k),
        value_of(rows, k) == v,
    ensures
        put(rows, k, v) == rows,
{
    lemma_key_index(rows, k);
    let i = key_index(rows, k);
    assert(rows[i] == (k, v));
    assert(rows.update(i, (k, v)) =~= rows);
}

proof fn lemma_rollup_present(rows: Keyed<AppDay>, date: Seq<char>, m: Durations)
    requires
        forall|j: int| 0 <= j < m.len() ==> has_key(rows, (date, #[trigger] m[j].0))
            && value_of(rows, (date, m[j].0)) == m[j].1,
    ensures
        apply_rollup(rows, date, m) == rows,
    decreases m.len(),
{
    if m.len() > 0 {
        let init = m.drop_last();
        assert forall|j: int| 0 <= j < init.len() implies has_key(rows, (date, #[trigger] init[j].0))
            && value_of(rows, (date, init[j].0)) == init[j].1 by {
            assert(init[j] == m[j]);
        }
        lemma_rollup_present(rows, date, init);
        assert(has_key(rows, (date, m[m.len() - 1].0)));
        lemma_put_present(rows, (date, m.last().0), m.last().1);
    }
}

/// Running the per-application rollup a second time, with no event added in
/// between, leaves the rows exactly as the first run left them.
pub proof fn lemma_app_usage_rollup_idempotent(
    rows: Keyed<AppDay>,
    evs: Seq<EventRow>,
    today: Seq<char>,
    lo: Seq<char>,
    hi: Seq<char>,
)
    ensures
        ({
            let m = aggregate(window_moments(evs, lo, hi));
            apply_rollup(apply_rollup(rows, today, m), today, m) == apply_rollup(rows, today, m)
        }),
{
    let m = aggregate(window_moments(evs, lo, hi));
    lemma_aggregate_distinct(window_moments(evs, lo, hi));
    let once = apply_rollup(rows, today, m);
    assert forall|j: int| 0 <= j < m.len() implies has_key(once, (today, #[trigger] m[j].0))
        && value_of(once, (today, m[j].0)) == m[j].1 by {
        lemma_rollup_sets(rows, today, m, j);
    }
    lemma_rollup_present(once, today, m);
}

impl UsageStore {
    /// Aggregates the events whose timestamps lie in `start..=end` (text
    /// order, as stored), taken in time order with ties in id order. `None`
    /// exactly where a duration overflows an `i64`.
    pub fn collect_app_usage_duration(&self, start: &str, end: &str) -> (r: Option<UsageMap>)
        ensures
            match r {
                Some(m) => aggregate_fits(window_moments(self.event_rows(), start@, end@))
                    && m@ == aggregate(window_moments(self.event_rows(), start@, end@))
                    && m.wf(),
                None => !aggregate_fits(window_moments(self.event_rows(), start@, end@)),
            },
            instants_within_calendar(window_moments(self.event_rows(), start@, end@)),
    {
        let events = self.events();
        let ghost evs = self.event_rows();
        let mut ordered: Vec<RawEvent> = Vec::new();
        let mut i: usize = 0;
        while i < events.len()
            invariant
                i <= events@.len(),
                evs == events@.map_values(|e: RawEvent| e@),
                ordered@.map_values(|e: RawEvent| e@) == by_time(in_window(evs.take(i as int), start@, end@)),
            decreases events.len() - i,
        {
            let e = &events[i];
            proof {
                assert(evs.take(i + 1).drop_last() == evs.take(i as int));
                assert(evs.take(i + 1).last() == e@);
            }
            if text_leq(start, e.time.as_str()) && text_leq(e.time.as_str(), end) {
                let ghost s = ordered@.map_values(|e: RawEvent| e@);
                let mut p: usize = 0;
                proof {
                    assert(s.subrange(0, s.len() as int) == s);
                }
                while p < ordered.len() && text_leq(ordered[p].time.as_str(), e.time.as_str())
                    invariant
                        p <= ordered@.len(),
                        s == ordered@.map_values(|e: RawEvent| e@),
                        slot_after(s, e.time@) == p + slot_after(s.subrange(p as int, s.len() as int), e.time@),
                    decreases ordered.len() - p,
                {
                    proof {
                        let rest = s.subrange(p as int, s.len() as int);
                        assert(rest[0] == ordered@[p as int]@);
                        assert(rest.drop_first() == s.subrange(p + 1, s.len() as int));
                    }
                    p = p + 1;
                }
                proof {
                    let rest = s.subrange(p as int, s.len() as int);
                    if p < s.len() {
                        assert(rest[0] == ordered@[p as int]@);
                    }
                }
                let copy = RawEvent { id: e.id, time: e.time.clone(), app_name: e.app_name.clone() };
                ordered.insert(p, copy);
                proof {
                    let w = in_window(evs.take(i as int), start@, end@);
                    assert(in_window(evs.take(i + 1), start@, end@) == w.push(e@));
                    assert(w.push(e@).drop_last() == w);
                    assert(ordered@.map_values(|e: RawEvent| e@) =~= s.insert(p as int, e@));
                }
            }
            i = i + 1;
        }
        assert(evs.take(events.len() as int) == evs);
        let ghost sorted = by_time(in_window(evs, start@, end@));
        let mut timed: Vec<TimedEvent> = Vec::new();
        let mut k: usize = 0;
        while k < ordered.len()
            invariant
                k <= ordered@.len(),
                sorted == ordered@.map_values(|e: RawEvent| e@),
                moments(timed@) == moments_of(sorted.take(k as int)),
                instants_within_calendar(moments(timed@)),
            decreases ordered.len() - k,
        {
            let e = &ordered[k];
            let seconds = parse_timestamp(e.time.as_str());
            let ghost before = timed@;
            timed.push(TimedEvent { seconds, app_name: e.app_name.clone() });
            proof {
                assert(sorted.take(k + 1) == sorted.take(k as int).push(e@));
                assert(moments(timed@) =~= moments(before).push((seconds, e.app_name@)));
                assert(moments(timed@)[k as int] == (seconds, e.app_name@));
                assert forall|j: int| 0 <= j < moments(timed@).len() implies ((#[trigger] moments(timed@)[j]).0 matches Some(t)
                    ==> within_calendar(t as int)) by {
                    if j < k {
                        assert(moments(timed@)[j] == moments(before)[j]);
                    }
                }
                assert(moments_of(sorted.take(k + 1)) =~= moments_of(sorted.take(k as int)).push((timestamp_of(e.time@), e.app_name@)));
            }
            k = k + 1;
        }
        assert(sorted.take(ordered.len() as int) == sorted);
        aggregate_durations(&timed)
    }

    /// Recomputes the per-application durations of the events in
    /// `start..=end` and upserts each under `today`, replacing earlier values.
    /// Fails, changing nothing, only where a duration overflows an `i64`.
    pub fn update_daily_app_usage_at(&mut self, today: &str, start: &str, end: &str) -> (r: Result<(), UsageError>)
        requires
            old(self).wf(),
        ensures
            final(self).wf(),
            final(self).event_rows() == old(self).event_rows(),
            final(self).stat_rows() == old(self).stat_rows(),
            final(self).next_event_id() == old(self).next_event_id(),
            match r {
                Ok(()) => aggregate_fits(window_moments(old(self).event_rows(), start@, end@))
                    && final(self).app_rows() == apply_rollup(
                        old(self).app_rows(),
                        today@,
                        aggregate(window_moments(old(self).event_rows(), start@, end@)),
                    ),
                Err(e) => e == UsageError::Overflow
                    && !aggregate_fits(window_moments(old(self).event_rows(), start@, end@))
                    && final(self).app_rows() == old(self).app_rows(),
            },
    {
        let usage = match self.collect_app_usage_duration(start, end) {
            Some(m) => m,
            None => {
                return Err(UsageError::Overflow);
            },
        };
        let entries = usage.entries();
        let ghost m = usage@;
        let mut j: usize = 0;
        while j < entries.len()
            invariant
                j <= entries@.len(),
                m == entries@.map_values(|e: crate::durations::AppDuration| (e.app_name@, e.seconds as int)),
                self.wf(),
                self.event_rows() == old(self).event_rows(),
                self.stat_rows() == old(self).stat_rows(),
                self.next_event_id() == old(self).next_event_id(),
                self.app_rows() == apply_rollup(old(self).app_rows(), today@, m.take(j as int)),
            decreases entries.len() - j,
        {
            let e = &entries[j];
            proof {
                assert(m.take(j + 1).drop_last() == m.take(j as int));
                assert(m.take(j + 1).last() == (e.app_name@, e.seconds as int));
            }
            self.upsert_app_usage(today, e.app_name.as_str(), e.seconds);
            j = j + 1;
        }
        assert(m.take(entries.len() as int) == m);
        Ok(())
    }

    /// The sum of the per-application rows of `date`; `None` exactly where it
    /// does not fit in an `i64`.
    pub fn daily_usage_total(&self, date: &str) -> (r: Option<i64>)
        ensures
            r == if fits_i64(day_total(self.app_rows(), date@)) {
                Some(day_total(self.app_rows(), date@) as i64)
            } else {
                None::<i64>
            },
    {
        let rows = self.app_usage_rows();
        let ghost view = self.app_rows();
        let d = date.to_owned();
        let mut sum: i128 = 0;
        let mut i: usize = 0;
        while i < rows.len()
            invariant
                i <= rows@.len(),
                view == rows@.map_values(|e: crate::store::AppUsageRow| e@),
                d@ == date@,
                sum == day_total(view.take(i as int), date@),
                -(i as int) * 0x8000_0000_0000_0000 <= sum <= (i as int) * 0x8000_0000_0000_0000,
            decreases rows.len() - i,
        {
            let row = &rows[i];
            proof {
                assert(view.take(i + 1).drop_last() == view.take(i as int));
                assert(view.take(i + 1).last() == row@);
            }
            if row.date == d {
                sum = sum + row.total_usage as i128;
            }
            i = i + 1;
        }
        assert(view.take(rows.len() as int) == view);
        if sum < i64::MIN as i128 || sum > i64::MAX as i128 {
            None
        } else {
            Some(sum as i64)
        }
    }

    /// Sums the per-application rows of `today` and upserts the result as
    /// today's whole-day total. Fails, changing nothing, only where the sum
    /// overflows an `i64`.
    pub fn update_daily_usage_stats_at(&mut self, today: &str) -> (r: Result<(), UsageError>)
        requires
            old(self).wf(),
        ensures
            final(self).wf(),
            final(self).event_rows() == old(self).event_rows(),
            final(self).app_rows() == old(self).app_rows(),
            final(self).next_event_id() == old(self).next_event_id(),
            match r {
                Ok(()) => fits_i64(day_total(old(self).app_rows(), today@))
                    && final(self).stat_rows() == put(
                        old(self).stat_rows(),
                        today@,
                        day_total(old(self).app_rows(), today@),
                    ),
                Err(e) => e == UsageError::Overflow && !fits_i64(day_total(old(self).app_rows(), today@))
                    && final(self).stat_rows() == old(self).stat_rows(),
            },
    {
        match self.daily_usage_total(today) {
            Some(total) => {
                self.upsert_usage_stats(today, total);
                Ok(())
            },
            None => Err(UsageError::Overflow),
        }
    }
}

} // verus!
