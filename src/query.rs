//! Read-only queries over the rollups: one day, an inclusive range of days,
//! and the whole-day totals of a range. Ignored applications never appear.

use vstd::prelude::*;
use crate::durations::{distinct_keys, has_key, Durations, Keyed, UsageMap};
use crate::ignore::{is_ignored, is_ignored_spec};
use crate::store::{AppDay, AppUsageRow, UsageStatsRow, UsageStore};
use crate::text::{in_text_range, lemma_inverted_range, lemma_point_range, text_le, text_leq};

verus! {

/// The applications and seconds recorded for `date`, in row order, leaving
/// out ignored applications.
pub open spec fn day_usage(rows: Keyed<AppDay>, date: Seq<char>) -> Durations
    decreases rows.len(),
{
    if rows.len() == 0 {
        Seq::empty()
    } else {
        let before = day_usage(rows.drop_last(), date);
        let r = rows.last();
        if r.0.0 == date && !is_ignored_spec(r.0.1) {
            before.push((r.0.1, r.1))
        } else {
            before
        }
    }
}

/// The dates in `lo..=hi` that have at least one row of an application that
/// is not ignored, in order of their first row.
pub open spec fn range_dates(rows: Keyed<AppDay>, lo: Seq<char>, hi: Seq<char>) -> Seq<Seq<char>>
    decreases rows.len(),
{
    if rows.len() == 0 {
        Seq::empty()
    } else {
        let before = range_dates(rows.drop_last(), lo, hi);
        let r = rows.last();
        if in_text_range(r.0.0, lo, hi) && !is_ignored_spec(r.0.1) && !before.contains(r.0.0) {
            before.push(r.0.0)
        } else {
            before
        }
    }
}

/// Each date of `lo..=hi` with recorded usage, with that day's usage.
pub open spec fn range_usage(rows: Keyed<AppDay>, lo: Seq<char>, hi: Seq<char>) -> Seq<(Seq<char>, Durations)> {
    range_dates(rows, lo, hi).map_values(|d: Seq<char>| (d, day_usage(rows, d)))
}

/// The whole-day totals of the dates in `lo..=hi`, in row order.
pub open spec fn range_totals(rows: Keyed<Seq<char>>, lo: Seq<char>, hi: Seq<char>) -> Keyed<Seq<char>>
    decreases rows.len(),
{
    if rows.len() == 0 {
        Seq::empty()
    } else {
        let before = range_totals(rows.drop_last(), lo, hi);
        if in_text_range(rows.last().0, lo, hi) {
            before.push(rows.last())
        } else {
            before
        }
    }
}

proof fn lemma_day_usage_keys(rows: Keyed<AppDay>, date: Seq<char>, k: Seq<char>)
    requires
        has_key(day_usage(rows, date), k),
    ensures
        exists|j: int| 0 <= j < rows.len() && (#[trigger] rows[j]).0 == (date, k),
    decreases rows.len(),
{
    let before = day_usage(rows.drop_last(), date);
    let r = rows.last();
    if r.0.0 == date && !is_ignored_spec(r.0.1) && r.0.1 == k {
        assert(rows[rows.len() - 1].0 == (date, k));
    } else {
        if r.0.0 == date && !is_ignored_spec(r.0.1) {
            assert(before.push((r.0.1, r.1)).drop_last() == before);
        }
        lemma_day_usage_keys(rows.drop_last(), date, k);
        let j = choose|j: int| 0 <= j < rows.drop_last().len() && (#[trigger] rows.drop_last()[j]).0 == (date, k);
        assert(rows[j] == rows.drop_last()[j]);
    }
}

proof fn lemma_range_totals_keys(rows: Keyed<Seq<char>>, lo: Seq<char>, hi: Seq<char>, k: Seq<char>)
    requires
        has_key(range_totals(rows, lo, hi), k),
    ensures
        exists|j: int| 0 <= j < rows.len() && (#[trigger] rows[j]).0 == k,
    decreases rows.len(),
{
    let before = range_totals(rows.drop_last(), lo, hi);
    if in_text_range(rows.last().0, lo, hi) && rows.last().0 == k {
        assert(rows[rows.len() - 1].0 == k);
    } else {
        if in_text_range(rows.last().0, lo, hi) {
            assert(before.push(rows.last()).drop_last() == before);
        }
        lemma_range_totals_keys(rows.drop_last(), lo, hi, k);
        let j = choose|j: int| 0 <= j < rows.drop_last().len() && (#[trigger] rows.drop_last()[j]).0 == k;
        assert(rows[j] == rows.drop_last()[j]);
    }
}

/// Asking for the range from a day to itself gives that day's usage, under
/// that day, or nothing where the day has none.
pub proof fn lemma_point_range_is_day(rows: Keyed<AppDay>, d: Seq<char>)
    ensures
        range_usage(rows, d, d) == if day_usage(rows, d).len() == 0 {
            Seq::<(Seq<char>, Durations)>::empty()
        } else {
            seq![(d, day_usage(rows, d))]
        },
{
    lemma_point_range_dates(rows, d);
    assert(range_usage(rows, d, d) =~= if day_usage(rows, d).len() == 0 {
        Seq::<(Seq<char>, Durations)>::empty()
    } else {
        seq![(d, day_usage(rows, d))]
    });
}

proof fn lemma_point_range_dates(rows: Keyed<AppDay>, d: Seq<char>)
    ensures
        range_dates(rows, d, d) == if day_usage(rows, d).len() == 0 {
            Seq::<Seq<char>>::empty()
        } else {
            seq![d]
        },
    decreases rows.len(),
{
    if rows.len() > 0 {
        lemma_point_range_dates(rows.drop_last(), d);
        lemma_point_range(rows.last().0.0, d);
        let before = range_dates(rows.drop_last(), d, d);
        if day_usage(rows.drop_last(), d).len() != 0 {
            assert(before[0] == d);
            assert(before.contains(d));
        }
        assert(seq![d] =~= Seq::<Seq<char>>::empty().push(d));
    }
}

/// A range whose start comes after its end holds no day.
pub proof fn lemma_inverted_range_empty(rows: Keyed<AppDay>, lo: Seq<char>, hi: Seq<char>)
    requires
        !text_le(lo, hi),
    ensures
        range_usage(rows, lo, hi) == Seq::<(Seq<char>, Durations)>::empty(),
{
    lemma_inverted_range_dates(rows, lo, hi);
    assert(range_usage(rows, lo, hi) =~= Seq::<(Seq<char>, Durations)>::empty());
}

proof fn lemma_inverted_range_dates(rows: Keyed<AppDay>, lo: Seq<char>, hi: Seq<char>)
    requires
        !text_le(lo, hi),
    ensures
        range_dates(rows, lo, hi) == Seq::<Seq<char>>::empty(),
    decreases rows.len(),
{
    if rows.len() > 0 {
        lemma_inverted_range_dates(rows.drop_last(), lo, hi);
        lemma_inverted_range(rows.last().0.0, lo, hi);
    }
}

/// One day of a [`RangeUsage`].
pub struct DayUsage {
    pub date: String,
    pub usage: UsageMap,
}

/// Usage per date, each date at most once.
pub struct RangeUsage {
    days: Vec<DayUsage>,
}

impl View for RangeUsage {
    type V = Seq<(Seq<char>, Durations)>;

    closed spec fn view(&self) -> Seq<(Seq<char>, Durations)> {
        self.days@.map_values(|d: DayUsage| (d.date@, d.usage@))
    }
}

impl RangeUsage {
    /// The number of dates.
    pub fn len(&self) -> (r: usize)
        ensures
            r == self@.len(),
    {
        self.days.len()
    }

    /// The dates with their usage, in order.
    pub fn days(&self) -> (r: &Vec<DayUsage>)
        ensures
            r@.map_values(|d: DayUsage| (d.date@, d.usage@)) == self@,
    {
        &self.days
    }

    /// The usage recorded for `date`, if the result holds that date.
    pub fn get(&self, date: &str) -> (r: Option<&UsageMap>)
        ensures
            match r {
                Some(u) => exists|i: int| 0 <= i < self@.len() && (#[trigger] self@[i]) == (date@, u@),
                None => forall|i: int| 0 <= i < self@.len() ==> (#[trigger] self@[i]).0 != date@,
            },
    {
        let d = date.to_owned();
        let mut i: usize = 0;
        while i < self.days.len()
            invariant
                i <= self@.len(),
                self@.len() == self.days@.len(),
                d@ == date@,
                forall|j: int| 0 <= j < i ==> (#[trigger] self@[j]).0 != date@,
            decreases self.days.len() - i,
        {
            assert(self@[i as int] == (self.days@[i as int].date@, self.days@[i as int].usage@));
            if self.days[i].date == d {
                return Some(&self.days[i].usage);
            }
            i = i + 1;
        }
        None
    }
}

impl UsageStore {
    /// The usage recorded for `date`, leaving out ignored applications.
    pub fn usage_for_day(&self, date: &str) -> (r: UsageMap)
        requires
            self.wf(),
        ensures
            r@ == day_usage(self.app_rows(), date@),
            r.wf(),
    {
        let rows = self.app_usage_rows();
        let ghost view = self.app_rows();
        let d = date.to_owned();
        let mut out = UsageMap::new();
        let mut i: usize = 0;
        while i < rows.len()
            invariant
                i <= rows@.len(),
                view == rows@.map_values(|e: AppUsageRow| e@),
                distinct_keys(view),
                d@ == date@,
                out.wf(),
                out@ == day_usage(view.take(i as int), date@),
            decreases rows.len() - i,
        {
            let row = &rows[i];
            proof {
                assert(view.take(i + 1).drop_last() == view.take(i as int));
                assert(view.take(i + 1).last() == row@);
            }
            if row.date == d && !is_ignored(row.app_name.as_str()) {
                proof {
                    if has_key(out@, row.app_name@) {
                        lemma_day_usage_keys(view.take(i as int), date@, row.app_name@);
                        let j = choose|j: int| 0 <= j < i && (#[trigger] view.take(i as int)[j]).0 == (date@, row.app_name@);
                        assert(view[j] == view.take(i as int)[j]);
                        assert(view[i as int] == row@);
                    }
                }
                out.push_new(row.app_name.clone(), row.total_usage);
            }
            i = i + 1;
        }
        assert(view.take(rows.len() as int) == view);
        out
    }

    /// Each date in `start..=end` (inclusive, in the stored `YYYY-MM-DD`
    /// order) with recorded usage, with that day's usage. An inverted range
    /// gives an empty result.
    pub fn usage_for_range(&self, start: &str, end: &str) -> (r: RangeUsage)
        requires
            self.wf(),
        ensures
            r@ == range_usage(self.app_rows(), start@, end@),
    {
        let rows = self.app_usage_rows();
        let ghost view = self.app_rows();
        let mut dates: Vec<String> = Vec::new();
        let mut i: usize = 0;
        while i < rows.len()
            invariant
                i <= rows@.len(),
                view == rows@.map_values(|e: AppUsageRow| e@),
                dates@.map_values(|s: String| s@) == range_dates(view.take(i as int), start@, end@),
            decreases rows.len() - i,
        {
            let row = &rows[i];
            let ghost before = dates@.map_values(|s: String| s@);
            proof {
                assert(view.take(i + 1).drop_last() == view.take(i as int));
                assert(view.take(i + 1).last() == row@);
            }
            if text_leq(start, row.date.as_str()) && text_leq(row.date.as_str(), end)
                && !is_ignored(row.app_name.as_str()) {
                let mut seen = false;
                let mut j: usize = 0;
                while j < dates.len()
                    invariant
                        j <= dates@.len(),
                        before == dates@.map_values(|s: String| s@),
                        seen ==> before.contains(row.date@),
                        !seen ==> forall|k: int| 0 <= k < j ==> before[k] != row.date@,
                    decreases dates.len() - j,
                {
                    assert(before[j as int] == dates@[j as int]@);
                    if dates[j] == row.date {
                        seen = true;
                    }
                    j = j + 1;
                }
                if !seen {
                    dates.push(row.date.clone());
                    assert(dates@.map_values(|s: String| s@) =~= before.push(row.date@));
                }
            }
            i = i + 1;
        }
        assert(view.take(rows.len() as int) == view);
        let ghost ds = dates@.map_values(|s: String| s@);
        let mut days: Vec<DayUsage> = Vec::new();
        let mut k: usize = 0;
        while k < dates.len()
            invariant
                self.wf(),
                view == self.app_rows(),
                k <= dates@.len(),
                ds == dates@.map_values(|s: String| s@),
                days@.map_values(|d: DayUsage| (d.date@, d.usage@))
                    == ds.take(k as int).map_values(|d: Seq<char>| (d, day_usage(view, d))),
            decreases dates.len() - k,
        {
            let usage = self.usage_for_day(dates[k].as_str());
            let ghost before = days@.map_values(|d: DayUsage| (d.date@, d.usage@));
            let date = dates[k].clone();
            proof {
                assert(ds[k as int] == dates@[k as int]@);
                assert(ds.take(k + 1) == ds.take(k as int).push(date@));
            }
            days.push(DayUsage { date, usage });
            assert(days@.map_values(|d: DayUsage| (d.date@, d.usage@)) =~= before.push((dates@[k as int]@, day_usage(view, ds[k as int]))));
            assert(days@.map_values(|d: DayUsage| (d.date@, d.usage@))
                =~= ds.take(k + 1).map_values(|d: Seq<char>| (d, day_usage(view, d))));
            k = k + 1;
        }
        assert(ds.take(dates.len() as int) == ds);
        let r = RangeUsage { days };
        assert(r@ =~= range_usage(view, start@, end@));
        r
    }

    /// The whole-day totals of the dates in `start..=end`, keyed by date.
    pub fn totals_for_range(&self, start: &str, end: &str) -> (r: UsageMap)
        requires
            self.wf(),
        ensures
            r@ == range_totals(self.stat_rows(), start@, end@),
            r.wf(),
    {
        let rows = self.usage_stats_rows();
        let ghost view = self.stat_rows();
        let mut out = UsageMap::new();
        let mut i: usize = 0;
        while i < rows.len()
            invariant
                i <= rows@.len(),
                view == rows@.map_values(|e: UsageStatsRow| e@),
                distinct_keys(view),
                out.wf(),
                out@ == range_totals(view.take(i as int), start@, end@),
            decreases rows.len() - i,
        {
            let row = &rows[i];
            proof {
                assert(view.take(i + 1).drop_last() == view.take(i as int));
                assert(view.take(i + 1).last() == row@);
            }
            if text_leq(start, row.date.as_str()) && text_leq(row.date.as_str(), end) {
                proof {
                    if has_key(out@, row.date@) {
                        lemma_range_totals_keys(view.take(i as int), start@, end@, row.date@);
                        let j = choose|j: int| 0 <= j < i && (#[trigger] view.take(i as int)[j]).0 == row.date@;
                        assert(view[j] == view.take(i as int)[j]);
                        assert(view[i as int] == row@);
                    }
                }
                out.push_new(row.date.clone(), row.total_usage);
            }
            i = i + 1;
        }
        assert(view.take(rows.len() as int) == view);
        out
    }
}

} // verus!
