//! The duration aggregator: a pairwise sweep over focus changes in order,
//! crediting the time between two consecutive events to the earlier one.

use vstd::prelude::*;
use crate::durations::{
    key_index, lemma_key_index, add_to, distinct_keys, fits_i64, has_key, lemma_add_to_distinct, lemma_add_to_keys,
    lemma_total_add_to, total, value_of, Durations, UsageMap,
};
use crate::ignore::{is_ignored, is_ignored_spec};

verus! {

/// A focus change as the aggregator sees it: its instant in seconds, where its
/// timestamp could be read, and the application that took focus.
pub type Moment = (Option<i64>, Seq<char>);

/// The seconds that the pair `prev`, `next` credits to `prev`'s application:
/// none where that application is ignored or either timestamp is unreadable.
pub open spec fn pair_delta(prev: Moment, next: Moment) -> Option<int> {
    if is_ignored_spec(prev.1) {
        None
    } else {
        match (prev.0, next.0) {
            (Some(a), Some(b)) => Some(b - a),
            _ => None,
        }
    }
}

/// The durations credited by the sweep over `evs`: each consecutive pair adds
/// its delta to the earlier event's application. The last event has no
/// successor and adds nothing.
pub open spec fn aggregate(evs: Seq<Moment>) -> Durations
    decreases evs.len(),
{
    if evs.len() < 2 {
        Seq::empty()
    } else {
        let before = aggregate(evs.drop_last());
        let prev = evs[evs.len() - 2];
        match pair_delta(prev, evs.last()) {
            Some(d) => add_to(before, prev.1, d),
            None => before,
        }
    }
}

/// Whether every delta, and every running total, of the sweep fits in an `i64`.
pub open spec fn aggregate_fits(evs: Seq<Moment>) -> bool
    decreases evs.len(),
{
    if evs.len() < 2 {
        true
    } else {
        let before = aggregate(evs.drop_last());
        let prev = evs[evs.len() - 2];
        aggregate_fits(evs.drop_last()) && match pair_delta(prev, evs.last()) {
            Some(d) => fits_i64(d) && fits_i64(value_of(before, prev.1) + d),
            None => true,
        }
    }
}

/// A focus change with its timestamp already read.
pub struct TimedEvent {
    pub seconds: Option<i64>,
    pub app_name: String,
}

impl View for TimedEvent {
    type V = Moment;

    open spec fn view(&self) -> Moment {
        (self.seconds, self.app_name@)
    }
}

pub open spec fn moments(evs: Seq<TimedEvent>) -> Seq<Moment> {
    evs.map_values(|e: TimedEvent| e@)
}

proof fn lemma_fits_prefix(evs: Seq<Moment>, k: int)
    requires
        0 <= k <= evs.len(),
        aggregate_fits(evs),
    ensures
        aggregate_fits(evs.take(k)),
    decreases evs.len(),
{
    if k == evs.len() {
        assert(evs.take(k) == evs);
    } else if evs.len() >= 2 {
        assert(evs.drop_last().take(k) == evs.take(k));
        lemma_fits_prefix(evs.drop_last(), k);
    }
}

pub proof fn lemma_aggregate_distinct(evs: Seq<Moment>)
    ensures
        distinct_keys(aggregate(evs)),
    decreases evs.len(),
{
    if evs.len() >= 2 {
        lemma_aggregate_distinct(evs.drop_last());
        let prev = evs[evs.len() - 2];
        if let Some(d) = pair_delta(prev, evs.last()) {
            lemma_add_to_distinct(aggregate(evs.drop_last()), prev.1, d);
        }
    }
}

/// Runs the sweep over `events`, in the order given. Returns `None` exactly
/// where a delta or a running total would not fit in an `i64`.
pub fn aggregate_durations(events: &Vec<TimedEvent>) -> (r: Option<UsageMap>)
    ensures
        match r {
            Some(m) => aggregate_fits(moments(events@)) && m@ == aggregate(moments(events@))
                && m.wf(),
            None => !aggregate_fits(moments(events@)),
        },
{
    let ghost ms = moments(events@);
    let mut out = UsageMap::new();
    let n = events.len();
    if n < 2 {
        return Some(out);
    }
    let mut i: usize = 1;
    assert(ms.take(1).len() == 1);
    while i < n
        invariant
            n == events@.len(),
            ms == moments(events@),
            1 <= i <= n,
            out.wf(),
            out@ == aggregate(ms.take(i as int)),
            aggregate_fits(ms.take(i as int)),
        decreases n - i,
    {
        let ghost step = ms.take(i + 1);
        proof {
            assert(step.drop_last() == ms.take(i as int));
            assert(step[i - 1] == events@[i - 1]@);
            assert(step.last() == events@[i as int]@);
        }
        let prev = &events[i - 1];
        let next = &events[i];
        if !is_ignored(prev.app_name.as_str()) {
            match (prev.seconds, next.seconds) {
                (Some(a), Some(b)) => {
                    match b.checked_sub(a) {
                        Some(d) => {
                            if !out.accumulate(&prev.app_name, d) {
                                proof {
                                    if aggregate_fits(ms) {
                                        lemma_fits_prefix(ms, i + 1);
                                    }
                                }
                                return None;
                            }
                        },
                        None => {
                            proof {
                                if aggregate_fits(ms) {
                                    lemma_fits_prefix(ms, i + 1);
                                }
                            }
                            return None;
                        },
                    }
                },
                _ => {},
            }
        }
        i = i + 1;
    }
    assert(ms.take(n as int) == ms);
    Some(out)
}

/// Over a window in which no application is ignored and every timestamp can
/// be read, the credited durations add up to the time from the first event to
/// the last: nothing is lost and nothing is counted twice.
pub proof fn lemma_total_spans_window(evs: Seq<Moment>)
    requires
        evs.len() > 0,
        forall|i: int| 0 <= i < evs.len() ==> !is_ignored_spec(#[trigger] evs[i].1),
        forall|i: int| 0 <= i < evs.len() ==> (#[trigger] evs[i].0) is Some,
    ensures
        total(aggregate(evs)) == evs.last().0->0 - evs[0].0->0,
    decreases evs.len(),
{
    if evs.len() >= 2 {
        let init = evs.drop_last();
        assert forall|i: int| 0 <= i < init.len() implies !is_ignored_spec(#[trigger] init[i].1) by {
            assert(init[i] == evs[i]);
            assert(!is_ignored_spec(evs[i].1));
        }
        assert forall|i: int| 0 <= i < init.len() implies (#[trigger] init[i].0) is Some by {
            assert(init[i] == evs[i]);
            assert(evs[i].0 is Some);
        }
        lemma_total_spans_window(init);
        let prev = evs[evs.len() - 2];
        assert(init.last() == prev && init[0] == evs[0]);
        assert(!is_ignored_spec(evs[evs.len() - 2].1));
        assert(!is_ignored_spec(evs[evs.len() - 1].1));
        assert(evs[evs.len() - 1].0 is Some && evs[evs.len() - 2].0 is Some);
        lemma_total_add_to(aggregate(init), prev.1, evs.last().0->0 - prev.0->0);
    }
}

/// Every event has a readable timestamp, none is ignored, and the instants
/// never decrease.
pub open spec fn clean_and_ordered(evs: Seq<Moment>) -> bool {
    &&& forall|i: int| 0 <= i < evs.len() ==> !is_ignored_spec(#[trigger] evs[i].1)
    &&& forall|i: int| 0 <= i < evs.len() ==> (#[trigger] evs[i].0) is Some
    &&& forall|i: int, j: int| 0 <= i < j < evs.len() ==> (#[trigger] evs[i].0)->0 <= (#[trigger] evs[j].0)->0
}

proof fn lemma_clean_prefix(evs: Seq<Moment>)
    requires
        evs.len() > 0,
        clean_and_ordered(evs),
    ensures
        clean_and_ordered(evs.drop_last()),
{
    let init = evs.drop_last();
    assert forall|i: int| 0 <= i < init.len() implies !is_ignored_spec(#[trigger] init[i].1) by {
        assert(init[i] == evs[i]);
    }
    assert forall|i: int| 0 <= i < init.len() implies (#[trigger] init[i].0) is Some by {
        assert(init[i] == evs[i]);
    }
    assert forall|i: int, j: int| 0 <= i < j < init.len() implies (#[trigger] init[i].0)->0 <= (#[trigger] init[j].0)->0 by {
        assert(init[i] == evs[i] && init[j] == evs[j]);
    }
}

pub open spec fn all_nonnegative(m: Durations) -> bool {
    forall|i: int| 0 <= i < m.len() ==> (#[trigger] m[i]).1 >= 0
}

proof fn lemma_value_within_total(m: Durations, k: Seq<char>)
    requires
        all_nonnegative(m),
    ensures
        0 <= value_of(m, k) <= total(m),
        0 <= total(m),
    decreases m.len(),
{
    if m.len() > 0 {
        let init = m.drop_last();
        assert forall|i: int| 0 <= i < init.len() implies (#[trigger] init[i]).1 >= 0 by {
            assert(init[i] == m[i]);
        }
        lemma_value_within_total(init, k);
        assert(m[m.len() - 1].1 >= 0);
        if m.last().0 != k {
            lemma_key_index(init, k);
            if key_index(init, k) >= 0 {
                assert(m[key_index(init, k)] == init[key_index(init, k)]);
            }
        }
    }
}

proof fn lemma_nonnegative_add_to(m: Durations, k: Seq<char>, d: int)
    requires
        all_nonnegative(m),
        d >= 0,
    ensures
        all_nonnegative(add_to(m, k, d)),
{
    lemma_key_index(m, k);
    lemma_value_within_total(m, k);
}

/// Over readable, non-decreasing, non-ignored timestamps whose span fits in an
/// `i64`, no delta and no running total overflows, every credited duration is
/// non-negative, and together they add up to the span.
pub proof fn lemma_clean_window_fits(evs: Seq<Moment>)
    requires
        evs.len() > 0,
        clean_and_ordered(evs),
        fits_i64(evs.last().0->0 - evs[0].0->0),
    ensures
        aggregate_fits(evs),
        all_nonnegative(aggregate(evs)),
        total(aggregate(evs)) == evs.last().0->0 - evs[0].0->0,
    decreases evs.len(),
{
    lemma_total_spans_window(evs);
    if evs.len() >= 2 {
        let init = evs.drop_last();
        lemma_clean_prefix(evs);
        let n = evs.len();
        assert(init.last() == evs[n - 2] && init[0] == evs[0]);
        assert(evs[0].0 is Some && evs[n - 2].0 is Some && evs[n - 1].0 is Some);
        assert(!is_ignored_spec(evs[n - 2].1));
        if n - 2 > 0 {
            assert(evs[0].0->0 <= evs[n - 2].0->0);
        }
        assert(evs[n - 2].0->0 <= evs[n - 1].0->0);
        lemma_clean_window_fits(init);
        let before = aggregate(init);
        let d = evs[n - 1].0->0 - evs[n - 2].0->0;
        lemma_value_within_total(before, evs[n - 2].1);
        lemma_nonnegative_add_to(before, evs[n - 2].1, d);
    }
}

/// Time accumulates within one sweep: where one application is the earlier
/// event of two consecutive pairs, it is credited with both deltas on top of
/// what it already had.
pub proof fn lemma_consecutive_pairs_accumulate(evs: Seq<Moment>, i: int)
    requires
        0 <= i,
        i + 2 < evs.len(),
        evs[i].1 == evs[i + 1].1,
        pair_delta(evs[i], evs[i + 1]) is Some,
        pair_delta(evs[i + 1], evs[i + 2]) is Some,
    ensures
        value_of(aggregate(evs.take(i + 3)), evs[i].1) == value_of(aggregate(evs.take(i + 1)), evs[i].1)
            + pair_delta(evs[i], evs[i + 1])->0 + pair_delta(evs[i + 1], evs[i + 2])->0,
{
    let a = evs[i].1;
    let t3 = evs.take(i + 3);
    let t2 = evs.take(i + 2);
    assert(t3.drop_last() == t2);
    assert(t2.drop_last() == evs.take(i + 1));
    assert(t3[t3.len() - 2] == evs[i + 1] && t3.last() == evs[i + 2]);
    assert(t2[t2.len() - 2] == evs[i] && t2.last() == evs[i + 1]);
    let m1 = aggregate(evs.take(i + 1));
    let d1 = pair_delta(evs[i], evs[i + 1])->0;
    let d2 = pair_delta(evs[i + 1], evs[i + 2])->0;
    assert(aggregate(t2) == add_to(m1, a, d1));
    assert(aggregate(t3) == add_to(aggregate(t2), a, d2));
    lemma_add_to_keys(m1, a, d1, a);
    lemma_add_to_keys(add_to(m1, a, d1), a, d2, a);
}

/// An ignored application is never credited: it is never a key of the result.
pub proof fn lemma_ignored_never_credited(evs: Seq<Moment>, k: Seq<char>)
    requires
        is_ignored_spec(k),
    ensures
        !has_key(aggregate(evs), k),
    decreases evs.len(),
{
    if evs.len() >= 2 {
        lemma_ignored_never_credited(evs.drop_last(), k);
        let prev = evs[evs.len() - 2];
        if let Some(d) = pair_delta(prev, evs.last()) {
            lemma_add_to_keys(aggregate(evs.drop_last()), prev.1, d, k);
        }
    }
}

/// An ignored event closes the interval of the event before it, which is
/// credited up to the ignored event's instant; the interval that the ignored
/// event opens is credited to nobody.
pub proof fn lemma_ignored_event_closes_interval(evs: Seq<Moment>, i: int)
    requires
        1 <= i,
        i + 1 < evs.len(),
        is_ignored_spec(evs[i].1),
    ensures
        aggregate(evs.take(i + 2)) == match pair_delta(evs[i - 1], evs[i]) {
            Some(d) => add_to(aggregate(evs.take(i)), evs[i - 1].1, d),
            None => aggregate(evs.take(i)),
        },
{
    let t2 = evs.take(i + 2);
    let t1 = evs.take(i + 1);
    assert(t2.drop_last() == t1);
    assert(t1.drop_last() == evs.take(i));
    assert(t2[t2.len() - 2] == evs[i] && t2.last() == evs[i + 1]);
    assert(t1[t1.len() - 2] == evs[i - 1] && t1.last() == evs[i]);
    assert(pair_delta(evs[i], evs[i + 1]) is None);
    assert(aggregate(t2) == aggregate(t1));
}

} // verus!
