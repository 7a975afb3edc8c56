//! The events of one day as the aggregator takes them: the log's entries whose
//! timestamps fall in a window, ordered by time with ties in id order.

use vstd::prelude::*;
use crate::aggregate::Moment;
use crate::clock::timestamp_of;
use crate::store::EventRow;
use crate::text::{in_text_range, lemma_text_le_reflexive, lemma_text_le_total, lemma_text_le_transitive, text_le};

verus! {

/// The events whose timestamps lie in the inclusive text range `lo..=hi`, in
/// log order.
pub open spec fn in_window(evs: Seq<EventRow>, lo: Seq<char>, hi: Seq<char>) -> Seq<EventRow>
    decreases evs.len(),
{
    if evs.len() == 0 {
        Seq::empty()
    } else {
        let w = in_window(evs.drop_last(), lo, hi);
        if in_text_range(evs.last().1, lo, hi) {
            w.push(evs.last())
        } else {
            w
        }
    }
}

/// The number of leading events of `s` whose timestamps come no later than
/// `t`: where an event at `t` goes so that it follows every event up to `t`.
pub open spec fn slot_after(s: Seq<EventRow>, t: Seq<char>) -> int
    decreases s.len(),
{
    if s.len() == 0 || !text_le(s[0].1, t) {
        0
    } else {
        1 + slot_after(s.drop_first(), t)
    }
}

/// The events of `evs` ordered by timestamp; events with equal timestamps
/// keep their log order, which is their id order.
pub open spec fn by_time(evs: Seq<EventRow>) -> Seq<EventRow>
    decreases evs.len(),
{
    if evs.len() == 0 {
        Seq::empty()
    } else {
        let s = by_time(evs.drop_last());
        s.insert(slot_after(s, evs.last().1), evs.last())
    }
}

pub open spec fn time_ordered(s: Seq<EventRow>) -> bool {
    forall|i: int, j: int| 0 <= i < j < s.len() ==> text_le(#[trigger] s[i].1, #[trigger] s[j].1)
}

proof fn lemma_slot_after(s: Seq<EventRow>, t: Seq<char>)
    ensures
        0 <= slot_after(s, t) <= s.len(),
        forall|k: int| 0 <= k < slot_after(s, t) ==> text_le(#[trigger] s[k].1, t),
        slot_after(s, t) < s.len() ==> !text_le(s[slot_after(s, t)].1, t),
    decreases s.len(),
{
    if s.len() > 0 && text_le(s[0].1, t) {
        lemma_slot_after(s.drop_first(), t);
        assert forall|k: int| 0 <= k < slot_after(s, t) implies text_le(#[trigger] s[k].1, t) by {
            if k > 0 {
                assert(s[k] == s.drop_first()[k - 1]);
            }
        }
    }
}

/// The events handed to the aggregator come in non-decreasing time order.
pub proof fn lemma_by_time_ordered(evs: Seq<EventRow>)
    ensures
        time_ordered(by_time(evs)),
        by_time(evs).len() == evs.len(),
    decreases evs.len(),
{
    if evs.len() > 0 {
        let s = by_time(evs.drop_last());
        lemma_by_time_ordered(evs.drop_last());
        let e = evs.last();
        let p = slot_after(s, e.1);
        lemma_slot_after(s, e.1);
        let r = s.insert(p, e);
        assert forall|i: int, j: int| 0 <= i < j < r.len() implies text_le(#[trigger] r[i].1, #[trigger] r[j].1) by {
            if j < p {
                assert(r[i] == s[i] && r[j] == s[j]);
            } else if j == p {
                assert(r[i] == s[i] && r[j] == e);
            } else if i == p {
                assert(r[j] == s[j - 1]);
                lemma_text_le_total(s[p].1, e.1);
                if j - 1 > p {
                    lemma_text_le_transitive(e.1, s[p].1, s[j - 1].1);
                }
            } else if i < p {
                assert(r[i] == s[i] && r[j] == s[j - 1]);
            } else {
                assert(r[i] == s[i - 1] && r[j] == s[j - 1]);
            }
        }
    }
}

pub open spec fn ids_increasing(s: Seq<EventRow>) -> bool {
    forall|i: int, j: int| 0 <= i < j < s.len() ==> (#[trigger] s[i]).0 < (#[trigger] s[j]).0
}

proof fn lemma_by_time_members(evs: Seq<EventRow>)
    ensures
        by_time(evs).len() == evs.len(),
        forall|k: int| 0 <= k < evs.len() ==> exists|m: int| 0 <= m < evs.len() && #[trigger] by_time(evs)[k] == evs[m],
    decreases evs.len(),
{
    if evs.len() > 0 {
        let init = evs.drop_last();
        lemma_by_time_members(init);
        let s = by_time(init);
        let e = evs.last();
        lemma_slot_after(s, e.1);
        let p = slot_after(s, e.1);
        let r = s.insert(p, e);
        assert forall|k: int| 0 <= k < evs.len() implies exists|m: int| 0 <= m < evs.len() && #[trigger] r[k] == evs[m] by {
            if k == p {
                assert(r[k] == evs[evs.len() - 1]);
            } else {
                let k0 = if k < p { k } else { k - 1 };
                assert(r[k] == s[k0]);
                let m = choose|m: int| 0 <= m < init.len() && s[k0] == init[m];
                assert(init[m] == evs[m]);
            }
        }
    }
}

proof fn lemma_in_window_ids(evs: Seq<EventRow>, lo: Seq<char>, hi: Seq<char>)
    requires
        ids_increasing(evs),
    ensures
        ids_increasing(in_window(evs, lo, hi)),
        forall|k: int| 0 <= k < in_window(evs, lo, hi).len() ==> exists|m: int| 0 <= m < evs.len() && #[trigger] in_window(evs, lo, hi)[k] == evs[m],
    decreases evs.len(),
{
    if evs.len() > 0 {
        let init = evs.drop_last();
        assert forall|i: int, j: int| 0 <= i < j < init.len() implies (#[trigger] init[i]).0 < (#[trigger] init[j]).0 by {
            assert(init[i] == evs[i] && init[j] == evs[j]);
        }
        lemma_in_window_ids(init, lo, hi);
        let w = in_window(init, lo, hi);
        assert forall|k: int| 0 <= k < w.len() implies exists|m: int| 0 <= m < evs.len() && #[trigger] w[k] == evs[m] by {
            let m = choose|m: int| 0 <= m < init.len() && w[k] == init[m];
            assert(init[m] == evs[m]);
        }
        if in_text_range(evs.last().1, lo, hi) {
            let r = w.push(evs.last());
            assert forall|i: int, j: int| 0 <= i < j < r.len() implies (#[trigger] r[i]).0 < (#[trigger] r[j]).0 by {
                if j == w.len() {
                    let m = choose|m: int| 0 <= m < init.len() && w[i] == init[m];
                    assert(init[m] == evs[m]);
                    assert(evs[m].0 < evs[evs.len() - 1].0);
                } else {
                    assert(r[i] == w[i] && r[j] == w[j]);
                }
            }
            assert forall|k: int| 0 <= k < r.len() implies exists|m: int| 0 <= m < evs.len() && #[trigger] r[k] == evs[m] by {
                if k == w.len() {
                    assert(r[k] == evs[evs.len() - 1]);
                } else {
                    assert(r[k] == w[k]);
                }
            }
        }
    }
}

/// Events with equal timestamps keep their log order, which is id order.
pub proof fn lemma_by_time_ties(evs: Seq<EventRow>)
    requires
        ids_increasing(evs),
    ensures
        forall|i: int, j: int| 0 <= i < j < by_time(evs).len() && (#[trigger] by_time(evs)[i]).1 == (#[trigger] by_time(evs)[j]).1
            ==> by_time(evs)[i].0 < by_time(evs)[j].0,
    decreases evs.len(),
{
    if evs.len() > 0 {
        let init = evs.drop_last();
        assert forall|i: int, j: int| 0 <= i < j < init.len() implies (#[trigger] init[i]).0 < (#[trigger] init[j]).0 by {
            assert(init[i] == evs[i] && init[j] == evs[j]);
        }
        lemma_by_time_ties(init);
        lemma_by_time_members(init);
        lemma_by_time_ordered(init);
        let s = by_time(init);
        let e = evs.last();
        lemma_slot_after(s, e.1);
        let p = slot_after(s, e.1);
        let r = s.insert(p, e);
        assert forall|i: int, j: int| 0 <= i < j < r.len() && (#[trigger] r[i]).1 == (#[trigger] r[j]).1 implies r[i].0 < r[j].0 by {
            if j < p {
                assert(r[i] == s[i] && r[j] == s[j]);
            } else if j == p {
                assert(r[i] == s[i] && r[j] == e);
                let m = choose|m: int| 0 <= m < init.len() && s[i] == init[m];
                assert(init[m] == evs[m]);
            } else if i == p {
                assert(r[i] == e && r[j] == s[j - 1]);
                lemma_text_le_reflexive(e.1);
                if j - 1 > p {
                    assert(text_le(s[p].1, s[j - 1].1));
                }
            } else if i < p {
                assert(r[i] == s[i] && r[j] == s[j - 1]);
            } else {
                assert(r[i] == s[i - 1] && r[j] == s[j - 1]);
            }
        }
    }
}

/// The aggregator sees the events of a window in time order, events with
/// equal timestamps in id order.
pub proof fn lemma_window_order(evs: Seq<EventRow>, lo: Seq<char>, hi: Seq<char>)
    requires
        ids_increasing(evs),
    ensures
        time_ordered(by_time(in_window(evs, lo, hi))),
        forall|i: int, j: int| 0 <= i < j < by_time(in_window(evs, lo, hi)).len()
            && (#[trigger] by_time(in_window(evs, lo, hi))[i]).1 == (#[trigger] by_time(in_window(evs, lo, hi))[j]).1
            ==> by_time(in_window(evs, lo, hi))[i].0 < by_time(in_window(evs, lo, hi))[j].0,
{
    lemma_in_window_ids(evs, lo, hi);
    lemma_by_time_ordered(in_window(evs, lo, hi));
    lemma_by_time_ties(in_window(evs, lo, hi));
}

/// Events as the aggregator sees them: timestamps read, ids dropped.
pub open spec fn moments_of(evs: Seq<EventRow>) -> Seq<Moment> {
    evs.map_values(|e: EventRow| (timestamp_of(e.1), e.2))
}

/// What the aggregator is run on for the window `lo..=hi` of the log `evs`:
/// the events of the window in time order.
pub open spec fn window_moments(evs: Seq<EventRow>, lo: Seq<char>, hi: Seq<char>) -> Seq<Moment> {
    moments_of(by_time(in_window(evs, lo, hi)))
}

} // verus!
