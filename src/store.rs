//! The three relations of the usage store, held in memory: the append-only
//! event log, the per-application daily rollups and the whole-day totals. Rollup
//! rows are unique on their key and written by upsert-replace.

use vstd::prelude::*;
use crate::durations::{distinct_keys, key_index, lemma_key_index, lemma_key_index_distinct, lemma_put_distinct, put, Keyed};

verus! {

/// An event as stored: its id, its `YYYY-MM-DD HH:MM:SS` timestamp and the
/// application that took focus.
pub type EventRow = (u64, Seq<char>, Seq<char>);

/// The key of a per-application rollup: its date and application name.
pub type AppDay = (Seq<char>, Seq<char>);

/// One focus change, as written to the event log.
pub struct RawEvent {
    pub id: u64,
    pub time: String,
    pub app_name: String,
}

impl View for RawEvent {
    type V = EventRow;

    open spec fn view(&self) -> EventRow {
        (self.id, self.time@, self.app_name@)
    }
}

/// The seconds one application was in focus on one day.
pub struct AppUsageRow {
    pub date: String,
    pub app_name: String,
    pub total_usage: i64,
}

impl View for AppUsageRow {
    type V = (AppDay, int);

    open spec fn view(&self) -> (AppDay, int) {
        ((self.date@, self.app_name@), self.total_usage as int)
    }
}

/// The seconds of all applications together on one day.
pub struct UsageStatsRow {
    pub date: String,
    pub total_usage: i64,
}

impl View for UsageStatsRow {
    type V = (Seq<char>, int);

    open spec fn view(&self) -> (Seq<char>, int) {
        (self.date@, self.total_usage as int)
    }
}

/// Why an operation of the store or of the queries over it did not complete.
#[derive(Debug, Clone, Copy, PartialEq, Eq, Structural)]
pub enum UsageError {
    /// A date argument is not a `YYYY-MM-DD` calendar date.
    InvalidDate,
    /// A date computed from the arguments falls outside the calendar's range.
    DateOutOfRange,
    /// A duration or a sum of durations does not fit in an `i64`.
    Overflow,
    /// The local day's first or last second names no single instant.
    LocalTimeUnavailable,
    /// Every event id has been handed out.
    IdsExhausted,
    /// No relation of the store has the given name.
    UnknownTable,
}

/// The usage store.
pub struct UsageStore {
    events: Vec<RawEvent>,
    app_usage: Vec<AppUsageRow>,
    usage_stats: Vec<UsageStatsRow>,
    next_id: u64,
}

impl UsageStore {
    /// The event log, in id order.
    pub closed spec fn event_rows(&self) -> Seq<EventRow> {
        self.events@.map_values(|e: RawEvent| e@)
    }

    /// The per-application rollups, keyed by date and application.
    pub closed spec fn app_rows(&self) -> Keyed<AppDay> {
        self.app_usage@.map_values(|r: AppUsageRow| r@)
    }

    /// The whole-day totals, keyed by date.
    pub closed spec fn stat_rows(&self) -> Keyed<Seq<char>> {
        self.usage_stats@.map_values(|r: UsageStatsRow| r@)
    }

    /// The id that the next recorded event receives.
    pub closed spec fn next_event_id(&self) -> u64 {
        self.next_id
    }

    pub open spec fn wf(&self) -> bool {
        &&& distinct_keys(self.app_rows())
        &&& distinct_keys(self.stat_rows())
        &&& forall|i: int| 0 <= i < self.event_rows().len() ==> (#[trigger] self.event_rows()[i]).0 < self.next_event_id()
        &&& forall|i: int, j: int| 0 <= i < j < self.event_rows().len() ==> (#[trigger] self.event_rows()[i]).0 < (#[trigger] self.event_rows()[j]).0
    }

    /// An empty store; the first event recorded gets id 1.
    pub fn new() -> (r: UsageStore)
        ensures
            r.wf(),
            r.event_rows() == Seq::<EventRow>::empty(),
            r.app_rows() == Seq::<(AppDay, int)>::empty(),
            r.stat_rows() == Seq::<(Seq<char>, int)>::empty(),
            r.next_event_id() == 1,
    {
        let r = UsageStore { events: Vec::new(), app_usage: Vec::new(), usage_stats: Vec::new(), next_id: 1 };
        assert(r.event_rows() =~= Seq::<EventRow>::empty());
        assert(r.app_rows() =~= Seq::<(AppDay, int)>::empty());
        assert(r.stat_rows() =~= Seq::<(Seq<char>, int)>::empty());
        r
    }

    /// The event log, in id order.
    pub fn events(&self) -> (r: &Vec<RawEvent>)
        ensures
            r@.map_values(|e: RawEvent| e@) == self.event_rows(),
    {
        &self.events
    }

    /// The per-application rollups.
    pub fn app_usage_rows(&self) -> (r: &Vec<AppUsageRow>)
        ensures
            r@.map_values(|e: AppUsageRow| e@) == self.app_rows(),
    {
        &self.app_usage
    }

    /// The whole-day totals.
    pub fn usage_stats_rows(&self) -> (r: &Vec<UsageStatsRow>)
        ensures
            r@.map_values(|e: UsageStatsRow| e@) == self.stat_rows(),
    {
        &self.usage_stats
    }

    /// Appends a focus change to the event log under the next id, and returns
    /// that id; fails only where the ids are used up.
    pub fn record_event(&mut self, time: String, app_name: String) -> (r: Result<u64, UsageError>)
        requires
            old(self).wf(),
        ensures
            final(self).wf(),
            match r {
                Ok(id) => {
                    &&& id == old(self).next_event_id()
                    &&& final(self).event_rows() == old(self).event_rows().push((id, time@, app_name@))
                    &&& final(self).next_event_id() == id + 1
                    &&& final(self).app_rows() == old(self).app_rows()
                    &&& final(self).stat_rows() == old(self).stat_rows()
                },
                Err(e) => e == UsageError::IdsExhausted && old(self).next_event_id() == u64::MAX
                    && *final(self) == *old(self),
            },
    {
        if self.next_id == u64::MAX {
            return Err(UsageError::IdsExhausted);
        }
        let id = self.next_id;
        self.append_event(id, time, app_name);
        Ok(id)
    }

    /// Puts back an event read from durable storage. Ids must come in
    /// increasing order: the event is taken, and true returned, exactly where
    /// `id` is at least the next id and below `u64::MAX`.
    pub fn restore_event(&mut self, id: u64, time: String, app_name: String) -> (r: bool)
        requires
            old(self).wf(),
        ensures
            final(self).wf(),
            r == (old(self).next_event_id() <= id < u64::MAX),
            r ==> final(self).event_rows() == old(self).event_rows().push((id, time@, app_name@))
                && final(self).next_event_id() == id + 1
                && final(self).app_rows() == old(self).app_rows()
                && final(self).stat_rows() == old(self).stat_rows(),
            !r ==> *final(self) == *old(self),
    {
        if id < self.next_id || id == u64::MAX {
            return false;
        }
        self.append_event(id, time, app_name);
        true
    }

    fn append_event(&mut self, id: u64, time: String, app_name: String)
        requires
            old(self).wf(),
            old(self).next_event_id() <= id < u64::MAX,
        ensures
            final(self).wf(),
            final(self).event_rows() == old(self).event_rows().push((id, time@, app_name@)),
            final(self).next_event_id() == id + 1,
            final(self).app_rows() == old(self).app_rows(),
            final(self).stat_rows() == old(self).stat_rows(),
    {
        let ghost before = self.event_rows();
        self.events.push(RawEvent { id, time, app_name });
        self.next_id = id + 1;
        assert(self.event_rows() =~= before.push((id, time@, app_name@)));
    }

    /// Writes `total` seconds for `app_name` on `date`, replacing any earlier
    /// value for that pair: afterwards exactly one row has that key.
    pub fn upsert_app_usage(&mut self, date: &str, app_name: &str, total: i64)
        requires
            old(self).wf(),
        ensures
            final(self).wf(),
            final(self).app_rows() == put(old(self).app_rows(), (date@, app_name@), total as int),
            final(self).event_rows() == old(self).event_rows(),
            final(self).stat_rows() == old(self).stat_rows(),
            final(self).next_event_id() == old(self).next_event_id(),
    {
        let ghost key = (date@, app_name@);
        let ghost before = self.app_rows();
        proof {
            lemma_key_index(before, key);
            lemma_put_distinct(before, key, total as int);
        }
        let d = date.to_owned();
        let a = app_name.to_owned();
        let mut i: usize = 0;
        while i < self.app_usage.len()
            invariant
                *self == *old(self),
                old(self).wf(),
                self.app_rows() == before,
                before.len() == self.app_usage@.len(),
                distinct_keys(before),
                i <= before.len(),
                d@ == date@,
                a@ == app_name@,
                key == (date@, app_name@),
                forall|j: int| 0 <= j < i ==> before[j].0 != key,
            decreases self.app_usage.len() - i,
        {
            assert(before[i as int] == self.app_usage@[i as int]@);
            let same_date = self.app_usage[i].date == d;
            let same_app = self.app_usage[i].app_name == a;
            if same_date && same_app {
                proof {
                    lemma_key_index_distinct(before, key, i as int);
                }
                self.app_usage.set(i, AppUsageRow { date: d, app_name: a, total_usage: total });
                assert(self.app_rows() =~= before.update(i as int, (key, total as int)));
                assert(self.event_rows() == old(self).event_rows());
                assert(self.stat_rows() == old(self).stat_rows());
                return;
            }
            i = i + 1;
        }
        assert(key_index(before, key) == -1);
        self.app_usage.push(AppUsageRow { date: d, app_name: a, total_usage: total });
        assert(self.app_rows() =~= before.push((key, total as int)));
        assert(self.event_rows() == old(self).event_rows());
        assert(self.stat_rows() == old(self).stat_rows());
    }

    /// Writes `total` seconds as the whole-day total of `date`, replacing any
    /// earlier value: afterwards exactly one row has that date.
    pub fn upsert_usage_stats(&mut self, date: &str, total: i64)
        requires
            old(self).wf(),
        ensures
            final(self).wf(),
            final(self).stat_rows() == put(old(self).stat_rows(), date@, total as int),
            final(self).event_rows() == old(self).event_rows(),
            final(self).app_rows() == old(self).app_rows(),
            final(self).next_event_id() == old(self).next_event_id(),
    {
        let ghost before = self.stat_rows();
        proof {
            lemma_key_index(before, date@);
            lemma_put_distinct(before, date@, total as int);
        }
        let d = date.to_owned();
        let mut i: usize = 0;
        while i < self.usage_stats.len()
            invariant
                *self == *old(self),
                old(self).wf(),
                self.stat_rows() == before,
                before.len() == self.usage_stats@.len(),
                distinct_keys(before),
                i <= before.len(),
                d@ == date@,
                forall|j: int| 0 <= j < i ==> before[j].0 != date@,
            decreases self.usage_stats.len() - i,
        {
            assert(before[i as int] == self.usage_stats@[i as int]@);
            if self.usage_stats[i].date == d {
                proof {
                    lemma_key_index_distinct(before, date@, i as int);
                }
                self.usage_stats.set(i, UsageStatsRow { date: d, total_usage: total });
                assert(self.stat_rows() =~= before.update(i as int, (date@, total as int)));
                assert(self.event_rows() == old(self).event_rows());
                assert(self.app_rows() == old(self).app_rows());
                return;
            }
            i = i + 1;
        }
        assert(key_index(before, date@) == -1);
        self.usage_stats.push(UsageStatsRow { date: d, total_usage: total });
        assert(self.stat_rows() =~= before.push((date@, total as int)));
        assert(self.event_rows() == old(self).event_rows());
        assert(self.app_rows() == old(self).app_rows());
    }
}

} // verus!
