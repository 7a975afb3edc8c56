//! Mappings from application name to seconds, kept as lists of distinct keys.

use vstd::prelude::*;

verus! {

/// A keyed list of seconds: each key at most once where `distinct_keys` holds.
pub type Keyed<K> = Seq<(K, int)>;

/// A mapping from application name to seconds: a list in which each name
/// appears at most once, in the order the names were first credited.
pub type Durations = Keyed<Seq<char>>;

/// The position of `k` in `m` (its last occurrence), or -1 where it is absent.
pub open spec fn key_index<K>(m: Keyed<K>, k: K) -> int
    decreases m.len(),
{
    if m.len() == 0 {
        -1
    } else if m.last().0 == k {
        m.len() - 1
    } else {
        key_index(m.drop_last(), k)
    }
}

pub open spec fn has_key<K>(m: Keyed<K>, k: K) -> bool {
    key_index(m, k) >= 0
}

/// The seconds held under `k`; zero where `k` is absent.
pub open spec fn value_of<K>(m: Keyed<K>, k: K) -> int {
    if has_key(m, k) {
        m[key_index(m, k)].1
    } else {
        0
    }
}

pub open spec fn distinct_keys<K>(m: Keyed<K>) -> bool {
    forall|i: int, j: int| 0 <= i < j < m.len() ==> m[i].0 != m[j].0
}

/// `m` with `v` under `k`: its entry replaced in place, or a new entry at the
/// end.
pub open spec fn put<K>(m: Keyed<K>, k: K, v: int) -> Keyed<K> {
    let i = key_index(m, k);
    if i >= 0 {
        m.update(i, (k, v))
    } else {
        m.push((k, v))
    }
}

/// `m` with `d` more seconds credited to `k`.
pub open spec fn add_to<K>(m: Keyed<K>, k: K, d: int) -> Keyed<K> {
    put(m, k, value_of(m, k) + d)
}

/// The sum of all seconds in `m`.
pub open spec fn total<K>(m: Keyed<K>) -> int
    decreases m.len(),
{
    if m.len() == 0 {
        0
    } else {
        total(m.drop_last()) + m.last().1
    }
}

pub open spec fn fits_i64(x: int) -> bool {
    i64::MIN <= x <= i64::MAX
}

pub proof fn lemma_key_index<K>(m: Keyed<K>, k: K)
    ensures
        -1 <= key_index(m, k) < m.len(),
        key_index(m, k) >= 0 ==> m[key_index(m, k)].0 == k,
        key_index(m, k) == -1 ==> forall|j: int| 0 <= j < m.len() ==> m[j].0 != k,
    decreases m.len(),
{
    if m.len() > 0 {
        lemma_key_index(m.drop_last(), k);
        assert(forall|j: int| 0 <= j < m.len() - 1 ==> m[j] == m.drop_last()[j]);
    }
}

pub proof fn lemma_key_index_distinct<K>(m: Keyed<K>, k: K, j: int)
    requires
        distinct_keys(m),
        0 <= j < m.len(),
        m[j].0 == k,
    ensures
        key_index(m, k) == j,
{
    lemma_key_index(m, k);
}

/// Changing the seconds of an entry keeps every key where it was.
pub proof fn lemma_key_index_update<K>(m: Keyed<K>, j: int, v: int, k: K)
    requires
        0 <= j < m.len(),
    ensures
        key_index(m.update(j, (m[j].0, v)), k) == key_index(m, k),
    decreases m.len(),
{
    let u = m.update(j, (m[j].0, v));
    if j < m.len() - 1 {
        assert(u.drop_last() == m.drop_last().update(j, (m[j].0, v)));
        lemma_key_index_update(m.drop_last(), j, v, k);
    } else {
        assert(u.drop_last() == m.drop_last());
    }
}

pub proof fn lemma_put_keys<K>(m: Keyed<K>, k: K, v: int, k2: K)
    ensures
        k2 != k ==> key_index(put(m, k, v), k2) == key_index(m, k2),
        k2 != k ==> value_of(put(m, k, v), k2) == value_of(m, k2),
        has_key(put(m, k, v), k),
        value_of(put(m, k, v), k) == v,
{
    lemma_key_index(m, k);
    lemma_key_index(m, k2);
    let i = key_index(m, k);
    if i >= 0 {
        lemma_key_index_update(m, i, v, k2);
        lemma_key_index_update(m, i, v, k);
    } else {
        let p = m.push((k, v));
        assert(p.drop_last() == m);
    }
}

pub proof fn lemma_add_to_keys<K>(m: Keyed<K>, k: K, d: int, k2: K)
    ensures
        k2 != k ==> key_index(add_to(m, k, d), k2) == key_index(m, k2),
        value_of(add_to(m, k, d), k2) == value_of(m, k2) + (if k2 == k { d } else { 0 }),
        has_key(add_to(m, k, d), k),
{
    lemma_put_keys(m, k, value_of(m, k) + d, k2);
}

pub proof fn lemma_put_distinct<K>(m: Keyed<K>, k: K, v: int)
    requires
        distinct_keys(m),
    ensures
        distinct_keys(put(m, k, v)),
        put(m, k, v).len() == m.len() + (if has_key(m, k) { 0int } else { 1int }),
{
    lemma_key_index(m, k);
}

pub proof fn lemma_add_to_distinct<K>(m: Keyed<K>, k: K, d: int)
    requires
        distinct_keys(m),
    ensures
        distinct_keys(add_to(m, k, d)),
        add_to(m, k, d).len() == m.len() + (if has_key(m, k) { 0int } else { 1int }),
{
    lemma_put_distinct(m, k, value_of(m, k) + d);
}

pub proof fn lemma_total_update<K>(m: Keyed<K>, j: int, e: (K, int))
    requires
        0 <= j < m.len(),
    ensures
        total(m.update(j, e)) == total(m) - m[j].1 + e.1,
    decreases m.len(),
{
    let u = m.update(j, e);
    if j < m.len() - 1 {
        assert(u.drop_last() == m.drop_last().update(j, e));
        lemma_total_update(m.drop_last(), j, e);
    } else {
        assert(u.drop_last() == m.drop_last());
    }
}

pub proof fn lemma_total_add_to<K>(m: Keyed<K>, k: K, d: int)
    ensures
        total(add_to(m, k, d)) == total(m) + d,
{
    lemma_key_index(m, k);
    let i = key_index(m, k);
    if i >= 0 {
        lemma_total_update(m, i, (k, m[i].1 + d));
    } else {
        assert(m.push((k, d)).drop_last() == m);
    }
}

/// One entry of a [`UsageMap`].
pub struct AppDuration {
    pub app_name: String,
    pub seconds: i64,
}

/// Seconds per application name, each name at most once. The whole-day
/// totals of a range use the same shape, keyed by date.
pub struct UsageMap {
    entries: Vec<AppDuration>,
}

impl View for UsageMap {
    type V = Durations;

    closed spec fn view(&self) -> Durations {
        self.entries@.map_values(|e: AppDuration| (e.app_name@, e.seconds as int))
    }
}

impl UsageMap {
    pub open spec fn wf(&self) -> bool {
        distinct_keys(self@)
    }

    /// The empty mapping.
    pub fn new() -> (r: UsageMap)
        ensures
            r@ == Seq::<(Seq<char>, int)>::empty(),
            r.wf(),
    {
        let r = UsageMap { entries: Vec::new() };
        assert(r@ =~= Seq::<(Seq<char>, int)>::empty());
        r
    }

    /// The number of applications in the mapping.
    pub fn len(&self) -> (r: usize)
        ensures
            r == self@.len(),
    {
        self.entries.len()
    }

    /// The entries, in the order in which their names were first credited.
    pub fn entries(&self) -> (r: &Vec<AppDuration>)
        ensures
            r@.map_values(|e: AppDuration| (e.app_name@, e.seconds as int)) == self@,
    {
        &self.entries
    }

    /// The seconds credited to `app_name`, if it is in the mapping.
    pub fn get(&self, app_name: &str) -> (r: Option<i64>)
        requires
            self.wf(),
        ensures
            match r {
                Some(v) => has_key(self@, app_name@) && v == value_of(self@, app_name@),
                None => !has_key(self@, app_name@),
            },
    {
        let key = app_name.to_owned();
        let mut i: usize = 0;
        while i < self.entries.len()
            invariant
                i <= self@.len(),
                self@.len() == self.entries@.len(),
                key@ == app_name@,
                self.wf(),
                forall|j: int| 0 <= j < i ==> self@[j].0 != app_name@,
            decreases self.entries.len() - i,
        {
            if self.entries[i].app_name == key {
                proof {
                    lemma_key_index_distinct(self@, app_name@, i as int);
                }
                return Some(self.entries[i].seconds);
            }
            i = i + 1;
        }
        proof {
            lemma_key_index(self@, app_name@);
        }
        None
    }

    /// Appends an entry for a name that is not yet in the mapping.
    pub(crate) fn push_new(&mut self, app_name: String, seconds: i64)
        requires
            old(self).wf(),
            !has_key(old(self)@, app_name@),
        ensures
            final(self).wf(),
            final(self)@ == old(self)@.push((app_name@, seconds as int)),
    {
        proof {
            lemma_key_index(self@, app_name@);
        }
        let ghost before = self@;
        self.entries.push(AppDuration { app_name, seconds });
        assert(self@ =~= before.push((app_name@, seconds as int)));
    }

    /// Credits `d` more seconds to `app_name`. Returns false, and changes
    /// nothing, where the new value would not fit in an `i64`.
    pub fn accumulate(&mut self, app_name: &String, d: i64) -> (ok: bool)
        requires
            old(self).wf(),
        ensures
            final(self).wf(),
            ok == fits_i64(value_of(old(self)@, app_name@) + d),
            ok ==> final(self)@ == add_to(old(self)@, app_name@, d as int),
            !ok ==> final(self)@ == old(self)@,
    {
        let mut i: usize = 0;
        while i < self.entries.len()
            invariant
                i <= self@.len(),
                self@.len() == self.entries@.len(),
                self@ == old(self)@,
                self.wf(),
                forall|j: int| 0 <= j < i ==> self@[j].0 != app_name@,
            decreases self.entries.len() - i,
        {
            if self.entries[i].app_name == *app_name {
                proof {
                    lemma_key_index_distinct(self@, app_name@, i as int);
                }
                match self.entries[i].seconds.checked_add(d) {
                    Some(v) => {
                        let ghost before = self@;
                        let name = app_name.clone();
                        self.entries.set(i, AppDuration { app_name: name, seconds: v });
                        proof {
                            assert(self@ =~= before.update(i as int, (app_name@, v as int)));
                            lemma_add_to_distinct(before, app_name@, d as int);
                        }
                        return true;
                    },
                    None => {
                        return false;
                    },
                }
            }
            i = i + 1;
        }
        proof {
            lemma_key_index(self@, app_name@);
            lemma_add_to_distinct(self@, app_name@, d as int);
        }
        let ghost before = self@;
        self.entries.push(AppDuration { app_name: app_name.clone(), seconds: d });
        assert(self@ =~= before.push((app_name@, d as int)));
        true
    }
}

} // verus!
