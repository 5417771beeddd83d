//! Bounded cache with TTL eviction for slow module results.
//!
//! Times are milliseconds on a monotonic clock: `get_at` and `insert_at`
//! take them from the caller, `get` and `insert` read the cache's own clock.
use vstd::prelude::*;

use super::KeyEq;
use crate::clock::{clock_start, elapsed_ms};

verus! {

/// A bounded key-value cache with time-to-live eviction.
///
/// When the cache is full, the oldest entry is evicted on insertion of a new
/// key. Entries older than the TTL are not returned, and are removed when read.
///
/// The entries are kept in a `Vec` in insertion order rather than a hash map:
/// the key type is generic (compared through [`KeyEq`], whose equality the
/// contracts can speak of), eviction has to scan every entry for the oldest
/// insertion time anyway, and the order makes "the first of the oldest" a
/// definite entry. That no key occurs twice is the invariant `wf` states.
pub struct BoundedCache<K, V> {
    entries: Vec<(K, V, u64)>,
    max_size: usize,
    ttl_ms: u64,
    started: std::time::Instant,
}

/// The entries as (key, value, insertion time).
pub open spec fn entries_view<K: View, V>(e: Seq<(K, V, u64)>) -> Seq<(K::V, V, u64)> {
    Seq::new(e.len(), |i: int| (e[i].0@, e[i].1, e[i].2))
}

/// The position of the entry for key `k`, or -1.
pub open spec fn key_index<KV, V>(e: Seq<(KV, V, u64)>, k: KV) -> int
    decreases e.len(),
{
    if e.len() == 0 {
        -1
    } else if e.last().0 == k {
        e.len() - 1
    } else {
        key_index(e.drop_last(), k)
    }
}

/// Whether no key occurs twice.
pub open spec fn unique_keys<KV, V>(e: Seq<(KV, V, u64)>) -> bool {
    forall|i: int, j: int| 0 <= i < j < e.len() ==> e[i].0 != e[j].0
}

/// Whether `i` holds the earliest insertion time (the first such entry).
pub open spec fn is_oldest<KV, V>(e: Seq<(KV, V, u64)>, i: int) -> bool {
    &&& 0 <= i < e.len()
    &&& forall|j: int| 0 <= j < e.len() ==> e[i].2 <= #[trigger] e[j].2
    &&& forall|j: int| 0 <= j < i ==> e[i].2 < #[trigger] e[j].2
}

/// Whether an entry inserted at `inserted` has expired at `now`.
pub open spec fn expired(inserted: u64, now: u64, ttl: u64) -> bool {
    now > inserted && now - inserted > ttl
}

/// `e2` is `e` after caching `v` under `k` at `t` with size limit `max`:
/// an existing key is replaced in place; a new key in a full cache first
/// evicts the oldest entry; otherwise the entry is appended.
pub open spec fn inserted<KV, V>(e: Seq<(KV, V, u64)>, e2: Seq<(KV, V, u64)>, k: KV, v: V, t: u64, max: usize) -> bool {
    let i = key_index(e, k);
    if i >= 0 {
        e2 == e.update(i, (k, v, t))
    } else if e.len() >= max && e.len() > 0 {
        exists|o: int| is_oldest(e, o) && e2 == e.remove(o).push((k, v, t))
    } else {
        e2 == e.push((k, v, t))
    }
}

/// `r` is what reading `k` at `now` gives, and `e2` the entries afterwards:
/// nothing for a missing key; nothing, and the entry removed, once it has
/// expired; else the cached value.
pub open spec fn looked_up<KV, V>(e: Seq<(KV, V, u64)>, e2: Seq<(KV, V, u64)>, k: KV, r: Option<&V>, now: u64, ttl: u64) -> bool {
    let i = key_index(e, k);
    if i < 0 {
        r is None && e2 == e
    } else if expired(e[i].2, now, ttl) {
        r is None && e2 == e.remove(i)
    } else {
        r == Some(&e[i].1) && e2 == e
    }
}

/// The value that reading `k` at `now` gives: the cached value, unless the
/// key is missing or its entry has expired.
pub open spec fn lookup_value<KV, V>(e: Seq<(KV, V, u64)>, k: KV, now: u64, ttl: u64) -> Option<V> {
    let i = key_index(e, k);
    if i < 0 || expired(e[i].2, now, ttl) {
        None
    } else {
        Some(e[i].1)
    }
}

/// The entries after reading `k` at `now`: an expired entry for `k` is gone.
pub open spec fn after_lookup<KV, V>(e: Seq<(KV, V, u64)>, k: KV, now: u64, ttl: u64) -> Seq<(KV, V, u64)> {
    let i = key_index(e, k);
    if i >= 0 && expired(e[i].2, now, ttl) {
        e.remove(i)
    } else {
        e
    }
}

impl<K: KeyEq, V> BoundedCache<K, V> {
    /// The entries as (key, value, insertion time).
    pub closed spec fn view_entries(&self) -> Seq<(K::V, V, u64)> {
        entries_view(self.entries@)
    }

    /// The size limit.
    pub closed spec fn max_size_spec(&self) -> usize {
        self.max_size
    }

    /// The time to live in milliseconds.
    pub closed spec fn ttl_spec(&self) -> u64 {
        self.ttl_ms
    }

    /// Keys are unique and the size stays within the limit (at least one entry fits).
    pub open spec fn wf(&self) -> bool {
        &&& unique_keys(self.view_entries())
        &&& self.view_entries().len() <= if self.max_size_spec() == 0 { 1 } else { self.max_size_spec() as int }
    }

    /// Creates a new cache with the given size limit and TTL.
    pub fn new(max_size: usize, ttl_ms: u64) -> (r: Self)
        ensures
            r.wf(),
            r.view_entries().len() == 0,
            r.max_size_spec() == max_size,
            r.ttl_spec() == ttl_ms,
    {
        let r = BoundedCache { entries: Vec::new(), max_size, ttl_ms, started: clock_start() };
        assert(r.view_entries() =~= Seq::<(K::V, V, u64)>::empty());
        r
    }

    /// Number of entries.
    pub fn len(&self) -> (r: usize)
        ensures
            r == self.view_entries().len(),
    {
        self.entries.len()
    }

    fn find(&self, key: &K) -> (r: Option<usize>)
        ensures
            match r {
                Some(i) => i < self.view_entries().len() && self.view_entries()[i as int].0 == key@
                    && key_index(self.view_entries(), key@) == i,
                None => key_index(self.view_entries(), key@) == -1,
            },
    {
        let ghost e = self.view_entries();
        let mut i = self.entries.len();
        assert(e.take(i as int) =~= e);
        while i > 0
            invariant
                i <= self.entries.len(),
                e == self.view_entries(),
                key_index(e, key@) == key_index(e.take(i as int), key@),
            decreases i,
        {
            assert(e.take(i as int).drop_last() =~= e.take(i - 1));
            assert(e.take(i as int).last() == e[i - 1]);
            if self.entries[i - 1].0.key_eq(key) {
                return Some(i - 1);
            }
            i = i - 1;
        }
        None
    }

    /// The value cached under `key` at time `now`, if present and not
    /// expired; an expired entry is removed.
    pub fn get_at(&mut self, key: &K, now: u64) -> (r: Option<&V>)
        requires
            old(self).wf(),
        ensures
            final(self).wf(),
            final(self).max_size_spec() == old(self).max_size_spec(),
            final(self).ttl_spec() == old(self).ttl_spec(),
            looked_up(old(self).view_entries(), final(self).view_entries(), key@, r, now, old(self).ttl_spec()),
    {
        let ghost e = self.view_entries();
        proof {
            lemma_key_index_bounds(e, key@);
        }
        match self.find(key) {
            None => None,
            Some(i) => {
                let inserted = self.entries[i].2;
                if now > inserted && now - inserted > self.ttl_ms {
                    let _ = self.entries.remove(i);
                    proof {
                        assert(self.view_entries() =~= e.remove(i as int));
                        assert forall|a: int, b: int|
                            0 <= a < b < self.view_entries().len() implies self.view_entries()[a].0
                            != self.view_entries()[b].0 by {
                            let a2 = if a < i { a } else { a + 1 };
                            let b2 = if b < i { b } else { b + 1 };
                            assert(self.view_entries()[a] == e[a2]);
                            assert(self.view_entries()[b] == e[b2]);
                        }
                    }
                    None
                } else {
                    Some(&self.entries[i].1)
                }
            },
        }
    }

    fn oldest(&self) -> (r: usize)
        requires
            self.entries@.len() > 0,
        ensures
            is_oldest(self.view_entries(), r as int),
    {
        let ghost e = self.view_entries();
        let mut best: usize = 0;
        let mut j: usize = 1;
        while j < self.entries.len()
            invariant
                1 <= j <= self.entries.len(),
                best < j,
                e == self.view_entries(),
                forall|q: int| 0 <= q < j ==> e[best as int].2 <= #[trigger] e[q].2,
                forall|q: int| 0 <= q < best ==> e[best as int].2 < #[trigger] e[q].2,
            decreases self.entries.len() - j,
        {
            if self.entries[j].2 < self.entries[best].2 {
                best = j;
            }
            j = j + 1;
        }
        best
    }

    /// Caches `value` under `key` at time `now`. A new key in a full cache
    /// first evicts the oldest entry; an existing key is replaced in place.
    pub fn insert_at(&mut self, key: K, value: V, now: u64)
        requires
            old(self).wf(),
        ensures
            final(self).wf(),
            final(self).max_size_spec() == old(self).max_size_spec(),
            final(self).ttl_spec() == old(self).ttl_spec(),
            inserted(old(self).view_entries(), final(self).view_entries(), key@, value, now, old(self).max_size_spec()),
    {
        let ghost e = self.view_entries();
        let ghost kv = key@;
        proof {
            lemma_key_index_bounds(e, key@);
        }
        match self.find(&key) {
            Some(i) => {
                self.entries.set(i, (key, value, now));
                proof {
                    assert(self.view_entries() =~= e.update(i as int, (kv, value, now)));
                    assert forall|a: int, b: int|
                        0 <= a < b < self.view_entries().len() implies self.view_entries()[a].0
                        != self.view_entries()[b].0 by {
                        if a != i && b != i {
                            assert(self.view_entries()[a] == e[a]);
                            assert(self.view_entries()[b] == e[b]);
                        } else if a == i {
                            assert(self.view_entries()[b] == e[b]);
                        } else {
                            assert(self.view_entries()[a] == e[a]);
                        }
                    }
                }
            },
            None => {
                let ghost o: int = -1;
                if self.entries.len() >= self.max_size && self.entries.len() > 0 {
                    let old_i = self.oldest();
                    proof {
                        o = old_i as int;
                    }
                    let _ = self.entries.remove(old_i);
                    assert(self.view_entries() =~= e.remove(old_i as int));
                }
                let ghost mid = self.view_entries();
                self.entries.push((key, value, now));
                proof {
                    assert(self.view_entries() =~= mid.push((kv, value, now)));
                    assert forall|q: int| 0 <= q < mid.len() implies mid[q].0 != kv by {
                        if o >= 0 {
                            let q2 = if q < o { q } else { q + 1 };
                            assert(mid[q] == e[q2]);
                        } else {
                            assert(mid[q] == e[q]);
                        }
                    }
                    assert forall|a: int, b: int|
                        0 <= a < b < self.view_entries().len() implies self.view_entries()[a].0
                        != self.view_entries()[b].0 by {
                        if b < mid.len() {
                            assert(self.view_entries()[a] == mid[a]);
                            assert(self.view_entries()[b] == mid[b]);
                            if o >= 0 {
                                let a2 = if a < o { a } else { a + 1 };
                                let b2 = if b < o { b } else { b + 1 };
                                assert(mid[a] == e[a2]);
                                assert(mid[b] == e[b2]);
                            }
                        } else {
                            assert(self.view_entries()[a] == mid[a]);
                        }
                    }
                }
            },
        }
    }

    /// The value cached under `key` now, if present and not expired; now is
    /// the milliseconds since the cache was made, on the monotonic clock.
    pub fn get(&mut self, key: &K) -> (r: Option<&V>)
        requires
            old(self).wf(),
        ensures
            final(self).wf(),
            final(self).max_size_spec() == old(self).max_size_spec(),
            final(self).ttl_spec() == old(self).ttl_spec(),
            exists|now: u64|
                looked_up(old(self).view_entries(), final(self).view_entries(), key@, r, now, old(self).ttl_spec()),
    {
        let now = elapsed_ms(&self.started);
        self.get_at(key, now)
    }

    /// Caches `value` under `key` now, in milliseconds since the cache was
    /// made on the monotonic clock.
    pub fn insert(&mut self, key: K, value: V)
        requires
            old(self).wf(),
        ensures
            final(self).wf(),
            final(self).max_size_spec() == old(self).max_size_spec(),
            final(self).ttl_spec() == old(self).ttl_spec(),
            exists|now: u64|
                inserted(old(self).view_entries(), final(self).view_entries(), key@, value, now, old(self).max_size_spec()),
    {
        let now = elapsed_ms(&self.started);
        self.insert_at(key, value, now)
    }

    /// Removes every entry.
    pub fn clear(&mut self)
        ensures
            final(self).wf(),
            final(self).view_entries().len() == 0,
            final(self).max_size_spec() == old(self).max_size_spec(),
            final(self).ttl_spec() == old(self).ttl_spec(),
    {
        self.entries = Vec::new();
        assert(self.view_entries() =~= Seq::<(K::V, V, u64)>::empty());
    }
}

proof fn lemma_key_index_bounds<KV, V>(e: Seq<(KV, V, u64)>, k: KV)
    ensures
        -1 <= key_index(e, k) < e.len(),
        key_index(e, k) >= 0 ==> e[key_index(e, k)].0 == k,
        key_index(e, k) < 0 ==> forall|i: int| 0 <= i < e.len() ==> (#[trigger] e[i]).0 != k,
    decreases e.len(),
{
    if e.len() > 0 {
        lemma_key_index_bounds(e.drop_last(), k);
        if e.last().0 != k {
            assert forall|i: int| 0 <= i < e.len() - 1 implies e.drop_last()[i] == e[i] by {}
        }
    }
}

/// Reading a key right after caching it gives the value just cached,
/// unless the TTL has passed since.
pub proof fn lemma_read_after_write<KV, V>(
    e: Seq<(KV, V, u64)>,
    e2: Seq<(KV, V, u64)>,
    k: KV,
    v: V,
    t: u64,
    max: usize,
    now: u64,
    ttl: u64,
)
    requires
        unique_keys(e),
        inserted(e, e2, k, v, t, max),
        !expired(t, now, ttl),
    ensures
        key_index(e2, k) >= 0,
        e2[key_index(e2, k)].1 == v,
        !expired(e2[key_index(e2, k)].2, now, ttl),
{
    lemma_key_index_bounds(e, k);
    let i = key_index(e, k);
    if i >= 0 {
        lemma_key_index_bounds(e2, k);
        lemma_unique_update(e, i, (k, v, t));
        lemma_key_index_unique(e2, i);
    } else {
        let mid = if e.len() >= max && e.len() > 0 {
            let o = choose|o: int| is_oldest(e, o) && e2 == e.remove(o).push((k, v, t));
            e.remove(o)
        } else {
            e
        };
        assert(e2 == mid.push((k, v, t)));
        assert(e2.last() == (k, v, t));
        assert(e2.drop_last() =~= mid);
    }
}

proof fn lemma_unique_update<KV, V>(e: Seq<(KV, V, u64)>, i: int, x: (KV, V, u64))
    requires
        unique_keys(e),
        0 <= i < e.len(),
        e[i].0 == x.0,
    ensures
        unique_keys(e.update(i, x)),
{
    let f = e.update(i, x);
    assert forall|a: int, b: int| 0 <= a < b < f.len() implies f[a].0 != f[b].0 by {
        assert(f[a].0 == e[a].0);
        assert(f[b].0 == e[b].0);
    }
}

proof fn lemma_key_index_unique<KV, V>(e: Seq<(KV, V, u64)>, i: int)
    requires
        unique_keys(e),
        0 <= i < e.len(),
    ensures
        key_index(e, e[i].0) == i,
    decreases e.len(),
{
    if i < e.len() - 1 {
        assert(e.drop_last()[i] == e[i]);
        assert forall|a: int, b: int| 0 <= a < b < e.drop_last().len() implies e.drop_last()[a].0
            != e.drop_last()[b].0 by {
            assert(e.drop_last()[a] == e[a]);
            assert(e.drop_last()[b] == e[b]);
        }
        lemma_key_index_unique(e.drop_last(), i);
    }
}

/// Replacing the value of a cached key leaves every other entry in place:
/// updates never evict.
pub proof fn lemma_update_keeps_others<KV, V>(
    e: Seq<(KV, V, u64)>,
    e2: Seq<(KV, V, u64)>,
    k: KV,
    v: V,
    t: u64,
    max: usize,
    j: int,
)
    requires
        inserted(e, e2, k, v, t, max),
        key_index(e, k) >= 0,
        0 <= j < e.len(),
        e[j].0 != k,
    ensures
        e2.len() == e.len(),
        e2[j] == e[j],
{
    lemma_key_index_bounds(e, k);
}


/// Get after insert: once `v` is cached under `k` at `t0`, reading `k` at a
/// time `t` with `t - t0 <= ttl` gives `v` and leaves the entries as they are.
pub proof fn lemma_get_after_insert<KV, V>(
    e: Seq<(KV, V, u64)>,
    e2: Seq<(KV, V, u64)>,
    e3: Seq<(KV, V, u64)>,
    k: KV,
    v: V,
    t0: u64,
    max: usize,
    t: u64,
    ttl: u64,
    r: Option<&V>,
)
    requires
        unique_keys(e),
        inserted(e, e2, k, v, t0, max),
        t - t0 <= ttl,
        looked_up(e2, e3, k, r, t, ttl),
    ensures
        r == Some(&v),
        e3 == e2,
{
    lemma_read_after_write(e, e2, k, v, t0, max, t, ttl);
}


/// Eviction law: caching a new key in a full cache evicts one entry, an
/// oldest one, and keeps every other entry; the size stays the same.
pub proof fn lemma_insert_evicts_only_oldest<KV, V>(
    e: Seq<(KV, V, u64)>,
    e2: Seq<(KV, V, u64)>,
    k: KV,
    v: V,
    t: u64,
    max: usize,
)
    requires
        unique_keys(e),
        inserted(e, e2, k, v, t, max),
        key_index(e, k) < 0,
        e.len() >= max,
        e.len() > 0,
    ensures
        e2.len() == e.len(),
        exists|o: int|
            is_oldest(e, o) && (forall|j: int| 0 <= j < e.len() && j != o ==> e2.contains(#[trigger] e[j])) && (
            forall|i: int| 0 <= i < e2.len() ==> (#[trigger] e2[i]).0 != e[o].0),
{
    lemma_key_index_bounds(e, k);
    let o = choose|o: int| is_oldest(e, o) && e2 == e.remove(o).push((k, v, t));
    assert forall|j: int| 0 <= j < e.len() && j != o implies e2.contains(#[trigger] e[j]) by {
        let i = if j < o { j } else { j - 1 };
        assert(e2[i] == e[j]);
    }
    assert forall|i: int| 0 <= i < e2.len() implies (#[trigger] e2[i]).0 != e[o].0 by {
        if i < e.len() - 1 {
            let j = if i < o { i } else { i + 1 };
            assert(e2[i] == e[j]);
        } else {
            assert(e2[i] == (k, v, t));
        }
    }
}

} // verus!
