//! Bounded query-embedding cache with FIFO eviction and hit/miss statistics.
//!
//! Entries are kept in insertion order; once the cache holds `capacity`
//! entries, inserting a new query evicts the oldest one. A capacity of zero
//! disables caching.

use vstd::prelude::*;
use crate::text::str_eq;

verus! {

/// Default maximum number of cached query embeddings.
pub const DEFAULT_CAPACITY: usize = 128;

/// Statistics snapshot of a cache.
#[derive(Debug, Clone, Copy, PartialEq, Eq, Structural)]
pub struct CacheStats {
    /// Number of cache hits since creation (or last clear).
    pub hits: u64,
    /// Number of cache misses since creation (or last clear).
    pub misses: u64,
    /// Current number of entries in the cache.
    pub entries: usize,
    /// Maximum capacity before FIFO eviction kicks in.
    pub capacity: usize,
}

/// Abstract state of a cache: keys in insertion order, their values, the
/// capacity and the counters.
pub struct CacheView<V> {
    pub keys: Seq<Seq<char>>,
    pub values: Seq<V>,
    pub capacity: usize,
    pub hits: u64,
    pub misses: u64,
}

/// The keys of a sequence of entries.
pub open spec fn entry_keys<V>(s: Seq<(String, V)>) -> Seq<Seq<char>> {
    s.map_values(|e: (String, V)| e.0@)
}

/// The values of a sequence of entries.
pub open spec fn entry_values<V>(s: Seq<(String, V)>) -> Seq<V> {
    s.map_values(|e: (String, V)| e.1)
}

/// Bounded FIFO cache from query text to embedding.
pub struct CacheState<V> {
    entries: Vec<(String, V)>,
    capacity: usize,
    hits: u64,
    misses: u64,
}

impl<V> View for CacheState<V> {
    type V = CacheView<V>;

    closed spec fn view(&self) -> CacheView<V> {
        CacheView {
            keys: entry_keys(self.entries@),
            values: entry_values(self.entries@),
            capacity: self.capacity,
            hits: self.hits,
            misses: self.misses,
        }
    }
}

/// The keys a cache holds after inserting `key` into `keys` under `capacity`:
/// unchanged when caching is disabled or the key is present; otherwise the
/// key is appended, after evicting the oldest key when the cache is full.
pub open spec fn keys_after_insert(keys: Seq<Seq<char>>, capacity: usize, key: Seq<char>) -> Seq<Seq<char>> {
    if capacity == 0 || keys.contains(key) {
        keys
    } else if keys.len() >= capacity {
        keys.drop_first().push(key)
    } else {
        keys.push(key)
    }
}

/// The values after the same insertion.
pub open spec fn values_after_insert<V>(
    keys: Seq<Seq<char>>,
    values: Seq<V>,
    capacity: usize,
    key: Seq<char>,
    value: V,
) -> Seq<V> {
    if capacity == 0 || keys.contains(key) {
        values
    } else if keys.len() >= capacity {
        values.drop_first().push(value)
    } else {
        values.push(value)
    }
}

impl<V> CacheState<V> {
    #[verifier::type_invariant]
    spec fn well_formed(self) -> bool {
        &&& entry_keys(self.entries@).no_duplicates()
        &&& self.entries@.len() <= self.capacity
    }
}

impl<V: Clone> CacheState<V> {

    /// An empty cache holding at most `capacity` entries.
    pub fn new(capacity: usize) -> (c: Self)
        ensures
            c@.keys == Seq::<Seq<char>>::empty(),
            c@.values == Seq::<V>::empty(),
            c@.capacity == capacity,
            c@.hits == 0,
            c@.misses == 0,
    {
        let c = CacheState { entries: Vec::new(), capacity, hits: 0, misses: 0 };
        assert(entry_keys(c.entries@) =~= Seq::<Seq<char>>::empty());
        assert(entry_values(c.entries@) =~= Seq::<V>::empty());
        c
    }

    fn position(&self, key: &str) -> (r: Option<usize>)
        ensures
            match r {
                Some(i) => i < self@.keys.len() && self@.keys[i as int] == key@,
                None => !self@.keys.contains(key@),
            },
    {
        let ghost keys = entry_keys(self.entries@);
        let mut i: usize = 0;
        while i < self.entries.len()
            invariant
                i <= self.entries@.len(),
                keys == entry_keys(self.entries@),
                forall|j: int| 0 <= j < i ==> keys[j] != key@,
            decreases self.entries@.len() - i,
        {
            assert(keys[i as int] == self.entries@[i as int].0@);
            if str_eq(self.entries[i].0.as_str(), key) {
                return Some(i);
            }
            i = i + 1;
        }
        None
    }

    /// Look `key` up: a hit returns a clone of its value and counts a hit,
    /// a miss counts a miss.
    pub fn get(&mut self, key: &str) -> (r: Option<V>)
        requires
            old(self)@.keys.contains(key@) ==> old(self)@.hits < u64::MAX,
            !old(self)@.keys.contains(key@) ==> old(self)@.misses < u64::MAX,
        ensures
            final(self)@.keys == old(self)@.keys,
            final(self)@.values == old(self)@.values,
            final(self)@.capacity == old(self)@.capacity,
            old(self)@.keys.contains(key@) ==> {
                &&& final(self)@.hits == old(self)@.hits + 1
                &&& final(self)@.misses == old(self)@.misses
                &&& r is Some
                &&& exists|i: int|
                    0 <= i < old(self)@.keys.len() && old(self)@.keys[i] == key@ && cloned(
                        old(self)@.values[i],
                        r->0,
                    )
            },
            !old(self)@.keys.contains(key@) ==> {
                &&& final(self)@.hits == old(self)@.hits
                &&& final(self)@.misses == old(self)@.misses + 1
                &&& r is None
            },
    {
        proof {
            use_type_invariant(&*self);
        }
        match self.position(key) {
            Some(i) => {
                self.hits = self.hits + 1;
                let v = self.entries[i].1.clone();
                assert(entry_values(self.entries@)[i as int] == self.entries@[i as int].1);
                Some(v)
            },
            None => {
                self.misses = self.misses + 1;
                None
            },
        }
    }

    /// Insert `value` for `key`, unless caching is disabled or the key is
    /// already cached; when the cache is full the oldest entry is evicted.
    pub fn insert(&mut self, key: String, value: V)
        ensures
            final(self)@.keys == keys_after_insert(old(self)@.keys, old(self)@.capacity, key@),
            final(self)@.values == values_after_insert(
                old(self)@.keys,
                old(self)@.values,
                old(self)@.capacity,
                key@,
                value,
            ),
            final(self)@.capacity == old(self)@.capacity,
            final(self)@.hits == old(self)@.hits,
            final(self)@.misses == old(self)@.misses,
    {
        proof {
            use_type_invariant(&*self);
        }
        if self.capacity == 0 {
            return;
        }
        if self.position(key.as_str()).is_some() {
            return;
        }
        let ghost k = key@;
        let ghost old_entries = self.entries@;
        let mut entries: Vec<(String, V)> = Vec::new();
        std::mem::swap(&mut entries, &mut self.entries);
        if entries.len() >= self.capacity {
            entries.remove(0);
            proof {
                assert(entry_keys(entries@) =~= entry_keys(old_entries).drop_first());
                assert(entry_values(entries@) =~= entry_values(old_entries).drop_first());
            }
        }
        let ghost mid = entries@;
        entries.push((key, value));
        proof {
            assert(entry_keys(entries@) =~= entry_keys(mid).push(k));
            assert(entry_values(entries@) =~= entry_values(mid).push(value));
            assert(!entry_keys(mid).contains(k)) by {
                if entry_keys(mid).contains(k) {
                    let j = choose|j: int| 0 <= j < entry_keys(mid).len() && entry_keys(mid)[j] == k;
                    if mid.len() < old_entries.len() {
                        assert(entry_keys(old_entries)[j + 1] == k);
                    } else {
                        assert(entry_keys(old_entries)[j] == k);
                    }
                }
            }
            assert(entry_keys(entries@).no_duplicates()) by {
                let ks = entry_keys(entries@);
                assert forall|a: int, b: int| 0 <= a < ks.len() && 0 <= b < ks.len() && a != b implies ks[a]
                    != ks[b] by {
                    if a < mid.len() && b < mid.len() {
                        if mid.len() < old_entries.len() {
                            assert(ks[a] == entry_keys(old_entries)[a + 1]);
                            assert(ks[b] == entry_keys(old_entries)[b + 1]);
                        } else {
                            assert(ks[a] == entry_keys(old_entries)[a]);
                            assert(ks[b] == entry_keys(old_entries)[b]);
                        }
                    } else if a < mid.len() {
                        assert(entry_keys(mid)[a] == ks[a]);
                    } else {
                        assert(entry_keys(mid)[b] == ks[b]);
                    }
                }
            }
        }
        self.entries = entries;
    }

    /// A statistics snapshot.
    pub fn stats(&self) -> (s: CacheStats)
        ensures
            s.hits == self@.hits,
            s.misses == self@.misses,
            s.entries == self@.keys.len(),
            s.capacity == self@.capacity,
    {
        CacheStats { hits: self.hits, misses: self.misses, entries: self.entries.len(), capacity: self.capacity }
    }

    /// Remove every entry and reset the counters.
    pub fn clear(&mut self)
        ensures
            final(self)@.keys == Seq::<Seq<char>>::empty(),
            final(self)@.values == Seq::<V>::empty(),
            final(self)@.capacity == old(self)@.capacity,
            final(self)@.hits == 0,
            final(self)@.misses == 0,
    {
        proof {
            use_type_invariant(&*self);
        }
        self.entries = Vec::new();
        self.hits = 0;
        self.misses = 0;
        assert(entry_keys(self.entries@) =~= Seq::<Seq<char>>::empty());
        assert(entry_values(self.entries@) =~= Seq::<V>::empty());
    }
}

/// The cache never holds more than its capacity, and never a key twice.
pub proof fn law_insert_bounded(keys: Seq<Seq<char>>, capacity: usize, key: Seq<char>)
    requires
        keys.len() <= capacity,
        keys.no_duplicates(),
    ensures
        keys_after_insert(keys, capacity, key).len() <= capacity,
        keys_after_insert(keys, capacity, key).no_duplicates(),
{
    let r = keys_after_insert(keys, capacity, key);
    if !(capacity == 0 || keys.contains(key)) {
        assert forall|a: int, b: int| 0 <= a < r.len() && 0 <= b < r.len() && a != b implies r[a] != r[b] by {
            if keys.len() >= capacity {
                if a < r.len() - 1 && b < r.len() - 1 {
                    assert(r[a] == keys[a + 1] && r[b] == keys[b + 1]);
                } else if a < r.len() - 1 {
                    assert(r[a] == keys[a + 1]);
                } else {
                    assert(r[b] == keys[b + 1]);
                }
            } else {
                if a < r.len() - 1 && b < r.len() - 1 {
                } else if a < r.len() - 1 {
                    assert(r[a] == keys[a]);
                } else {
                    assert(r[b] == keys[b]);
                }
            }
        }
    }
}

/// Eviction is first-in first-out: inserting a new key into a full cache
/// drops exactly the oldest key and keeps the others in order.
pub proof fn law_fifo_eviction(keys: Seq<Seq<char>>, capacity: usize, key: Seq<char>)
    requires
        capacity > 0,
        keys.len() == capacity,
        keys.no_duplicates(),
        !keys.contains(key),
    ensures
        keys_after_insert(keys, capacity, key) == keys.drop_first().push(key),
        !keys_after_insert(keys, capacity, key).contains(keys[0]),
{
    let r = keys_after_insert(keys, capacity, key);
    if r.contains(keys[0]) {
        let j = choose|j: int| 0 <= j < r.len() && r[j] == keys[0];
        if j < r.len() - 1 {
            assert(r[j] == keys[j + 1]);
        } else {
            assert(keys.contains(key));
        }
    }
}

} // verus!
