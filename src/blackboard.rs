//! Shared key/value store with expiry (TTL), least-recently-used eviction
//! and retrieval of the entries that have an embedding.

use vstd::prelude::*;
use crate::memory::{BlackboardEntry, BlackboardStats, expired_at, same_bb_entry};
use crate::mailbox::{sat_add, sat_inc};

verus! {

/// The entry has not expired at time `now`.
pub open spec fn live_at(now: i64) -> spec_fn(BlackboardEntry) -> bool {
    |e: BlackboardEntry| !expired_at(e, now)
}

/// Position `i` holds the least recently used entry of `s`: the smallest
/// access time, and the first such.
pub open spec fn is_lru(s: Seq<BlackboardEntry>, i: int) -> bool {
    &&& 0 <= i < s.len()
    &&& forall|j: int| 0 <= j < s.len() ==> (#[trigger] s[j]).last_accessed >= s[i].last_accessed
    &&& forall|j: int| 0 <= j < i ==> (#[trigger] s[j]).last_accessed > s[i].last_accessed
}

/// Position of the entry with key `k` in `s`.
pub open spec fn key_at(s: Seq<BlackboardEntry>, k: Seq<char>, i: int) -> bool {
    0 <= i < s.len() && s[i].key@ == k
}

/// Some entry of `s` has key `k`.
pub open spec fn has_key(s: Seq<BlackboardEntry>, k: Seq<char>) -> bool {
    exists|i: int| #[trigger] key_at(s, k, i)
}

/// No two entries of `s` share a key.
pub open spec fn keys_unique(s: Seq<BlackboardEntry>) -> bool {
    forall|i: int, j: int|
        0 <= i < s.len() && 0 <= j < s.len() && i != j ==> (#[trigger] s[i]).key@ != (
        #[trigger] s[j]).key@
}

/// `e` after an access at time `now`.
pub open spec fn touched(e: BlackboardEntry, now: i64) -> BlackboardEntry {
    BlackboardEntry { last_accessed: now, access_count: sat_inc(e.access_count), ..e }
}

/// What a put of `e` at time `now` makes of the entries `s`, once the
/// expired entries are gone (`live`) and, for a new key when the store is
/// full, the least recently used entry is evicted.
pub open spec fn put_result(
    live: Seq<BlackboardEntry>,
    e: BlackboardEntry,
    now: i64,
    max: nat,
) -> Seq<BlackboardEntry> {
    if has_key(live, e.key@) {
        live.update(choose|i: int| key_at(live, e.key@, i), touched(e, now))
    } else if live.len() >= max && live.len() > 0 {
        live.remove(choose|i: int| is_lru(live, i)).push(touched(e, now))
    } else {
        live.push(touched(e, now))
    }
}

/// A put of `e` into the live entries `live` of a store of at most `max`
/// entries evicts one: the key is new and the store is full.
pub open spec fn evicts(live: Seq<BlackboardEntry>, e: BlackboardEntry, max: nat) -> bool {
    !has_key(live, e.key@) && live.len() >= max && live.len() > 0
}

/// Shared store of entries with unique keys, bounded by a maximum count.
pub struct Blackboard {
    entries: Vec<BlackboardEntry>,
    max_entries: usize,
    stats: BlackboardStats,
}

impl View for Blackboard {
    type V = Seq<BlackboardEntry>;

    /// The entries, in insertion order.
    closed spec fn view(&self) -> Seq<BlackboardEntry> {
        self.entries@
    }
}

impl Blackboard {
    /// Internal consistency: keys are unique, the count is within the bound
    /// (one entry is always admitted), and the statistics count the entries.
    pub closed spec fn wf(&self) -> bool {
        &&& keys_unique(self.entries@)
        &&& self.entries@.len() <= if self.max_entries == 0 {
            1
        } else {
            self.max_entries as int
        }
        &&& self.stats.total_entries == self.entries@.len()
    }

    /// The maximum number of entries.
    pub closed spec fn max(&self) -> usize {
        self.max_entries
    }

    /// The statistics.
    pub closed spec fn statistics(&self) -> BlackboardStats {
        self.stats
    }

    /// An empty blackboard holding at most `max_entries` entries.
    pub fn new(max_entries: usize) -> (r: Blackboard)
        ensures
            r.wf(),
            keys_unique(r@),
            r@ == Seq::<BlackboardEntry>::empty(),
            r.max() == max_entries,
            r.statistics() == (BlackboardStats {
                total_entries: 0,
                expired_entries: 0,
                total_accesses: 0,
                eviction_count: 0,
                hit_count: 0,
                miss_count: 0,
                recall_count: 0,
                avg_recall_latency_ms: 0,
            }),
    {
        Blackboard {
            entries: Vec::new(),
            max_entries,
            stats: BlackboardStats {
                total_entries: 0,
                expired_entries: 0,
                total_accesses: 0,
                eviction_count: 0,
                hit_count: 0,
                miss_count: 0,
                recall_count: 0,
                avg_recall_latency_ms: 0,
            },
        }
    }

    /// Position of the entry with key `key`.
    fn find(&self, key: &str) -> (r: Option<usize>)
        ensures
            r is None <==> !has_key(self@, key@),
            r is Some ==> key_at(self@, key@, r->0 as int),
    {
        let wanted = String::from_str(key);
        let mut i: usize = 0;
        while i < self.entries.len()
            invariant
                i <= self.entries@.len(),
                wanted@ == key@,
                forall|j: int| 0 <= j < i ==> (#[trigger] self.entries@[j]).key@ != key@,
            decreases self.entries@.len() - i,
        {
            if self.entries[i].key.eq(&wanted) {
                assert(key_at(self@, key@, i as int));
                return Some(i);
            }
            i = i + 1;
        }
        proof {
            if has_key(self@, key@) {
                let j = choose|j: int| key_at(self@, key@, j);
                assert(self.entries@[j].key@ != key@);
            }
        }
        None
    }

    /// Removes the entries that have expired at `now`, counting them.
    fn cleanup_expired(&mut self, now: i64)
        requires
            old(self).wf(),
        ensures
            final(self).wf(),
            keys_unique(final(self)@),
            final(self)@ == old(self)@.filter(live_at(now)),
            final(self).max() == old(self).max(),
            final(self).statistics() == (BlackboardStats {
                total_entries: final(self)@.len() as usize,
                expired_entries: final(self).statistics().expired_entries,
                ..old(self).statistics()
            }),
    {
        let ghost orig = self.entries@;
        let total_len = self.entries.len();
        let mut rest: Vec<BlackboardEntry> = Vec::new();
        std::mem::swap(&mut rest, &mut self.entries);
        let mut removed: usize = 0;
        let ghost mut k: int = 0;
        while rest.len() > 0
            invariant
                0 <= k <= orig.len(),
                orig.len() == total_len,
                rest@ == orig.subrange(k, orig.len() as int),
                self.entries@ == orig.subrange(0, k).filter(live_at(now)),
                self.entries@.len() + removed == k,
                self.max_entries == old(self).max_entries,
                self.stats == old(self).stats,
            decreases rest@.len(),
        {
            let ghost before = rest@;
            let e = rest.remove(0);
            proof {
                assert(orig.subrange(0, k + 1) =~= orig.subrange(0, k).push(e));
                orig.subrange(0, k).lemma_filter_push(e, live_at(now));
                assert(rest@ =~= orig.subrange(k + 1, orig.len() as int));
                k = k + 1;
            }
            if e.is_expired_at(now) {
                removed = removed + 1;
            } else {
                self.entries.push(e);
            }
        }
        proof {
            assert(orig.subrange(0, k) =~= orig);
            let live = orig.filter(live_at(now));
            assert forall|i: int, j: int|
                0 <= i < live.len() && 0 <= j < live.len() && i != j implies (#[trigger] live[i]).key@
                    != (#[trigger] live[j]).key@ by {
                lemma_filter_unique(orig, live_at(now));
            }
            orig.lemma_filter_len(live_at(now));
        }
        let n = removed;
        if self.stats.expired_entries as u128 + n as u128 <= usize::MAX as u128 {
            self.stats.expired_entries = self.stats.expired_entries + n;
        } else {
            self.stats.expired_entries = usize::MAX;
        }
        self.stats.total_entries = self.entries.len();
    }

    /// Position of the least recently used entry; requires an entry.
    fn lru_index(&self) -> (r: usize)
        requires
            self@.len() > 0,
        ensures
            is_lru(self@, r as int),
    {
        let mut best: usize = 0;
        let mut i: usize = 1;
        while i < self.entries.len()
            invariant
                1 <= i <= self.entries@.len(),
                best < i,
                forall|j: int|
                    0 <= j < i ==> (#[trigger] self.entries@[j]).last_accessed
                        >= self.entries@[best as int].last_accessed,
                forall|j: int|
                    0 <= j < best ==> (#[trigger] self.entries@[j]).last_accessed
                        > self.entries@[best as int].last_accessed,
            decreases self.entries@.len() - i,
        {
            if self.entries[i].last_accessed < self.entries[best].last_accessed {
                best = i;
            }
            i = i + 1;
        }
        best
    }

    /// Stores `entry` at time `now`: the entry is touched, expired entries are
    /// purged, and when its key is new and the store is full the least
    /// recently used entry is evicted; an entry with the same key is
    /// replaced in place.
    pub fn put_at(&mut self, entry: BlackboardEntry, now: i64)
        requires
            old(self).wf(),
        ensures
            final(self).wf(),
            keys_unique(final(self)@),
            final(self).max() == old(self).max(),
            final(self)@ == put_result(
                old(self)@.filter(live_at(now)),
                entry,
                now,
                old(self).max() as nat,
            ),
            final(self).statistics().eviction_count == if evicts(
                old(self)@.filter(live_at(now)),
                entry,
                old(self).max() as nat,
            ) {
                sat_inc(old(self).statistics().eviction_count)
            } else {
                old(self).statistics().eviction_count
            },
            final(self)@.len() <= if old(self).max() == 0 {
                1
            } else {
                old(self).max() as int
            },
            final(self).statistics().hit_count == old(self).statistics().hit_count,
            final(self).statistics().miss_count == old(self).statistics().miss_count,
    {
        let ghost given = entry;
        let mut stored = entry;
        stored.touch_at(now);
        self.cleanup_expired(now);
        let ghost live = self.entries@;
        let ghost mut w: int = 0;
        match self.find(stored.key.as_str()) {
            Some(i) => {
                let ghost t = stored;
                self.entries.set(i, stored);
                proof {
                    let c = choose|c: int| key_at(live, t.key@, c);
                    assert(c == i as int);
                    assert(keys_unique(self.entries@)) by {
                        assert forall|a: int, b: int|
                            0 <= a < self.entries@.len() && 0 <= b < self.entries@.len() && a != b
                                implies (#[trigger] self.entries@[a]).key@ != (
                            #[trigger] self.entries@[b]).key@ by {
                            assert(live[a].key@ != live[b].key@);
                        }
                    }
                    assert(put_result(live, given, now, old(self).max() as nat) =~= self.entries@);
                }
            },
            None => {
                let mut lru: usize = 0;
                if self.entries.len() >= self.max_entries && self.entries.len() > 0 {
                    lru = self.lru_index();
                    self.entries.remove(lru);
                    if self.stats.eviction_count < u64::MAX {
                        self.stats.eviction_count = self.stats.eviction_count + 1;
                    }
                }
                proof {
                    w = lru as int;
                }
                let ghost mid = self.entries@;
                let ghost t = stored;
                self.entries.push(stored);
                proof {
                    assert forall|a: int, b: int|
                        0 <= a < self.entries@.len() && 0 <= b < self.entries@.len() && a != b
                            implies (#[trigger] self.entries@[a]).key@ != (
                        #[trigger] self.entries@[b]).key@ by {
                        if a < mid.len() && b < mid.len() {
                            if live.len() >= old(self).max_entries && live.len() > 0 {
                                let a2 = if a < lru { a } else { a + 1 };
                                let b2 = if b < lru { b } else { b + 1 };
                                assert(mid[a] == live[a2]);
                                assert(mid[b] == live[b2]);
                            }
                        } else if a < mid.len() {
                            let a2 = if live.len() >= old(self).max_entries && live.len() > 0 && a >= lru { a + 1 } else { a };
                            assert(mid[a] == live[a2]);
                            assert(!key_at(live, t.key@, a2));
                        } else if b < mid.len() {
                            let b2 = if live.len() >= old(self).max_entries && live.len() > 0 && b >= lru { b + 1 } else { b };
                            assert(mid[b] == live[b2]);
                            assert(!key_at(live, t.key@, b2));
                        }
                    }
                    if live.len() >= old(self).max_entries && live.len() > 0 {
                        let c = choose|i: int| is_lru(live, i);
                        lemma_lru_unique(live, c, lru as int);
                    }
                    assert(put_result(live, given, now, old(self).max() as nat) =~= self.entries@);
                }
            },
        }
        self.stats.total_entries = self.entries.len();
        proof {
            if !has_key(live, given.key@) && live.len() >= old(self).max() && live.len() > 0 {
                let c = choose|i: int| is_lru(live, i);
                lemma_lru_unique(live, c, w);
            }
        }
    }

    /// Stores `entry` now; see `put_at`.
    pub fn put(&mut self, entry: BlackboardEntry)
        requires
            old(self).wf(),
        ensures
            final(self).wf(),
            keys_unique(final(self)@),
            final(self).max() == old(self).max(),
            final(self)@.len() <= if old(self).max() == 0 {
                1
            } else {
                old(self).max() as int
            },
            has_key(final(self)@, entry.key@),
            exists|now: i64|
                final(self)@ == put_result(
                    #[trigger] old(self)@.filter(live_at(now)),
                    entry,
                    now,
                    old(self).max() as nat,
                ) && final(self).statistics().eviction_count == if evicts(
                    old(self)@.filter(live_at(now)),
                    entry,
                    old(self).max() as nat,
                ) {
                    sat_inc(old(self).statistics().eviction_count)
                } else {
                    old(self).statistics().eviction_count
                },
    {
        let now = crate::sources::now_millis();
        self.put_at(entry, now);
        proof {
            let live = old(self)@.filter(live_at(now));
            let t = touched(entry, now);
            if has_key(live, entry.key@) {
                let c = choose|c: int| key_at(live, entry.key@, c);
                assert(key_at(self@, entry.key@, c));
            } else {
                assert(key_at(self@, entry.key@, self@.len() - 1));
            }
        }
    }
}

impl Blackboard {
    /// Looks `key` up at time `now`. An absent key is a miss. An expired
    /// entry is removed, counted as expired and as a miss. Otherwise the
    /// entry is touched, counted as a hit, and a copy is returned.
    pub fn get_at(&mut self, key: &str, now: i64) -> (r: Option<BlackboardEntry>)
        requires
            old(self).wf(),
        ensures
            final(self).wf(),
            keys_unique(final(self)@),
            final(self).max() == old(self).max(),
            final(self)@ == get_state(old(self)@, key@, now),
            match (r, get_result(old(self)@, key@, now)) {
                (None, None) => true,
                (Some(x), Some(y)) => same_bb_entry(x, y),
                _ => false,
            },
            r is Some ==> final(self).statistics().hit_count == sat_inc(
                old(self).statistics().hit_count,
            ) && final(self).statistics().miss_count == old(self).statistics().miss_count,
            r is None ==> final(self).statistics().miss_count == sat_inc(
                old(self).statistics().miss_count,
            ) && final(self).statistics().hit_count == old(self).statistics().hit_count,
    {
        match self.find(key) {
            None => {
                if self.stats.miss_count < u64::MAX {
                    self.stats.miss_count = self.stats.miss_count + 1;
                }
                None
            },
            Some(i) => {
                proof {
                    lemma_key_at_unique(self@, key@, i as int);
                }
                if self.entries[i].is_expired_at(now) {
                    let ghost before = self.entries@;
                    self.entries.remove(i);
                    proof {
                        assert forall|a: int, b: int|
                            0 <= a < self.entries@.len() && 0 <= b < self.entries@.len() && a != b
                                implies (#[trigger] self.entries@[a]).key@ != (
                            #[trigger] self.entries@[b]).key@ by {
                            let a2 = if a < i { a } else { a + 1 };
                            let b2 = if b < i { b } else { b + 1 };
                            assert(self.entries@[a] == before[a2]);
                            assert(self.entries@[b] == before[b2]);
                        }
                    }
                    self.stats.total_entries = self.entries.len();
                    if self.stats.expired_entries < usize::MAX {
                        self.stats.expired_entries = self.stats.expired_entries + 1;
                    }
                    if self.stats.miss_count < u64::MAX {
                        self.stats.miss_count = self.stats.miss_count + 1;
                    }
                    None
                } else {
                    let ghost before = self.entries@;
                    let mut e = self.entries.remove(i);
                    e.touch_at(now);
                    let copy = e.duplicate();
                    self.entries.insert(i, e);
                    proof {
                        assert(self.entries@ =~= before.update(i as int, touched(before[i as int], now)));
                        assert forall|a: int, b: int|
                            0 <= a < self.entries@.len() && 0 <= b < self.entries@.len() && a != b
                                implies (#[trigger] self.entries@[a]).key@ != (
                            #[trigger] self.entries@[b]).key@ by {
                            assert(before[a].key@ != before[b].key@);
                        }
                    }
                    if self.stats.hit_count < u64::MAX {
                        self.stats.hit_count = self.stats.hit_count + 1;
                    }
                    if self.stats.total_accesses < u64::MAX {
                        self.stats.total_accesses = self.stats.total_accesses + 1;
                    }
                    Some(copy)
                }
            },
        }
    }

    /// Looks `key` up now; see `get_at`.
    pub fn get(&mut self, key: &str) -> (r: Option<BlackboardEntry>)
        requires
            old(self).wf(),
        ensures
            final(self).wf(),
            keys_unique(final(self)@),
            final(self).max() == old(self).max(),
            r is Some ==> has_key(old(self)@, key@) && r->0.key@ == key@,
            !has_key(old(self)@, key@) ==> r is None && final(self)@ == old(self)@,
            r is Some ==> final(self).statistics().hit_count == sat_inc(old(self).statistics().hit_count)
                && final(self).statistics().miss_count == old(self).statistics().miss_count,
            r is None ==> final(self).statistics().miss_count == sat_inc(old(self).statistics().miss_count)
                && final(self).statistics().hit_count == old(self).statistics().hit_count,
            exists|now: i64|
                final(self)@ == #[trigger] get_state(old(self)@, key@, now) && match (
                    r,
                    get_result(old(self)@, key@, now),
                ) {
                    (None, None) => true,
                    (Some(x), Some(y)) => same_bb_entry(x, y),
                    _ => false,
                },
    {
        let now = crate::sources::now_millis();
        let r = self.get_at(key, now);
        proof {
            if has_key(old(self)@, key@) {
                let i = choose|i: int| key_at(old(self)@, key@, i);
            }
        }
        r
    }

    /// Removes the entry with key `key`; says whether there was one.
    pub fn remove(&mut self, key: &str) -> (r: bool)
        requires
            old(self).wf(),
        ensures
            final(self).wf(),
            keys_unique(final(self)@),
            final(self).max() == old(self).max(),
            r == has_key(old(self)@, key@),
            r ==> final(self)@ == old(self)@.remove(choose|i: int| key_at(old(self)@, key@, i)),
            !r ==> final(self)@ == old(self)@,
            !has_key(final(self)@, key@),
    {
        match self.find(key) {
            None => false,
            Some(i) => {
                proof {
                    lemma_key_at_unique(self@, key@, i as int);
                }
                let ghost before = self.entries@;
                self.entries.remove(i);
                proof {
                    assert forall|a: int, b: int|
                        0 <= a < self.entries@.len() && 0 <= b < self.entries@.len() && a != b
                            implies (#[trigger] self.entries@[a]).key@ != (
                        #[trigger] self.entries@[b]).key@ by {
                        let a2 = if a < i { a } else { a + 1 };
                        let b2 = if b < i { b } else { b + 1 };
                        assert(self.entries@[a] == before[a2]);
                        assert(self.entries@[b] == before[b2]);
                    }
                    if has_key(self@, key@) {
                        let j = choose|j: int| key_at(self@, key@, j);
                        let j2 = if j < i { j } else { j + 1 };
                        assert(self.entries@[j] == before[j2]);
                    }
                }
                self.stats.total_entries = self.entries.len();
                true
            },
        }
    }

    /// Copies of all keys, in the entries' order.
    pub fn keys(&self) -> (r: Vec<String>)
        ensures
            r@.len() == self@.len(),
            forall|i: int| 0 <= i < r@.len() ==> #[trigger] r@[i]@ == self@[i].key@,
    {
        let mut r: Vec<String> = Vec::new();
        let mut i: usize = 0;
        while i < self.entries.len()
            invariant
                i <= self.entries@.len(),
                r@.len() == i,
                forall|j: int| 0 <= j < i ==> #[trigger] r@[j]@ == self.entries@[j].key@,
            decreases self.entries@.len() - i,
        {
            r.push(self.entries[i].key.clone());
            i = i + 1;
        }
        r
    }

    /// Copies of all entries.
    pub fn get_all(&self) -> (r: Vec<BlackboardEntry>)
        ensures
            r@.len() == self@.len(),
            forall|i: int| 0 <= i < r@.len() ==> same_bb_entry(#[trigger] r@[i], self@[i]),
    {
        let mut r: Vec<BlackboardEntry> = Vec::new();
        let mut i: usize = 0;
        while i < self.entries.len()
            invariant
                i <= self.entries@.len(),
                r@.len() == i,
                forall|j: int| 0 <= j < i ==> same_bb_entry(#[trigger] r@[j], self.entries@[j]),
            decreases self.entries@.len() - i,
        {
            r.push(self.entries[i].duplicate());
            i = i + 1;
        }
        r
    }

    /// Copies of the entries that can take part in a recall at time `now`:
    /// those that have not expired and have an embedding, in the entries'
    /// order.
    pub fn recall_candidates_at(&self, now: i64) -> (r: Vec<BlackboardEntry>)
        ensures
            r@.len() == self@.filter(recallable_at(now)).len(),
            forall|i: int|
                0 <= i < r@.len() ==> same_bb_entry(
                    #[trigger] r@[i],
                    self@.filter(recallable_at(now))[i],
                ),
    {
        let mut r: Vec<BlackboardEntry> = Vec::new();
        let mut i: usize = 0;
        while i < self.entries.len()
            invariant
                i <= self.entries@.len(),
                r@.len() == self.entries@.subrange(0, i as int).filter(recallable_at(now)).len(),
                forall|j: int|
                    0 <= j < r@.len() ==> same_bb_entry(
                        #[trigger] r@[j],
                        self.entries@.subrange(0, i as int).filter(recallable_at(now))[j],
                    ),
            decreases self.entries@.len() - i,
        {
            let e = &self.entries[i];
            proof {
                assert(self.entries@.subrange(0, i + 1) =~= self.entries@.subrange(0, i as int).push(
                    self.entries@[i as int],
                ));
                self.entries@.subrange(0, i as int).lemma_filter_push(
                    self.entries@[i as int],
                    recallable_at(now),
                );
            }
            if !e.is_expired_at(now) && e.embedding.is_some() {
                r.push(e.duplicate());
            }
            i = i + 1;
        }
        assert(self.entries@.subrange(0, i as int) =~= self.entries@);
        r
    }

    /// Folds the latency of one recall, in milliseconds, into the running
    /// mean: `avg <- (avg * (n - 1) + sample) / n`, with `n` the number of
    /// recalls so far, rounded down.
    pub fn record_recall_latency(&mut self, sample_ms: u64)
        requires
            old(self).wf(),
        ensures
            final(self).wf(),
            keys_unique(final(self)@),
            final(self)@ == old(self)@,
            final(self).max() == old(self).max(),
            final(self).statistics().recall_count == sat_inc(old(self).statistics().recall_count),
            final(self).statistics().avg_recall_latency_ms == running_mean(
                old(self).statistics().avg_recall_latency_ms,
                sat_inc(old(self).statistics().recall_count),
                sample_ms,
            ),
    {
        if self.stats.recall_count < u64::MAX {
            self.stats.recall_count = self.stats.recall_count + 1;
        }
        self.stats.avg_recall_latency_ms = mean_step(
            self.stats.avg_recall_latency_ms,
            self.stats.recall_count,
            sample_ms,
        );
    }

    /// Removes every entry.
    pub fn clear(&mut self)
        requires
            old(self).wf(),
        ensures
            final(self).wf(),
            keys_unique(final(self)@),
            final(self)@ == Seq::<BlackboardEntry>::empty(),
            final(self).max() == old(self).max(),
            final(self).statistics() == (BlackboardStats {
                total_entries: 0,
                ..old(self).statistics()
            }),
    {
        self.entries.clear();
        self.stats.total_entries = 0;
    }

    /// Current statistics.
    pub fn stats(&self) -> (r: BlackboardStats)
        requires
            self.wf(),
        ensures
            r == self.statistics(),
            r.total_entries == self@.len(),
    {
        self.stats
    }
}

/// The entry can take part in a recall at time `now`: it has not expired and
/// has an embedding.
pub open spec fn recallable_at(now: i64) -> spec_fn(BlackboardEntry) -> bool {
    |e: BlackboardEntry| !expired_at(e, now) && e.embedding is Some
}

/// What a lookup of `k` at time `now` returns from the entries `s`.
pub open spec fn get_result(s: Seq<BlackboardEntry>, k: Seq<char>, now: i64) -> Option<
    BlackboardEntry,
> {
    if has_key(s, k) {
        let i = choose|i: int| key_at(s, k, i);
        if expired_at(s[i], now) {
            None
        } else {
            Some(touched(s[i], now))
        }
    } else {
        None
    }
}

/// The entries after a lookup of `k` at time `now`.
pub open spec fn get_state(s: Seq<BlackboardEntry>, k: Seq<char>, now: i64) -> Seq<
    BlackboardEntry,
> {
    if has_key(s, k) {
        let i = choose|i: int| key_at(s, k, i);
        if expired_at(s[i], now) {
            s.remove(i)
        } else {
            s.update(i, touched(s[i], now))
        }
    } else {
        s
    }
}

/// The running mean after folding `sample` in as the `n`-th value (rounded
/// down; `n == 0` gives the sample).
pub open spec fn running_mean(avg: u64, n: u64, sample: u64) -> u64 {
    if n == 0 {
        sample
    } else {
        ((avg * (n - 1) + sample) / (n as int)) as u64
    }
}

/// One step of a running mean; see `running_mean`.
pub fn mean_step(avg: u64, n: u64, sample: u64) -> (r: u64)
    ensures
        r == running_mean(avg, n, sample),
{
    if n == 0 {
        return sample;
    }
    proof {
        let a = avg as int;
        let m = n as int;
        assert(a * (m - 1) <= u64::MAX * u64::MAX) by (nonlinear_arith)
            requires 0 <= a <= u64::MAX, 1 <= m <= u64::MAX;
    }
    let total: u128 = avg as u128 * (n - 1) as u128 + sample as u128;
    let q = total / n as u128;
    proof {
        let a = avg as int;
        let m = n as int;
        let t = total as int;
        assert(t / m <= u64::MAX) by (nonlinear_arith)
            requires 0 <= a <= u64::MAX, 1 <= m <= u64::MAX, t == a * (m - 1) + sample as int,
                0 <= sample <= u64::MAX;
    }
    q as u64
}

/// A non-empty sequence has a least recently used entry.
pub proof fn lemma_lru_exists(s: Seq<BlackboardEntry>)
    ensures
        s.len() > 0 ==> exists|i: int| is_lru(s, i),
    decreases s.len(),
{
    if s.len() > 1 {
        let init = s.drop_last();
        lemma_lru_exists(init);
        let i = choose|i: int| is_lru(init, i);
        let n = s.len() - 1;
        if s[n].last_accessed < s[i].last_accessed {
            assert forall|j: int| 0 <= j < n implies (#[trigger] s[j]).last_accessed > s[n].last_accessed by {
                assert(init[j] == s[j]);
            }
            assert(is_lru(s, n));
        } else {
            assert forall|j: int| 0 <= j < s.len() implies (#[trigger] s[j]).last_accessed >= s[i].last_accessed by {
                if j < n {
                    assert(init[j] == s[j]);
                }
            }
            assert forall|j: int| 0 <= j < i implies (#[trigger] s[j]).last_accessed > s[i].last_accessed by {
                assert(init[j] == s[j]);
            }
            assert(is_lru(s, i));
        }
    } else if s.len() == 1 {
        assert(is_lru(s, 0));
    }
}

/// A key occurs at one position at most.
pub proof fn lemma_key_at_unique(s: Seq<BlackboardEntry>, k: Seq<char>, i: int)
    requires
        keys_unique(s),
        key_at(s, k, i),
    ensures
        (choose|j: int| key_at(s, k, j)) == i,
{
    let j = choose|j: int| key_at(s, k, j);
    if j != i {
        assert(s[i].key@ != s[j].key@);
    }
}

/// Storing an entry and then looking its key up, at a time at which it has
/// not expired, returns the stored value, touched by both calls.
pub proof fn lemma_put_then_get(
    s: Seq<BlackboardEntry>,
    e: BlackboardEntry,
    put_time: i64,
    get_time: i64,
    max: nat,
)
    requires
        keys_unique(s),
        !expired_at(e, get_time),
    ensures
        get_result(put_result(s.filter(live_at(put_time)), e, put_time, max), e.key@, get_time)
            == Some(touched(touched(e, put_time), get_time)),
{
    let live = s.filter(live_at(put_time));
    lemma_filter_unique(s, live_at(put_time));
    let after = put_result(live, e, put_time, max);
    let t = touched(e, put_time);
    if has_key(live, e.key@) {
        let c = choose|i: int| key_at(live, e.key@, i);
        assert(key_at(after, e.key@, c));
        assert forall|a: int, b: int|
            0 <= a < after.len() && 0 <= b < after.len() && a != b implies (#[trigger] after[a]).key@
                != (#[trigger] after[b]).key@ by {
            assert(live[a].key@ != live[b].key@);
        }
        lemma_key_at_unique(after, e.key@, c);
    } else {
        let n = after.len() - 1;
        assert(key_at(after, e.key@, n));
        lemma_lru_exists(live);
        let base = if live.len() >= max && live.len() > 0 {
            live.remove(choose|i: int| is_lru(live, i))
        } else {
            live
        };
        assert(after == base.push(t));
        assert forall|a: int| 0 <= a < base.len() implies (#[trigger] base[a]).key@ != e.key@ by {
            if live.len() >= max && live.len() > 0 {
                let l = choose|i: int| is_lru(live, i);
                let a2 = if a < l { a } else { a + 1 };
                assert(base[a] == live[a2]);
                assert(!key_at(live, e.key@, a2));
            } else {
                assert(!key_at(live, e.key@, a));
            }
        }
        let j = choose|j: int| key_at(after, e.key@, j);
        if j != n {
            assert(after[j] == base[j]);
        }
    }
}

/// Once a lookup finds an entry expired, the entry is gone: a later lookup
/// of the same key at any time returns nothing.
pub proof fn lemma_expired_not_resurrected(
    s: Seq<BlackboardEntry>,
    k: Seq<char>,
    now: i64,
    later: i64,
)
    requires
        keys_unique(s),
        has_key(s, k),
        expired_at(s[choose|i: int| key_at(s, k, i)], now),
    ensures
        get_result(get_state(s, k, now), k, later) is None,
{
    let i = choose|i: int| key_at(s, k, i);
    let t = s.remove(i);
    if has_key(t, k) {
        let j = choose|j: int| key_at(t, k, j);
        let j2 = if j < i { j } else { j + 1 };
        assert(t[j] == s[j2]);
        assert(s[j2].key@ != s[i].key@);
    }
}

/// At most one position holds the least recently used entry.
pub proof fn lemma_lru_unique(s: Seq<BlackboardEntry>, i: int, j: int)
    requires
        is_lru(s, i),
        is_lru(s, j),
    ensures
        i == j,
{
    if i < j {
        assert(s[i].last_accessed > s[j].last_accessed);
    } else if j < i {
        assert(s[j].last_accessed > s[i].last_accessed);
    }
}

/// Filtering keeps keys unique.
pub proof fn lemma_filter_unique(s: Seq<BlackboardEntry>, p: spec_fn(BlackboardEntry) -> bool)
    requires
        keys_unique(s),
    ensures
        keys_unique(s.filter(p)),
    decreases s.len(),
{
    reveal(Seq::filter);
    if s.len() > 0 {
        let init = s.drop_last();
        assert(keys_unique(init));
        lemma_filter_unique(init, p);
        if p(s.last()) {
            let f = init.filter(p);
            assert forall|j: int| 0 <= j < f.len() implies (#[trigger] f[j]).key@ != s.last().key@ by {
                init.lemma_filter_contains_rev(p, f[j]);
                init.filter_lemma(p);
                let k = choose|k: int| 0 <= k < init.len() && init[k] == f[j];
                assert(s[k] == init[k]);
            }
        }
    }
}

} // verus!

verus! {

/// `r` ranks the first `k` of `keys`: distinct positions, keys not
/// increasing along `r`, and no position left out has a larger key than one
/// taken.
pub open spec fn ranks_top(keys: Seq<u32>, k: nat, r: Seq<usize>) -> bool {
    &&& r.len() == if k < keys.len() { k } else { keys.len() }
    &&& forall|i: int| 0 <= i < r.len() ==> (#[trigger] r[i]) < keys.len()
    &&& forall|i: int, j: int| 0 <= i < j < r.len() ==> r[i] != r[j] && keys[r[i] as int] >= keys[r[j] as int]
    &&& forall|p: int, i: int|
        #![trigger keys[p], r[i]]
        0 <= p < keys.len() && 0 <= i < r.len() && !r.contains(p as usize) ==> keys[p] <= keys[
            r[i] as int]
}

/// Positions of the `top_k` largest of `keys`, largest first (among equal
/// keys, the earlier position first).
pub fn rank_top_k(keys: &Vec<u32>, top_k: usize) -> (r: Vec<usize>)
    ensures
        ranks_top(keys@, top_k as nat, r@),
{
    let n = keys.len();
    let want = if top_k < n {
        top_k
    } else {
        n
    };
    let mut taken: Vec<bool> = Vec::new();
    let mut i: usize = 0;
    while i < n
        invariant
            n == keys@.len(),
            i <= n,
            taken@.len() == i,
            forall|j: int| 0 <= j < i ==> !(#[trigger] taken@[j]),
        decreases n - i,
    {
        taken.push(false);
        i = i + 1;
    }
    let mut r: Vec<usize> = Vec::new();
    while r.len() < want
        invariant
            n == keys@.len(),
            want <= n,
            want == if top_k < n { top_k } else { n },
            taken@.len() == n,
            r@.len() <= want,
            forall|p: int| 0 <= p < n ==> (#[trigger] taken@[p] <==> r@.contains(p as usize)),
            forall|a: int| 0 <= a < r@.len() ==> (#[trigger] r@[a]) < n,
            forall|a: int, b: int| 0 <= a < b < r@.len() ==> r@[a] != r@[b] && keys@[r@[a] as int] >= keys@[r@[b] as int],
            forall|p: int, a: int|
                #![trigger keys@[p], r@[a]]
                0 <= p < n && 0 <= a < r@.len() && !r@.contains(p as usize) ==> keys@[p] <= keys@[
                    r@[a] as int],
        decreases want - r@.len(),
    {
        proof {
            if forall|p: int| 0 <= p < n ==> #[trigger] taken@[p] {
                let s = Set::new(|x: usize| (x as int) < n);
                assert forall|x: usize| #[trigger] s.contains(x) implies r@.to_set().contains(x) by {
                    assert(taken@[x as int]);
                    assert(r@.contains(x));
                }
                assert(r@.to_set().len() <= r@.len()) by {
                    r@.lemma_cardinality_of_set();
                }
                assert(s.subset_of(r@.to_set()));
                lemma_usize_range_len(n as nat);
                vstd::set_lib::lemma_len_subset(s, r@.to_set());
            }
        }
        let mut best: usize = n;
        let mut p: usize = 0;
        while p < n
            invariant
                n == keys@.len(),
                taken@.len() == n,
                p <= n,
                best == n || (best < p && !taken@[best as int]),
                forall|q: int| 0 <= q < p && !(#[trigger] taken@[q]) ==> best < n && keys@[q] <= keys@[best as int],
                forall|q: int| 0 <= q < p && !(#[trigger] taken@[q]) ==> best != n,
            decreases n - p,
        {
            if !taken[p] && (best == n || keys[p] > keys[best]) {
                best = p;
            }
            p = p + 1;
        }
        proof {
            let w = choose|w: int| 0 <= w < n && !(#[trigger] taken@[w]);
            assert(!taken@[w]);
        }
        let ghost before = r@;
        taken.set(best, true);
        r.push(best);
        proof {
            assert(!before.contains(best));
            assert forall|q: int| 0 <= q < n implies (#[trigger] taken@[q] <==> r@.contains(q as usize)) by {
                if q == best as int {
                    assert(r@[r@.len() - 1] == best);
                } else {
                    if before.contains(q as usize) {
                        let a = choose|a: int| 0 <= a < before.len() && before[a] == q as usize;
                        assert(r@[a] == q as usize);
                    }
                    if r@.contains(q as usize) {
                        let a = choose|a: int| 0 <= a < r@.len() && r@[a] == q as usize;
                        if a < before.len() {
                            assert(before[a] == q as usize);
                        }
                    }
                }
            }
            assert forall|a: int, b: int| 0 <= a < b < r@.len() implies r@[a] != r@[b] && keys@[r@[a] as int]
                >= keys@[r@[b] as int] by {
                if b == r@.len() - 1 {
                    assert(before[a] == r@[a]);
                    assert(before.contains(r@[a]));
                    assert(taken@[r@[a] as int]);
                    let pa = r@[a] as int;
                }
            }
            assert forall|q: int, a: int|
                #![trigger keys@[q], r@[a]]
                0 <= q < n && 0 <= a < r@.len() && !r@.contains(q as usize) implies keys@[q] <= keys@[
                    r@[a] as int] by {
                assert(!before.contains(q as usize)) by {
                    if before.contains(q as usize) {
                        let c = choose|c: int| 0 <= c < before.len() && before[c] == q as usize;
                        assert(r@[c] == q as usize);
                    }
                }
                assert(!taken@[q]);
                if a < before.len() {
                    assert(before[a] == r@[a]);
                }
            }
        }
    }
    r
}

/// The positions below `n`.
proof fn lemma_usize_range_len(n: nat)
    requires
        n <= usize::MAX as nat + 1,
    ensures
        Set::new(|x: usize| (x as int) < n).finite(),
        Set::new(|x: usize| (x as int) < n).len() == n,
    decreases n,
{
    if n == 0 {
        assert(Set::new(|x: usize| (x as int) < 0) =~= Set::<usize>::empty());
    } else {
        lemma_usize_range_len((n - 1) as nat);
        assert(Set::new(|x: usize| (x as int) < n) =~= Set::new(|x: usize| (x as int) < n - 1).insert(
            (n - 1) as usize,
        ));
    }
}

} // verus!

verus! {

/// The sort key of an IEEE-754 single-precision pattern: negative numbers
/// (sign bit set) have all bits inverted, the others get the sign bit set,
/// so that for numbers that are not NaN the keys order as the numbers do.
pub open spec fn score_key_of(bits: u32) -> u32 {
    if bits & 0x8000_0000u32 != 0 {
        !bits
    } else {
        bits | 0x8000_0000u32
    }
}

/// The sort key of a similarity score given by its `f32` bit pattern; see
/// `score_key_of`.
pub fn score_key(bits: u32) -> (r: u32)
    ensures
        r == score_key_of(bits),
{
    if bits & 0x8000_0000u32 != 0 {
        !bits
    } else {
        bits | 0x8000_0000u32
    }
}

} // verus!
