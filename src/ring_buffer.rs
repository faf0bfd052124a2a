//! Token-bounded FIFO memory of one agent, with a summarization trigger.

use vstd::prelude::*;
use crate::memory::{MemoryEntry, MemoryStats, same_entry};
use crate::mailbox::{sat_add, sat_inc};

verus! {

/// Sum of the token counts of `s`.
pub open spec fn tokens(s: Seq<MemoryEntry>) -> nat
    decreases s.len(),
{
    if s.len() == 0 {
        0
    } else {
        (s[0].token_count + tokens(s.drop_first())) as nat
    }
}

/// What stays of `s` when its oldest entries are dropped, one by one, until
/// the token total is at most `cap`.
pub open spec fn kept(s: Seq<MemoryEntry>, cap: nat) -> Seq<MemoryEntry>
    decreases s.len(),
{
    if tokens(s) <= cap || s.len() == 0 {
        s
    } else {
        kept(s.drop_first(), cap)
    }
}

/// Appending an entry adds its tokens.
pub proof fn lemma_tokens_push(s: Seq<MemoryEntry>, e: MemoryEntry)
    ensures
        tokens(s.push(e)) == tokens(s) + e.token_count,
    decreases s.len(),
{
    assert(tokens(Seq::<MemoryEntry>::empty()) == 0);
    assert(s.push(e)[0] == if s.len() == 0 {
        e
    } else {
        s[0]
    });
    if s.len() == 0 {
        assert(s.push(e).drop_first() =~= Seq::<MemoryEntry>::empty());
    } else {
        assert(s.push(e).drop_first() =~= s.drop_first().push(e));
        lemma_tokens_push(s.drop_first(), e);
    }
}

/// What `kept` leaves is a suffix of its input, within the bound.
pub proof fn lemma_kept(s: Seq<MemoryEntry>, cap: nat)
    ensures
        tokens(kept(s, cap)) <= cap,
        kept(s, cap).len() <= s.len(),
        kept(s, cap) == s.subrange(s.len() - kept(s, cap).len(), s.len() as int),
    decreases s.len(),
{
    if tokens(s) <= cap || s.len() == 0 {
        assert(s.subrange(0, s.len() as int) =~= s);
    } else {
        lemma_kept(s.drop_first(), cap);
        let k = kept(s.drop_first(), cap);
        assert(s.drop_first().subrange(s.len() - 1 - k.len(), s.len() - 1) =~= s.subrange(
            s.len() - k.len(),
            s.len() as int,
        ));
    }
}

/// Default summarization threshold, in thousandths of the capacity.
pub const DEFAULT_THRESHOLD_PERMILLE: u32 = 800;

/// Per-agent memory bounded by a token capacity. The oldest entries go first
/// when a push exceeds the capacity.
pub struct RingBuffer {
    entries: Vec<MemoryEntry>,
    capacity_tokens: u32,
    threshold_permille: u32,
    stats: MemoryStats,
}

impl View for RingBuffer {
    type V = Seq<MemoryEntry>;

    /// The entries, oldest first.
    closed spec fn view(&self) -> Seq<MemoryEntry> {
        self.entries@
    }
}

impl RingBuffer {
    /// Internal consistency: the statistics describe the entries.
    pub closed spec fn wf(&self) -> bool {
        &&& self.stats.total_tokens as nat == tokens(self.entries@)
        &&& tokens(self.entries@) <= self.capacity_tokens
        &&& self.stats.total_entries == self.entries@.len()
        &&& self.stats.capacity == self.capacity_tokens
        &&& self.threshold_permille <= 1000
    }

    /// The token capacity.
    pub closed spec fn cap(&self) -> u32 {
        self.capacity_tokens
    }

    /// The summarization threshold, in thousandths of the capacity.
    pub closed spec fn threshold(&self) -> u32 {
        self.threshold_permille
    }

    /// The statistics.
    pub closed spec fn statistics(&self) -> MemoryStats {
        self.stats
    }

    /// An empty buffer of `capacity_tokens` tokens with the default
    /// threshold.
    pub fn new(capacity_tokens: u32) -> (r: RingBuffer)
        ensures
            r.wf(),
            r@ == Seq::<MemoryEntry>::empty(),
            r.cap() == capacity_tokens,
            r.threshold() == DEFAULT_THRESHOLD_PERMILLE,
            r.statistics() == (MemoryStats {
                total_entries: 0,
                total_tokens: 0,
                summarization_count: 0,
                eviction_count: 0,
                capacity: capacity_tokens,
            }),
    {
        RingBuffer {
            entries: Vec::new(),
            capacity_tokens,
            threshold_permille: DEFAULT_THRESHOLD_PERMILLE,
            stats: MemoryStats {
                total_entries: 0,
                total_tokens: 0,
                summarization_count: 0,
                eviction_count: 0,
                capacity: capacity_tokens,
            },
        }
    }

    /// This buffer with its summarization threshold set to
    /// `threshold_permille` thousandths of the capacity, clamped to 1000.
    pub fn with_threshold(self, threshold_permille: u32) -> (r: RingBuffer)
        requires
            self.wf(),
        ensures
            r.wf(),
            r@ == self@,
            r.cap() == self.cap(),
            r.statistics() == self.statistics(),
            r.threshold() == if threshold_permille <= 1000 {
                threshold_permille
            } else {
                1000
            },
    {
        let mut b = self;
        b.threshold_permille = if threshold_permille <= 1000 {
            threshold_permille
        } else {
            1000
        };
        b
    }

    /// Appends `entry`, then drops the oldest entries while the token total
    /// exceeds the capacity, counting each as an eviction.
    pub fn push(&mut self, entry: MemoryEntry)
        requires
            old(self).wf(),
        ensures
            final(self).wf(),
            final(self)@ == kept(old(self)@.push(entry), old(self).cap() as nat),
            final(self).statistics().total_tokens <= final(self).cap(),
            final(self).statistics().total_tokens as nat == tokens(final(self)@),
            final(self).statistics().total_entries == final(self)@.len(),
            final(self).statistics().eviction_count == sat_add(
                old(self).statistics().eviction_count,
                (old(self)@.len() + 1 - final(self)@.len()) as nat,
            ),
            final(self).statistics().summarization_count == old(
                self,
            ).statistics().summarization_count,
            final(self).cap() == old(self).cap(),
            final(self).threshold() == old(self).threshold(),
    {
        let ghost all = self.entries@.push(entry);
        let mut total: u64 = self.stats.total_tokens as u64 + entry.token_count as u64;
        proof {
            lemma_tokens_push(self.entries@, entry);
        }
        self.entries.push(entry);
        let cap = self.capacity_tokens as u64;
        while total > cap && self.entries.len() > 0
            invariant
                total as nat == tokens(self.entries@),
                kept(self.entries@, cap as nat) == kept(all, cap as nat),
                self.entries@.len() <= all.len(),
                self.stats.eviction_count == sat_add(
                    old(self).stats.eviction_count,
                    (all.len() - self.entries@.len()) as nat,
                ),
                cap == self.capacity_tokens,
                self.capacity_tokens == old(self).capacity_tokens,
                self.threshold_permille == old(self).threshold_permille,
                self.stats.capacity == old(self).stats.capacity,
                self.stats.summarization_count == old(self).stats.summarization_count,
                all.len() == old(self).entries@.len() + 1,
            decreases self.entries@.len(),
        {
            let ghost before = self.entries@;
            let first = self.entries.remove(0);
            proof {
                assert(self.entries@ =~= before.drop_first());
            }
            total = total - first.token_count as u64;
            if self.stats.eviction_count < u64::MAX {
                self.stats.eviction_count = self.stats.eviction_count + 1;
            }
        }
        proof {
            assert(tokens(Seq::<MemoryEntry>::empty()) == 0);
            if self.entries@.len() == 0 {
                assert(self.entries@ =~= Seq::<MemoryEntry>::empty());
            }
            assert(total <= cap);
            assert(kept(self.entries@, cap as nat) == self.entries@);
        }
        self.stats.total_tokens = total as u32;
        self.stats.total_entries = self.entries.len();
    }

    /// Whether the token total has reached the summarization threshold:
    /// `total / capacity >= threshold`. Never for a zero capacity.
    pub fn should_summarize(&self) -> (r: bool)
        requires
            self.wf(),
        ensures
            r == (self.cap() > 0 && tokens(self@) * 1000 >= self.threshold() as nat * self.cap()),
    {
        if self.capacity_tokens == 0 {
            return false;
        }
        let used = self.stats.total_tokens as u64 * 1000;
        proof {
            let t = self.threshold_permille as nat;
            let c = self.capacity_tokens as nat;
            assert(t * c <= 1000 * u32::MAX) by (nonlinear_arith)
                requires t <= 1000, c <= u32::MAX;
        }
        let bar = self.threshold_permille as u64 * self.capacity_tokens as u64;
        used >= bar
    }

    /// Copies of all entries, oldest first.
    pub fn get_all(&self) -> (r: Vec<MemoryEntry>)
        ensures
            r@.len() == self@.len(),
            forall|i: int| 0 <= i < r@.len() ==> same_entry(#[trigger] r@[i], self@[i]),
    {
        self.copy_from(0)
    }

    fn copy_from(&self, start: usize) -> (r: Vec<MemoryEntry>)
        requires
            start <= self@.len(),
        ensures
            r@.len() == self@.len() - start,
            forall|i: int| 0 <= i < r@.len() ==> same_entry(#[trigger] r@[i], self@[start + i]),
    {
        let mut r: Vec<MemoryEntry> = Vec::new();
        let mut i: usize = start;
        while i < self.entries.len()
            invariant
                start <= i <= self.entries@.len(),
                r@.len() == i - start,
                forall|j: int| 0 <= j < r@.len() ==> same_entry(#[trigger] r@[j], self.entries@[start + j]),
            decreases self.entries@.len() - i,
        {
            r.push(self.entries[i].duplicate());
            i = i + 1;
        }
        r
    }

    /// Copies of the last `n` entries (all of them when there are fewer), in
    /// insertion order.
    pub fn get_recent(&self, n: usize) -> (r: Vec<MemoryEntry>)
        ensures
            r@.len() == if n < self@.len() {
                n as int
            } else {
                self@.len() as int
            },
            forall|i: int|
                0 <= i < r@.len() ==> same_entry(
                    #[trigger] r@[i],
                    self@[self@.len() - r@.len() + i],
                ),
    {
        let len = self.entries.len();
        let start = if n < len {
            len - n
        } else {
            0
        };
        self.copy_from(start)
    }

    /// Removes every entry; the token total becomes zero.
    pub fn clear(&mut self)
        requires
            old(self).wf(),
        ensures
            final(self).wf(),
            final(self)@ == Seq::<MemoryEntry>::empty(),
            final(self).statistics() == (MemoryStats {
                total_entries: 0,
                total_tokens: 0,
                ..old(self).statistics()
            }),
            final(self).cap() == old(self).cap(),
            final(self).threshold() == old(self).threshold(),
    {
        self.entries.clear();
        self.stats.total_tokens = 0;
        self.stats.total_entries = 0;
    }

    /// Replaces all entries by one entry holding `summary`, of
    /// `summary_tokens` tokens, and counts a summarization.
    pub fn summarize(&mut self, summary: String, summary_tokens: u32)
        requires
            old(self).wf(),
            summary_tokens <= old(self).cap(),
        ensures
            final(self).wf(),
            final(self)@.len() == 1,
            final(self)@[0].content == summary,
            final(self)@[0].token_count == summary_tokens,
            final(self).statistics() == (MemoryStats {
                total_entries: 1,
                total_tokens: summary_tokens,
                summarization_count: sat_inc(old(self).statistics().summarization_count),
                ..old(self).statistics()
            }),
            final(self).cap() == old(self).cap(),
            final(self).threshold() == old(self).threshold(),
    {
        self.entries.clear();
        let entry = MemoryEntry::new(summary, summary_tokens);
        self.entries.push(entry);
        proof {
            assert(self.entries@.drop_first() =~= Seq::<MemoryEntry>::empty());
            assert(tokens(Seq::<MemoryEntry>::empty()) == 0);
        }
        self.stats.total_tokens = summary_tokens;
        self.stats.total_entries = 1;
        if self.stats.summarization_count < u64::MAX {
            self.stats.summarization_count = self.stats.summarization_count + 1;
        }
    }

    /// Current statistics.
    pub fn stats(&self) -> (r: MemoryStats)
        requires
            self.wf(),
        ensures
            r == self.statistics(),
            r.total_tokens as nat == tokens(self@),
            r.total_tokens <= r.capacity,
            r.total_entries == self@.len(),
            r.capacity == self.cap(),
    {
        self.stats
    }

    /// Current token total.
    pub fn token_count(&self) -> (r: u32)
        requires
            self.wf(),
        ensures
            r as nat == tokens(self@),
    {
        self.stats.total_tokens
    }

    /// The token capacity.
    pub fn capacity(&self) -> (r: u32)
        ensures
            r == self.cap(),
    {
        self.capacity_tokens
    }

    /// Token total as thousandths of the capacity, rounded down; zero for a
    /// zero capacity.
    pub fn usage_ratio(&self) -> (r: u64)
        requires
            self.wf(),
        ensures
            self.cap() == 0 ==> r == 0,
            self.cap() > 0 ==> r as nat == tokens(self@) * 1000 / (self.cap() as nat),
    {
        if self.capacity_tokens == 0 {
            return 0;
        }
        self.stats.total_tokens as u64 * 1000 / self.capacity_tokens as u64
    }
}

} // verus!
