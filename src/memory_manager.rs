//! Per-agent ring buffers together with the shared blackboard, and the
//! summarization trigger.

use vstd::prelude::*;
use crate::agent::AgentId;
use crate::blackboard::{Blackboard, get_result, has_key, live_at, put_result};
use crate::memory::{BlackboardEntry, BlackboardStats, MemoryEntry, MemoryStats, same_bb_entry};
use crate::ring_buffer::{RingBuffer, kept, tokens};

verus! {

/// The contents of `s` joined by newlines.
pub open spec fn joined(s: Seq<MemoryEntry>) -> Seq<char>
    decreases s.len(),
{
    if s.len() == 0 {
        Seq::empty()
    } else if s.len() == 1 {
        s[0].content@
    } else {
        joined(s.drop_last()) + seq!['\n'] + s.last().content@
    }
}

/// Longest text kept whole by the summarization stub.
pub const SUMMARY_LIMIT: usize = 200;

/// Characters kept from each end of a longer text.
pub const SUMMARY_EDGE: usize = 100;

/// The stub summary of `text`: the text itself when it has at most 200
/// characters, else its first 100 and last 100 characters around "...".
pub open spec fn summary_of(text: Seq<char>) -> Seq<char> {
    if text.len() > 200 {
        text.subrange(0, 100) + seq!['.', '.', '.'] + text.subrange(text.len() - 100, text.len() as int)
    } else {
        text
    }
}

/// The stub summary of `text` for a buffer of `cap` tokens: `summary_of`,
/// shortened to its first `4 * cap` characters when its estimate would
/// exceed the capacity.
pub open spec fn fitted_summary(text: Seq<char>, cap: nat) -> Seq<char> {
    let s = summary_of(text);
    if s.len() / 4 <= cap {
        s
    } else {
        s.subrange(0, 4 * cap as int)
    }
}

/// Estimated token count of a text: a quarter of its characters.
pub open spec fn estimate_tokens(text: Seq<char>) -> nat {
    text.len() / 4
}

/// Builds the stub summary of `entries` for a buffer of `cap` tokens
/// (joined by newlines, cut to its two ends when long, shortened to fit the
/// capacity) and its estimated token count, which is at most `cap`.
pub fn summarize_entries(entries: &Vec<MemoryEntry>, cap: u32) -> (r: (String, u32))
    ensures
        r.0@ == fitted_summary(joined(entries@), cap as nat),
        r.1 as nat == estimate_tokens(fitted_summary(joined(entries@), cap as nat)),
        r.1 <= cap,
{
    let mut text = String::new();
    let mut i: usize = 0;
    proof {
        reveal_strlit("\n");
    }
    while i < entries.len()
        invariant
            i <= entries@.len(),
            text@ == joined(entries@.subrange(0, i as int)),
        decreases entries@.len() - i,
    {
        let ghost prev = text@;
        proof {
            reveal_strlit("\n");
            let s = entries@.subrange(0, i + 1);
            assert(s.drop_last() =~= entries@.subrange(0, i as int));
            assert(s.last() == entries@[i as int]);
        }
        if i > 0 {
            text.append("\n");
        }
        text.append(entries[i].content.as_str());
        proof {
            let s = entries@.subrange(0, i + 1);
            if i == 0 {
                assert(text@ =~= entries@[0].content@);
                assert(s.len() == 1);
                assert(s[0] == entries@[0]);
            } else {
                assert(text@ =~= prev + seq!['\n'] + entries@[i as int].content@);
            }
        }
        i = i + 1;
    }
    assert(entries@.subrange(0, i as int) =~= entries@);
    let n = text.as_str().unicode_len();
    let summary = if n > SUMMARY_LIMIT {
        let mut s = String::from_str(text.as_str().substring_char(0, SUMMARY_EDGE));
        proof {
            reveal_strlit("...");
        }
        s.append("...");
        s.append(text.as_str().substring_char(n - SUMMARY_EDGE, n));
        s
    } else {
        text
    };
    let m = summary.as_str().unicode_len();
    proof {
        assert(m <= 203);
    }
    if m / 4 <= cap as usize {
        (summary, (m / 4) as u32)
    } else {
        let k = 4 * cap as usize;
        let short = String::from_str(summary.as_str().substring_char(0, k));
        (short, cap)
    }
}

/// Per-agent ring buffers and the shared blackboard.
pub struct MemoryManager {
    agent_buffers: Vec<(AgentId, RingBuffer)>,
    blackboard: Blackboard,
}

impl MemoryManager {
    /// Internal consistency: one buffer per agent, each consistent, and a
    /// consistent blackboard.
    pub closed spec fn wf(&self) -> bool {
        &&& self.blackboard.wf()
        &&& forall|i: int, j: int|
            0 <= i < self.agent_buffers@.len() && 0 <= j < self.agent_buffers@.len() && i != j
                ==> (#[trigger] self.agent_buffers@[i]).0 != (#[trigger] self.agent_buffers@[j]).0
        &&& forall|i: int| 0 <= i < self.agent_buffers@.len() ==> (#[trigger] self.agent_buffers@[i]).1.wf()
    }

    /// The agents that have a buffer, with their buffers.
    pub closed spec fn buffers(&self) -> Seq<(AgentId, RingBuffer)> {
        self.agent_buffers@
    }

    /// Agent `id` has a buffer.
    pub open spec fn has_buffer(&self, id: AgentId) -> bool {
        exists|i: int| 0 <= i < self.buffers().len() && (#[trigger] self.buffers()[i]).0 == id
    }

    /// The buffer of agent `id` (meaningful when it has one).
    pub open spec fn buffer(&self, id: AgentId) -> RingBuffer {
        self.buffers()[choose|i: int| 0 <= i < self.buffers().len() && (#[trigger] self.buffers()[i]).0 == id].1
    }

    /// The shared blackboard.
    pub closed spec fn board(&self) -> Blackboard {
        self.blackboard
    }

    /// A manager with no agent buffer and an empty blackboard of at most
    /// `blackboard_capacity` entries.
    pub fn new(blackboard_capacity: usize) -> (r: MemoryManager)
        ensures
            r.wf(),
            r.buffers().len() == 0,
            r.board()@.len() == 0,
            r.board().max() == blackboard_capacity,
    {
        MemoryManager { agent_buffers: Vec::new(), blackboard: Blackboard::new(blackboard_capacity) }
    }

    fn find(&self, agent_id: AgentId) -> (r: Option<usize>)
        requires
            self.wf(),
        ensures
            r is None <==> !self.has_buffer(agent_id),
            r is Some ==> r->0 < self.buffers().len() && self.buffers()[r->0 as int].0 == agent_id
                && self.buffer(agent_id) == self.buffers()[r->0 as int].1,
    {
        let mut i: usize = 0;
        while i < self.agent_buffers.len()
            invariant
                self.wf(),
                i <= self.agent_buffers@.len(),
                forall|j: int| 0 <= j < i ==> (#[trigger] self.agent_buffers@[j]).0 != agent_id,
            decreases self.agent_buffers@.len() - i,
        {
            if self.agent_buffers[i].0 == agent_id {
                proof {
                    assert(self.buffers()[i as int].0 == agent_id);
                    let c = choose|c: int| 0 <= c < self.buffers().len() && (#[trigger] self.buffers()[c]).0 == agent_id;
                    if c != i {
                        assert(self.agent_buffers@[c].0 != self.agent_buffers@[i as int].0);
                    }
                }
                return Some(i);
            }
            i = i + 1;
        }
        None
    }

    /// Gives agent `agent_id` an empty buffer of `capacity_tokens` tokens,
    /// replacing any it had.
    pub fn create_agent_buffer(&mut self, agent_id: AgentId, capacity_tokens: u32)
        requires
            old(self).wf(),
        ensures
            final(self).wf(),
            final(self).has_buffer(agent_id),
            final(self).buffer(agent_id)@.len() == 0,
            final(self).buffer(agent_id).cap() == capacity_tokens,
            final(self).board() == old(self).board(),
            forall|id: AgentId| id != agent_id ==> (final(self).has_buffer(id) == old(self).has_buffer(id)),
    {
        let buffer = RingBuffer::new(capacity_tokens);
        match self.find(agent_id) {
            Some(i) => {
                let ghost before = self.agent_buffers@;
                self.agent_buffers.set(i, (agent_id, buffer));
                proof {
                    assert forall|a: int, b: int|
                        0 <= a < self.agent_buffers@.len() && 0 <= b < self.agent_buffers@.len() && a != b
                            implies (#[trigger] self.agent_buffers@[a]).0 != (#[trigger] self.agent_buffers@[b]).0 by {
                        assert(before[a].0 != before[b].0);
                    }
                    assert(self.buffers()[i as int].0 == agent_id);
                    let c = choose|c: int| 0 <= c < self.buffers().len() && (#[trigger] self.buffers()[c]).0 == agent_id;
                    if c != i {
                        assert(self.agent_buffers@[c].0 != self.agent_buffers@[i as int].0);
                    }
                    assert forall|id: AgentId| id != agent_id implies (self.has_buffer(id) == old(self).has_buffer(id)) by {
                        if old(self).has_buffer(id) {
                            let k = choose|k: int| 0 <= k < before.len() && (#[trigger] before[k]).0 == id;
                            assert(self.buffers()[k].0 == id);
                        }
                        if self.has_buffer(id) {
                            let k = choose|k: int| 0 <= k < self.buffers().len() && (#[trigger] self.buffers()[k]).0 == id;
                            assert(before[k].0 == id);
                        }
                    }
                }
            },
            None => {
                let ghost before = self.agent_buffers@;
                self.agent_buffers.push((agent_id, buffer));
                proof {
                    let n = before.len() as int;
                    assert(self.buffers()[n].0 == agent_id);
                    let c = choose|c: int| 0 <= c < self.buffers().len() && (#[trigger] self.buffers()[c]).0 == agent_id;
                    if c != n {
                        assert(before[c].0 == agent_id);
                    }
                    assert forall|id: AgentId| id != agent_id implies (self.has_buffer(id) == old(self).has_buffer(id)) by {
                        if old(self).has_buffer(id) {
                            let k = choose|k: int| 0 <= k < before.len() && (#[trigger] before[k]).0 == id;
                            assert(self.buffers()[k].0 == id);
                        }
                        if self.has_buffer(id) {
                            let k = choose|k: int| 0 <= k < self.buffers().len() && (#[trigger] self.buffers()[k]).0 == id;
                            assert(before[k].0 == id);
                        }
                    }
                    assert forall|a: int, b: int|
                        0 <= a < self.agent_buffers@.len() && 0 <= b < self.agent_buffers@.len() && a != b
                            implies (#[trigger] self.agent_buffers@[a]).0 != (#[trigger] self.agent_buffers@[b]).0 by {
                        if a < n && b < n {
                            assert(before[a].0 != before[b].0);
                        } else if a < n {
                            assert(old(self).buffers()[a].0 != agent_id);
                        } else if b < n {
                            assert(old(self).buffers()[b].0 != agent_id);
                        }
                    }
                }
            },
        }
    }

    /// The buffer of `agent_id`, if it has one.
    pub fn get_agent_buffer(&self, agent_id: AgentId) -> (r: Option<&RingBuffer>)
        requires
            self.wf(),
        ensures
            r is Some <==> self.has_buffer(agent_id),
            r is Some ==> *r->0 == self.buffer(agent_id),
    {
        match self.find(agent_id) {
            Some(i) => Some(&self.agent_buffers[i].1),
            None => None,
        }
    }

    /// Removes the buffer of `agent_id`; says whether it had one.
    pub fn remove_agent_buffer(&mut self, agent_id: AgentId) -> (r: bool)
        requires
            old(self).wf(),
        ensures
            final(self).wf(),
            r == old(self).has_buffer(agent_id),
            !final(self).has_buffer(agent_id),
            final(self).board() == old(self).board(),
            forall|id: AgentId| id != agent_id ==> (final(self).has_buffer(id) == old(self).has_buffer(id)),
    {
        match self.find(agent_id) {
            Some(i) => {
                let ghost before = self.agent_buffers@;
                self.agent_buffers.remove(i);
                proof {
                    assert forall|k: int| 0 <= k < self.agent_buffers@.len() implies #[trigger]
                        self.agent_buffers@[k] == before[if k < i { k } else { k + 1 }] by {}
                    assert forall|a: int, b: int|
                        0 <= a < self.agent_buffers@.len() && 0 <= b < self.agent_buffers@.len() && a != b
                            implies (#[trigger] self.agent_buffers@[a]).0 != (#[trigger] self.agent_buffers@[b]).0 by {
                        let a2 = if a < i { a } else { a + 1 };
                        let b2 = if b < i { b } else { b + 1 };
                        assert(before[a2].0 != before[b2].0);
                    }
                    if self.has_buffer(agent_id) {
                        let k = choose|k: int| 0 <= k < self.buffers().len() && (#[trigger] self.buffers()[k]).0 == agent_id;
                        let k2 = if k < i { k } else { k + 1 };
                        assert(before[k2].0 != before[i as int].0);
                    }
                    assert forall|id: AgentId| id != agent_id implies (self.has_buffer(id) == old(self).has_buffer(id)) by {
                        if old(self).has_buffer(id) {
                            let k = choose|k: int| 0 <= k < before.len() && (#[trigger] before[k]).0 == id;
                            assert(k != i);
                            let k2 = if k < i { k } else { k - 1 };
                            assert(self.buffers()[k2].0 == id);
                        }
                        if self.has_buffer(id) {
                            let k = choose|k: int| 0 <= k < self.buffers().len() && (#[trigger] self.buffers()[k]).0 == id;
                            let k2 = if k < i { k } else { k + 1 };
                            assert(before[k2].0 == id);
                        }
                    }
                }
                true
            },
            None => false,
        }
    }

    /// Appends `entry` to the buffer of `agent_id`, then, when the buffer has
    /// reached its summarization threshold, replaces its entries by their
    /// stub summary. Fails, changing nothing, when the agent has no buffer.
    pub fn add_to_agent(&mut self, agent_id: AgentId, entry: MemoryEntry) -> (r: Result<(), String>)
        requires
            old(self).wf(),
        ensures
            final(self).wf(),
            r is Ok <==> old(self).has_buffer(agent_id),
            r is Err ==> final(self).buffers() == old(self).buffers(),
            final(self).board() == old(self).board(),
            forall|id: AgentId| (final(self).has_buffer(id) == old(self).has_buffer(id)),
            r is Ok ==> ({
                let b = old(self).buffer(agent_id);
                let pushed = kept(b@.push(entry), b.cap() as nat);
                let after = final(self).buffer(agent_id);
                &&& after.cap() == b.cap()
                &&& if b.cap() > 0 && tokens(pushed) * 1000 >= b.threshold() as nat * b.cap() && pushed.len() > 0 {
                    &&& after@.len() == 1
                    &&& after@[0].content@ == fitted_summary(joined(pushed), b.cap() as nat)
                    &&& after@[0].token_count as nat == estimate_tokens(fitted_summary(joined(pushed), b.cap() as nat))
                } else {
                    after@ == pushed
                }
            }),
    {
        let i = match self.find(agent_id) {
            Some(i) => i,
            None => {
                return Err(String::from_str("No buffer for agent"));
            },
        };
        let ghost before = self.agent_buffers@;
        let (id, mut buffer) = self.agent_buffers.remove(i);
        buffer.push(entry);
        if buffer.should_summarize() {
            let all = buffer.get_all();
            if all.len() > 0 {
                proof {
                    assert(all@.len() == buffer@.len());
                    assert(joined(all@) == joined(buffer@)) by {
                        lemma_joined_same(all@, buffer@);
                    }
                }
                let (summary, summary_tokens) = summarize_entries(&all, buffer.capacity());
                buffer.summarize(summary, summary_tokens);
            }
        }
        self.agent_buffers.insert(i, (id, buffer));
        proof {
            assert(self.agent_buffers@ =~= before.update(i as int, (agent_id, buffer)));
            assert forall|a: int, b: int|
                0 <= a < self.agent_buffers@.len() && 0 <= b < self.agent_buffers@.len() && a != b
                    implies (#[trigger] self.agent_buffers@[a]).0 != (#[trigger] self.agent_buffers@[b]).0 by {
                assert(before[a].0 != before[b].0);
            }
            assert(self.buffers()[i as int].0 == agent_id);
            let c = choose|c: int| 0 <= c < self.buffers().len() && (#[trigger] self.buffers()[c]).0 == agent_id;
            if c != i {
                assert(self.agent_buffers@[c].0 != self.agent_buffers@[i as int].0);
            }
            assert forall|x: AgentId| (self.has_buffer(x) == old(self).has_buffer(x)) by {
                if old(self).has_buffer(x) {
                    let k = choose|k: int| 0 <= k < before.len() && (#[trigger] before[k]).0 == x;
                    assert(self.buffers()[k].0 == x);
                }
                if self.has_buffer(x) {
                    let k = choose|k: int| 0 <= k < self.buffers().len() && (#[trigger] self.buffers()[k]).0 == x;
                    assert(before[k].0 == x);
                }
            }
        }
        Ok(())
    }

    /// Stores `value` under `key` on the blackboard, with `embedding` (bit
    /// patterns of `f32` components) when one is given.
    pub fn add_to_blackboard(&mut self, key: String, value: String, embedding: Option<Vec<u32>>) -> (r: Result<(), String>)
        requires
            old(self).wf(),
        ensures
            final(self).wf(),
            r is Ok,
            final(self).buffers() == old(self).buffers(),
            has_key(final(self).board()@, key@),
            final(self).board().max() == old(self).board().max(),
            final(self).board()@.len() <= if old(self).board().max() == 0 {
                1
            } else {
                old(self).board().max() as int
            },
            exists|e: BlackboardEntry, now: i64|
                #![trigger put_result(old(self).board()@.filter(live_at(now)), e, now, old(self).board().max() as nat)]
                e.key == key && e.value == value && e.embedding == embedding && e.expires_at is None
                    && e.access_count == 0 && final(self).board()@ == put_result(
                    old(self).board()@.filter(live_at(now)),
                    e,
                    now,
                    old(self).board().max() as nat,
                ),
    {
        let ghost k = key;
        let ghost v0 = value;
        let ghost emb = embedding;
        let mut entry = BlackboardEntry::new(key, value);
        if let Some(v) = embedding {
            entry = entry.with_embedding(v);
        }
        let ghost stored = entry;
        self.blackboard.put(entry);
        proof {
            assert(exists|now: i64| self.blackboard@ == put_result(
                #[trigger] old(self).blackboard@.filter(live_at(now)),
                stored,
                now,
                old(self).blackboard.max() as nat,
            ));
            let now = choose|now: i64| self.blackboard@ == put_result(
                #[trigger] old(self).blackboard@.filter(live_at(now)),
                stored,
                now,
                old(self).blackboard.max() as nat,
            );
            assert(stored.key == k && stored.value == v0 && stored.embedding == emb);
            assert(stored.expires_at is None && stored.access_count == 0);
            assert(self.board()@ == put_result(old(self).board()@.filter(live_at(now)), stored, now, old(self).board().max() as nat));
        }
        Ok(())
    }

    /// Looks `key` up on the blackboard.
    pub fn get_from_blackboard(&mut self, key: &str) -> (r: Option<BlackboardEntry>)
        requires
            old(self).wf(),
        ensures
            final(self).wf(),
            final(self).buffers() == old(self).buffers(),
            r is Some ==> r->0.key@ == key@,
            !has_key(old(self).board()@, key@) ==> r is None,
            final(self).board().max() == old(self).board().max(),
            exists|now: i64|
                final(self).board()@ == #[trigger] crate::blackboard::get_state(old(self).board()@, key@, now)
                    && match (r, get_result(old(self).board()@, key@, now)) {
                    (None, None) => true,
                    (Some(x), Some(y)) => same_bb_entry(x, y),
                    _ => false,
                },
    {
        self.blackboard.get(key)
    }

    /// Entries of the blackboard that can take part in a recall at `now`.
    pub fn recall_candidates_at(&self, now: i64) -> (r: Vec<BlackboardEntry>)
        requires
            self.wf(),
        ensures
            r@.len() == self.board()@.filter(crate::blackboard::recallable_at(now)).len(),
            forall|i: int|
                0 <= i < r@.len() ==> same_bb_entry(
                    #[trigger] r@[i],
                    self.board()@.filter(crate::blackboard::recallable_at(now))[i],
                ),
    {
        self.blackboard.recall_candidates_at(now)
    }

    /// Folds one recall latency into the blackboard's statistics.
    pub fn record_recall_latency(&mut self, sample_ms: u64)
        requires
            old(self).wf(),
        ensures
            final(self).wf(),
            final(self).buffers() == old(self).buffers(),
            final(self).board()@ == old(self).board()@,
            final(self).board().max() == old(self).board().max(),
            final(self).board().statistics().recall_count == crate::mailbox::sat_inc(
                old(self).board().statistics().recall_count,
            ),
            final(self).board().statistics().avg_recall_latency_ms == crate::blackboard::running_mean(
                old(self).board().statistics().avg_recall_latency_ms,
                crate::mailbox::sat_inc(old(self).board().statistics().recall_count),
                sample_ms,
            ),
    {
        self.blackboard.record_recall_latency(sample_ms);
    }

    /// Statistics of the buffer of `agent_id`, if it has one.
    pub fn get_agent_stats(&self, agent_id: AgentId) -> (r: Option<MemoryStats>)
        requires
            self.wf(),
        ensures
            r is Some <==> self.has_buffer(agent_id),
            r is Some ==> r->0 == self.buffer(agent_id).statistics(),
    {
        match self.find(agent_id) {
            Some(i) => Some(self.agent_buffers[i].1.stats()),
            None => None,
        }
    }

    /// Statistics of the blackboard.
    pub fn get_blackboard_stats(&self) -> (r: BlackboardStats)
        requires
            self.wf(),
        ensures
            r == self.board().statistics(),
    {
        self.blackboard.stats()
    }

    /// The agents that have a buffer.
    pub fn list_agents(&self) -> (r: Vec<AgentId>)
        requires
            self.wf(),
        ensures
            r@.len() == self.buffers().len(),
            forall|i: int| 0 <= i < r@.len() ==> #[trigger] r@[i] == self.buffers()[i].0,
    {
        let mut r: Vec<AgentId> = Vec::new();
        let mut i: usize = 0;
        while i < self.agent_buffers.len()
            invariant
                i <= self.agent_buffers@.len(),
                r@.len() == i,
                forall|j: int| 0 <= j < i ==> #[trigger] r@[j] == self.agent_buffers@[j].0,
            decreases self.agent_buffers@.len() - i,
        {
            r.push(self.agent_buffers[i].0);
            i = i + 1;
        }
        r
    }
}

/// Copies join to the same text.
pub proof fn lemma_joined_same(a: Seq<MemoryEntry>, b: Seq<MemoryEntry>)
    requires
        a.len() == b.len(),
        forall|i: int| 0 <= i < a.len() ==> (#[trigger] a[i]).content == b[i].content,
    ensures
        joined(a) == joined(b),
    decreases a.len(),
{
    if a.len() > 1 {
        lemma_joined_same(a.drop_last(), b.drop_last());
    }
}

} // verus!
