//! Entries and statistics of agent memory and of the shared blackboard.
//!
//! Times are milliseconds since the Unix epoch. An embedding is held as the
//! IEEE-754 bit patterns of its 32-bit components (`f32::to_bits`).

use vstd::prelude::*;

verus! {

/// An entry of an agent's ring buffer.
#[derive(Debug, Clone)]
pub struct MemoryEntry {
    pub id: u128,
    pub content: String,
    pub token_count: u32,
    pub timestamp: i64,
    pub metadata: std::collections::HashMap<String, String>,
}

/// `a` is a copy of `b`.
pub open spec fn same_entry(a: MemoryEntry, b: MemoryEntry) -> bool {
    &&& a.id == b.id
    &&& a.content == b.content
    &&& a.token_count == b.token_count
    &&& a.timestamp == b.timestamp
    &&& a.metadata@ == b.metadata@
}

impl MemoryEntry {
    /// A new entry with a fresh identifier, the current time and no metadata.
    pub fn new(content: String, token_count: u32) -> (r: MemoryEntry)
        ensures
            r.content == content,
            r.token_count == token_count,
            r.metadata@ == Map::<String, String>::empty(),
    {
        MemoryEntry {
            id: crate::sources::fresh_u128(),
            content,
            token_count,
            timestamp: crate::sources::now_millis(),
            metadata: std::collections::HashMap::new(),
        }
    }

    /// This entry with `key` set to `value` in its metadata.
    pub fn with_metadata(self, key: String, value: String) -> (r: MemoryEntry)
        ensures
            r.id == self.id,
            r.content == self.content,
            r.token_count == self.token_count,
            r.timestamp == self.timestamp,
            vstd::std_specs::hash::obeys_key_model::<String>() ==> r.metadata@
                == self.metadata@.insert(key, value),
    {
        let mut e = self;
        e.metadata.insert(key, value);
        e
    }

    /// A copy of this entry.
    pub fn duplicate(&self) -> (r: MemoryEntry)
        ensures
            same_entry(r, *self),
    {
        MemoryEntry {
            id: self.id,
            content: self.content.clone(),
            token_count: self.token_count,
            timestamp: self.timestamp,
            metadata: self.metadata.clone(),
        }
    }
}

/// An entry of the blackboard.
#[derive(Debug, Clone)]
pub struct BlackboardEntry {
    pub id: u128,
    pub key: String,
    pub value: String,
    /// Bit patterns of the embedding's `f32` components.
    pub embedding: Option<Vec<u32>>,
    pub created_at: i64,
    pub expires_at: Option<i64>,
    pub last_accessed: i64,
    pub access_count: u64,
}

/// The entry has expired at time `now`: it has an expiry and `now` is past it.
pub open spec fn expired_at(e: BlackboardEntry, now: i64) -> bool {
    match e.expires_at {
        Some(t) => now > t,
        None => false,
    }
}

/// `a` is a copy of `b`.
pub open spec fn same_bb_entry(a: BlackboardEntry, b: BlackboardEntry) -> bool {
    &&& a.id == b.id
    &&& a.key == b.key
    &&& a.value == b.value
    &&& match (a.embedding, b.embedding) {
        (None, None) => true,
        (Some(x), Some(y)) => x@ == y@,
        _ => false,
    }
    &&& a.created_at == b.created_at
    &&& a.expires_at == b.expires_at
    &&& a.last_accessed == b.last_accessed
    &&& a.access_count == b.access_count
}

/// Expiry time `ttl_seconds` after `now` (saturating at `i64::MAX`).
pub open spec fn deadline(now: i64, ttl_seconds: u64) -> i64 {
    if now + ttl_seconds * 1000 <= i64::MAX {
        (now + ttl_seconds * 1000) as i64
    } else {
        i64::MAX
    }
}

fn copy_bits(v: &Vec<u32>) -> (r: Vec<u32>)
    ensures
        r@ == v@,
{
    let mut r: Vec<u32> = Vec::new();
    let mut i: usize = 0;
    while i < v.len()
        invariant
            i <= v@.len(),
            r@ == v@.subrange(0, i as int),
        decreases v@.len() - i,
    {
        r.push(v[i]);
        i = i + 1;
        assert(r@ =~= v@.subrange(0, i as int));
    }
    assert(v@.subrange(0, v@.len() as int) =~= v@);
    r
}

impl BlackboardEntry {
    /// A new entry created at `now`, never accessed, with no expiry and no
    /// embedding.
    pub fn new_at(key: String, value: String, now: i64) -> (r: BlackboardEntry)
        ensures
            r.key == key,
            r.value == value,
            r.embedding is None,
            r.created_at == now,
            r.expires_at is None,
            r.last_accessed == now,
            r.access_count == 0,
    {
        BlackboardEntry {
            id: crate::sources::fresh_u128(),
            key,
            value,
            embedding: None,
            created_at: now,
            expires_at: None,
            last_accessed: now,
            access_count: 0,
        }
    }

    /// A new entry created now, never accessed, with no expiry and no
    /// embedding.
    pub fn new(key: String, value: String) -> (r: BlackboardEntry)
        ensures
            r.key == key,
            r.value == value,
            r.embedding is None,
            r.expires_at is None,
            r.last_accessed == r.created_at,
            r.access_count == 0,
    {
        Self::new_at(key, value, crate::sources::now_millis())
    }

    /// This entry, expiring `ttl_seconds` after `now`.
    pub fn with_ttl_at(self, ttl_seconds: u64, now: i64) -> (r: BlackboardEntry)
        ensures
            r == (BlackboardEntry { expires_at: Some(deadline(now, ttl_seconds)), ..self }),
    {
        let mut e = self;
        let add = ttl_seconds as i128 * 1000;
        if now as i128 + add <= i64::MAX as i128 {
            e.expires_at = Some((now as i128 + add) as i64);
        } else {
            e.expires_at = Some(i64::MAX);
        }
        e
    }

    /// This entry, expiring `ttl_seconds` from now.
    pub fn with_ttl(self, ttl_seconds: u64) -> (r: BlackboardEntry)
        ensures
            exists|now: i64| r == (BlackboardEntry { expires_at: Some(deadline(now, ttl_seconds)), ..self }),
    {
        let now = crate::sources::now_millis();
        self.with_ttl_at(ttl_seconds, now)
    }

    /// This entry with an embedding (the bit patterns of its `f32`
    /// components).
    pub fn with_embedding(self, embedding: Vec<u32>) -> (r: BlackboardEntry)
        ensures
            r == (BlackboardEntry { embedding: Some(embedding), ..self }),
    {
        let mut e = self;
        e.embedding = Some(embedding);
        e
    }

    /// Whether the entry has expired at time `now`.
    pub fn is_expired_at(&self, now: i64) -> (r: bool)
        ensures
            r == expired_at(*self, now),
    {
        match self.expires_at {
            Some(t) => now > t,
            None => false,
        }
    }

    /// Whether the entry has expired by now.
    pub fn is_expired(&self) -> (r: bool)
        ensures
            self.expires_at is None ==> !r,
            exists|now: i64| r == #[trigger] expired_at(*self, now),
    {
        self.is_expired_at(crate::sources::now_millis())
    }

    /// Records an access at time `now` (the counter saturates).
    pub fn touch_at(&mut self, now: i64)
        ensures
            *final(self) == (BlackboardEntry {
                last_accessed: now,
                access_count: if old(self).access_count < u64::MAX {
                    (old(self).access_count + 1) as u64
                } else {
                    u64::MAX
                },
                ..*old(self)
            }),
    {
        self.last_accessed = now;
        if self.access_count < u64::MAX {
            self.access_count = self.access_count + 1;
        }
    }

    /// Records an access now (the counter saturates).
    pub fn touch(&mut self)
        ensures
            final(self).access_count == if old(self).access_count < u64::MAX {
                (old(self).access_count + 1) as u64
            } else {
                u64::MAX
            },
            final(self).key == old(self).key,
            final(self).value == old(self).value,
            final(self).expires_at == old(self).expires_at,
    {
        self.touch_at(crate::sources::now_millis());
    }

    /// A copy of this entry.
    pub fn duplicate(&self) -> (r: BlackboardEntry)
        ensures
            same_bb_entry(r, *self),
    {
        let embedding = match &self.embedding {
            Some(v) => Some(copy_bits(v)),
            None => None,
        };
        BlackboardEntry {
            id: self.id,
            key: self.key.clone(),
            value: self.value.clone(),
            embedding,
            created_at: self.created_at,
            expires_at: self.expires_at,
            last_accessed: self.last_accessed,
            access_count: self.access_count,
        }
    }
}

/// Statistics of a ring buffer.
#[derive(Debug, Clone, Copy, Default, PartialEq, Eq, Structural)]
pub struct MemoryStats {
    pub total_entries: usize,
    pub total_tokens: u32,
    pub summarization_count: u64,
    pub eviction_count: u64,
    pub capacity: u32,
}

/// Statistics of a blackboard.
#[derive(Debug, Clone, Copy, Default, PartialEq, Eq, Structural)]
pub struct BlackboardStats {
    pub total_entries: usize,
    pub expired_entries: usize,
    pub total_accesses: u64,
    pub eviction_count: u64,
    pub hit_count: u64,
    pub miss_count: u64,
    /// Number of recalls made.
    pub recall_count: u64,
    /// Running mean of recall latency, in whole milliseconds.
    pub avg_recall_latency_ms: u64,
}

} // verus!
