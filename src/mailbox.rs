//! Per-agent priority mailboxes and the bus that routes messages to them.

use vstd::prelude::*;
use crate::agent::{AgentId, AgentMessage, priority_value, same_message};

verus! {

/// Priority of a message, as a number.
pub open spec fn prio(m: AgentMessage) -> nat {
    priority_value(m.priority)
}

/// Index `i` holds a message of the highest priority in `s`.
pub open spec fn is_top(s: Seq<AgentMessage>, i: int) -> bool {
    &&& 0 <= i < s.len()
    &&& forall|j: int| 0 <= j < s.len() ==> prio(#[trigger] s[j]) <= prio(s[i])
}

/// Mailbox of one agent: a priority queue of the messages addressed to it.
/// The order among messages of equal priority is not part of the contract.
pub struct Mailbox {
    agent_id: AgentId,
    messages: Vec<AgentMessage>,
}

impl View for Mailbox {
    type V = Seq<AgentMessage>;

    closed spec fn view(&self) -> Seq<AgentMessage> {
        self.messages@
    }
}

impl Mailbox {
    /// The agent that owns this mailbox.
    pub closed spec fn owner(&self) -> AgentId {
        self.agent_id
    }

    /// An empty mailbox for `agent_id`.
    pub fn new(agent_id: AgentId) -> (r: Mailbox)
        ensures
            r@ == Seq::<AgentMessage>::empty(),
            r.owner() == agent_id,
    {
        Mailbox { agent_id, messages: Vec::new() }
    }

    /// The agent that owns this mailbox.
    pub fn agent_id(&self) -> (r: AgentId)
        ensures
            r == self.owner(),
    {
        self.agent_id
    }

    /// Adds a message.
    pub fn push(&mut self, message: AgentMessage)
        ensures
            final(self)@ == old(self)@.push(message),
            final(self).owner() == old(self).owner(),
    {
        self.messages.push(message);
    }

    /// Index of a message of the highest priority; requires a message.
    fn top_index(&self) -> (r: usize)
        requires
            self@.len() > 0,
        ensures
            is_top(self@, r as int),
    {
        let mut best: usize = 0;
        let mut i: usize = 1;
        while i < self.messages.len()
            invariant
                1 <= i <= self.messages@.len(),
                best < i,
                forall|j: int| 0 <= j < i ==> prio(#[trigger] self.messages@[j]) <= prio(
                    self.messages@[best as int],
                ),
            decreases self.messages@.len() - i,
        {
            if self.messages[i].priority.value() > self.messages[best].priority.value() {
                best = i;
            }
            i = i + 1;
        }
        best
    }

    /// Removes and returns a message of the highest priority, or `None` when
    /// the mailbox is empty. No message left behind has a higher priority.
    pub fn pop(&mut self) -> (r: Option<AgentMessage>)
        ensures
            final(self).owner() == old(self).owner(),
            old(self)@.len() == 0 ==> r is None && final(self)@ == old(self)@,
            old(self)@.len() > 0 ==> r is Some && exists|i: int|
                #[trigger] is_top(old(self)@, i) && old(self)@[i] == r->0 && final(self)@
                    == old(self)@.remove(i),
            r is Some ==> forall|j: int|
                0 <= j < final(self)@.len() ==> prio(#[trigger] final(self)@[j]) <= prio(r->0),
    {
        if self.messages.len() == 0 {
            return None;
        }
        let i = self.top_index();
        let ghost before = self.messages@;
        let m = self.messages.remove(i);
        proof {
            assert(is_top(before, i as int));
            assert forall|j: int| 0 <= j < self.messages@.len() implies prio(
                #[trigger] self.messages@[j],
            ) <= prio(m) by {
                if j < i {
                    assert(self.messages@[j] == before[j]);
                } else {
                    assert(self.messages@[j] == before[j + 1]);
                }
            }
        }
        Some(m)
    }

    /// A copy of a message of the highest priority, or `None` when the
    /// mailbox is empty.
    pub fn peek(&self) -> (r: Option<AgentMessage>)
        ensures
            self@.len() == 0 <==> r is None,
            r is Some ==> exists|i: int| #[trigger]
                is_top(self@, i) && same_message(r->0, self@[i]),
    {
        if self.messages.len() == 0 {
            return None;
        }
        let i = self.top_index();
        let m = self.messages[i].duplicate();
        assert(is_top(self@, i as int));
        Some(m)
    }

    /// Number of queued messages.
    pub fn len(&self) -> (r: usize)
        ensures
            r == self@.len(),
    {
        self.messages.len()
    }

    /// Whether no message is queued.
    pub fn is_empty(&self) -> (r: bool)
        ensures
            r == (self@.len() == 0),
    {
        self.messages.len() == 0
    }

    /// Removes every message.
    pub fn clear(&mut self)
        ensures
            final(self)@ == Seq::<AgentMessage>::empty(),
            final(self).owner() == old(self).owner(),
    {
        self.messages.clear();
    }
}

} // verus!

verus! {

/// `x + 1`, or `x` when that does not fit.
pub open spec fn sat_inc(x: u64) -> u64 {
    if x < u64::MAX {
        (x + 1) as u64
    } else {
        x
    }
}

/// `x + y`, or `u64::MAX` when that does not fit.
pub open spec fn sat_add(x: u64, y: nat) -> u64 {
    if x + y <= u64::MAX {
        (x + y) as u64
    } else {
        u64::MAX
    }
}

/// Sum of the lengths of the mailboxes in `s`.
pub open spec fn depth_of(s: Seq<Seq<AgentMessage>>) -> nat
    decreases s.len(),
{
    if s.len() == 0 {
        0
    } else {
        depth_of(s.drop_last()) + s.last().len()
    }
}

/// Replacing one mailbox's contents changes the total by the difference in
/// length.
pub proof fn lemma_depth_update(s: Seq<Seq<AgentMessage>>, i: int, v: Seq<AgentMessage>)
    requires
        0 <= i < s.len(),
    ensures
        depth_of(s.update(i, v)) == depth_of(s) - s[i].len() + v.len(),
    decreases s.len(),
{
    if i == s.len() - 1 {
        assert(s.update(i, v).drop_last() =~= s.drop_last());
    } else {
        assert(s.update(i, v).drop_last() =~= s.drop_last().update(i, v));
        lemma_depth_update(s.drop_last(), i, v);
    }
}

/// Empty mailboxes add up to nothing.
pub proof fn lemma_depth_zero(s: Seq<Seq<AgentMessage>>)
    requires
        forall|i: int| 0 <= i < s.len() ==> (#[trigger] s[i]).len() == 0,
    ensures
        depth_of(s) == 0,
    decreases s.len(),
{
    if s.len() > 0 {
        assert forall|i: int| 0 <= i < s.drop_last().len() implies (#[trigger] s.drop_last()[i]).len() == 0 by {
            assert(s.drop_last()[i] == s[i]);
        }
        lemma_depth_zero(s.drop_last());
    }
}

/// The contents of each mailbox, in the bus's order.
pub open spec fn contents(s: Seq<Mailbox>) -> Seq<Seq<AgentMessage>> {
    s.map_values(|m: Mailbox| m@)
}

/// Routes messages to the mailboxes of agents and counts traffic.
pub struct MessageBus {
    mailboxes: Vec<Mailbox>,
    total_sent: u64,
    total_received: u64,
    model: Ghost<Map<AgentId, Seq<AgentMessage>>>,
}

impl View for MessageBus {
    type V = Map<AgentId, Seq<AgentMessage>>;

    /// Each agent that has a mailbox, with what its mailbox holds.
    closed spec fn view(&self) -> Map<AgentId, Seq<AgentMessage>> {
        self.model@
    }
}

impl MessageBus {
    /// Internal consistency: one mailbox per agent, and the model matches
    /// the mailboxes.
    pub closed spec fn wf(&self) -> bool {
        &&& self.model@.dom().finite()
        &&& self.model@.dom().len() == self.mailboxes@.len()
        &&& forall|i: int, j: int|
            0 <= i < self.mailboxes@.len() && 0 <= j < self.mailboxes@.len() && i != j
                ==> (#[trigger] self.mailboxes@[i]).owner() != (#[trigger] self.mailboxes@[j]).owner()
        &&& forall|i: int|
            0 <= i < self.mailboxes@.len() ==> self.model@.contains_key(
                (#[trigger] self.mailboxes@[i]).owner(),
            ) && self.model@[self.mailboxes@[i].owner()] == self.mailboxes@[i]@
        &&& forall|id: AgentId|
            #[trigger] self.model@.contains_key(id) ==> exists|i: int|
                0 <= i < self.mailboxes@.len() && (#[trigger] self.mailboxes@[i]).owner() == id
    }

    /// Total number of queued messages, over all mailboxes.
    pub closed spec fn depth(&self) -> nat {
        depth_of(contents(self.mailboxes@))
    }

    /// The agents that have a mailbox, each once, in the bus's order.
    pub closed spec fn order(&self) -> Seq<AgentId> {
        self.mailboxes@.map_values(|m: Mailbox| m.owner())
    }

    /// The total number of queued messages is the sum, over the agents that
    /// have a mailbox (each counted once), of their mailbox lengths.
    pub proof fn lemma_order(&self)
        requires
            self.wf(),
        ensures
            self.depth() == depth_of(self.order().map_values(|id: AgentId| self@[id])),
            self.order().no_duplicates(),
            forall|i: int| 0 <= i < self.order().len() ==> self@.contains_key(#[trigger] self.order()[i]),
            forall|id: AgentId| #[trigger] self@.contains_key(id) ==> self.order().contains(id),
    {
        let o = self.order();
        assert(contents(self.mailboxes@) =~= o.map_values(|id: AgentId| self@[id]));
        assert forall|id: AgentId| #[trigger] self@.contains_key(id) implies o.contains(id) by {
            let i = choose|i: int| 0 <= i < self.mailboxes@.len() && (#[trigger] self.mailboxes@[i]).owner() == id;
            assert(o[i] == id);
        }
        assert forall|i: int, j: int| 0 <= i < o.len() && 0 <= j < o.len() && i != j implies o[i] != o[j] by {
            assert(self.mailboxes@[i].owner() != self.mailboxes@[j].owner());
        }
    }

    /// A bus whose mailboxes are all empty holds no message.
    pub proof fn lemma_empty_depth(&self)
        requires
            self.wf(),
            forall|id: AgentId| #[trigger] self@.contains_key(id) ==> self@[id].len() == 0,
        ensures
            self.depth() == 0,
    {
        self.lemma_order();
        let s = self.order().map_values(|id: AgentId| self@[id]);
        assert forall|i: int| 0 <= i < s.len() implies (#[trigger] s[i]).len() == 0 by {
            assert(self@.contains_key(self.order()[i]));
        }
        lemma_depth_zero(s);
    }

    /// Messages delivered so far.
    pub closed spec fn sent(&self) -> u64 {
        self.total_sent
    }

    /// Messages marked received so far.
    pub closed spec fn received(&self) -> u64 {
        self.total_received
    }

    /// A bus with no mailbox and zero counters.
    pub fn new() -> (r: MessageBus)
        ensures
            r.wf(),
            r@ == Map::<AgentId, Seq<AgentMessage>>::empty(),
            r.sent() == 0,
            r.received() == 0,
            r.depth() == 0,
    {
        MessageBus {
            mailboxes: Vec::new(),
            total_sent: 0,
            total_received: 0,
            model: Ghost(Map::empty()),
        }
    }

    /// Position of the mailbox of `agent_id`, if there is one.
    fn find(&self, agent_id: AgentId) -> (r: Option<usize>)
        requires
            self.wf(),
        ensures
            r is None <==> !self@.contains_key(agent_id),
            r is Some ==> r->0 < self.mailboxes@.len() && self.mailboxes@[r->0 as int].owner()
                == agent_id,
    {
        let mut i: usize = 0;
        while i < self.mailboxes.len()
            invariant
                self.wf(),
                i <= self.mailboxes@.len(),
                forall|j: int| 0 <= j < i ==> (#[trigger] self.mailboxes@[j]).owner() != agent_id,
            decreases self.mailboxes@.len() - i,
        {
            if self.mailboxes[i].agent_id() == agent_id {
                return Some(i);
            }
            i = i + 1;
        }
        None
    }

    /// Gives `agent_id` a new empty mailbox, replacing any it had.
    pub fn create_mailbox(&mut self, agent_id: AgentId)
        requires
            old(self).wf(),
        ensures
            final(self).wf(),
            final(self)@ == old(self)@.insert(agent_id, Seq::<AgentMessage>::empty()),
            final(self).sent() == old(self).sent(),
            final(self).received() == old(self).received(),
            final(self).depth() + (if old(self)@.contains_key(agent_id) {
                old(self)@[agent_id].len()
            } else {
                0
            }) == old(self).depth(),
    {
        match self.find(agent_id) {
            Some(i) => {
                let ghost before = self.mailboxes@;
                self.mailboxes[i].clear();
                proof {
                    self.model@ = self.model@.insert(agent_id, Seq::empty());
                    assert(self.model@.dom() =~= old(self).model@.dom());
                    assert forall|k: int|
                        0 <= k < self.mailboxes@.len() && k != i implies #[trigger]
                        self.mailboxes@[k] == old(self).mailboxes@[k] by {}
                    assert forall|id: AgentId| #[trigger]
                        self.model@.contains_key(id) implies exists|k: int|
                            0 <= k < self.mailboxes@.len() && (#[trigger] self.mailboxes@[k]).owner()
                                == id by {
                        let k = choose|k: int|
                            0 <= k < old(self).mailboxes@.len() && (#[trigger] old(
                                self,
                            ).mailboxes@[k]).owner() == id;
                        assert(self.mailboxes@[k].owner() == id);
                    }
                    assert(contents(self.mailboxes@) =~= contents(before).update(
                        i as int,
                        self.mailboxes@[i as int]@,
                    ));
                    lemma_depth_update(contents(before), i as int, self.mailboxes@[i as int]@);
                }
            },
            None => {
                let ghost before = self.mailboxes@;
                self.mailboxes.push(Mailbox::new(agent_id));
                proof {
                    assert(contents(self.mailboxes@).drop_last() =~= contents(before));
                    self.model@ = self.model@.insert(agent_id, Seq::empty());
                    assert(!old(self).model@.dom().contains(agent_id));
                    assert(self.model@.dom() =~= old(self).model@.dom().insert(agent_id));
                    let n = self.mailboxes@.len() - 1;
                    assert forall|id: AgentId| #[trigger]
                        self.model@.contains_key(id) implies exists|i: int|
                            0 <= i < self.mailboxes@.len() && (#[trigger] self.mailboxes@[i]).owner()
                                == id by {
                        if id == agent_id {
                            assert(self.mailboxes@[n].owner() == id);
                        } else {
                            assert(old(self).model@.contains_key(id));
                            let i = choose|i: int|
                                0 <= i < old(self).mailboxes@.len() && (#[trigger] old(
                                    self,
                                ).mailboxes@[i]).owner() == id;
                            assert(self.mailboxes@[i] == old(self).mailboxes@[i]);
                        }
                    }
                }
            },
        }
    }

    /// Removes the mailbox of `agent_id`; says whether there was one.
    pub fn remove_mailbox(&mut self, agent_id: AgentId) -> (r: bool)
        requires
            old(self).wf(),
        ensures
            final(self).wf(),
            r == old(self)@.contains_key(agent_id),
            final(self)@ == old(self)@.remove(agent_id),
            final(self).sent() == old(self).sent(),
            final(self).received() == old(self).received(),
    {
        match self.find(agent_id) {
            Some(i) => {
                let ghost before = self.mailboxes@;
                self.mailboxes.remove(i);
                proof {
                    self.model@ = self.model@.remove(agent_id);
                    assert forall|k: int| 0 <= k < self.mailboxes@.len() implies #[trigger]
                        self.mailboxes@[k] == before[if k < i {
                            k
                        } else {
                            k + 1
                        }] by {}
                    assert forall|id: AgentId| #[trigger]
                        self.model@.contains_key(id) implies exists|k: int|
                            0 <= k < self.mailboxes@.len() && (#[trigger] self.mailboxes@[k]).owner()
                                == id by {
                        let j = choose|j: int|
                            0 <= j < before.len() && (#[trigger] before[j]).owner() == id;
                        if j < i {
                            assert(self.mailboxes@[j] == before[j]);
                        } else {
                            assert(j != i);
                            assert(self.mailboxes@[j - 1] == before[j]);
                        }
                    }
                }
                true
            },
            None => {
                proof {
                    assert(self.model@.remove(agent_id) =~= self.model@);
                }
                false
            },
        }
    }

    /// The mailbox of `agent_id`, if it has one.
    pub fn get_mailbox(&self, agent_id: AgentId) -> (r: Option<&Mailbox>)
        requires
            self.wf(),
        ensures
            r is Some <==> self@.contains_key(agent_id),
            r is Some ==> r->0@ == self@[agent_id] && r->0.owner() == agent_id,
    {
        match self.find(agent_id) {
            Some(i) => Some(&self.mailboxes[i]),
            None => None,
        }
    }

    /// Delivers `message` to the mailbox of its recipient. Fails, changing
    /// nothing, when the recipient has no mailbox.
    pub fn send(&mut self, message: AgentMessage) -> (r: Result<(), String>)
        requires
            old(self).wf(),
        ensures
            final(self).wf(),
            final(self).received() == old(self).received(),
            r is Ok <==> old(self)@.contains_key(message.to),
            r is Ok ==> final(self)@ == old(self)@.insert(
                message.to,
                old(self)@[message.to].push(message),
            ) && final(self).sent() == sat_inc(old(self).sent()) && final(self).depth()
                == old(self).depth() + 1,
            r is Err ==> final(self)@ == old(self)@ && final(self).sent() == old(self).sent()
                && final(self).depth() == old(self).depth(),
    {
        let to = message.to;
        match self.find(to) {
            Some(i) => {
                let ghost before = self.mailboxes@;
                self.mailboxes[i].push(message);
                proof {
                    self.model@ = self.model@.insert(to, self.mailboxes@[i as int]@);
                    assert(self.model@.dom() =~= old(self).model@.dom());
                    assert forall|k: int|
                        0 <= k < self.mailboxes@.len() && k != i implies #[trigger]
                        self.mailboxes@[k] == before[k] by {}
                    assert forall|id: AgentId| #[trigger]
                        self.model@.contains_key(id) implies exists|k: int|
                            0 <= k < self.mailboxes@.len() && (#[trigger] self.mailboxes@[k]).owner()
                                == id by {
                        let k = choose|k: int|
                            0 <= k < before.len() && (#[trigger] before[k]).owner() == id;
                        assert(self.mailboxes@[k].owner() == id);
                    }
                    assert forall|k: int|
                        0 <= k < self.mailboxes@.len() implies self.model@.contains_key(
                            (#[trigger] self.mailboxes@[k]).owner(),
                        ) && self.model@[self.mailboxes@[k].owner()] == self.mailboxes@[k]@ by {
                        if k != i {
                            assert(before[k].owner() != before[i as int].owner());
                        }
                    }
                    assert forall|a: int, b: int|
                        0 <= a < self.mailboxes@.len() && 0 <= b < self.mailboxes@.len() && a != b
                            implies (#[trigger] self.mailboxes@[a]).owner() != (
                        #[trigger] self.mailboxes@[b]).owner() by {
                        assert(before[a].owner() != before[b].owner());
                    }
                    assert(self.model@.dom().len() == self.mailboxes@.len());
                    assert(contents(self.mailboxes@) =~= contents(before).update(
                        i as int,
                        self.mailboxes@[i as int]@,
                    ));
                    lemma_depth_update(contents(before), i as int, self.mailboxes@[i as int]@);
                }
                assert(self.wf());
                if self.total_sent < u64::MAX {
                    self.total_sent = self.total_sent + 1;
                }
                assert(self.wf());
                Ok(())
            },
            None => {
                assert(self.wf());
                Err(String::from_str("Mailbox not found for the recipient agent"))
            },
        }
    }

    /// Delivers a copy of `message`, addressed to each agent in turn, to
    /// every mailbox but the sender's; returns how many copies were delivered.
    pub fn broadcast(&mut self, message: AgentMessage) -> (r: usize)
        requires
            old(self).wf(),
        ensures
            final(self).wf(),
            r == old(self)@.dom().len() - (if old(self)@.contains_key(message.from) {
                1int
            } else {
                0int
            }),
            final(self)@.dom() == old(self)@.dom(),
            forall|id: AgentId|
                #[trigger] old(self)@.contains_key(id) && id != message.from ==> final(self)@[id].len()
                    == old(self)@[id].len() + 1 && final(self)@[id].drop_last() == old(self)@[id]
                    && same_message(
                    final(self)@[id].last(),
                    AgentMessage { to: id, ..message },
                ),
            old(self)@.contains_key(message.from) ==> final(self)@[message.from] == old(
                self,
            )@[message.from],
            final(self).depth() == old(self).depth() + r,
            final(self).sent() == sat_add(old(self).sent(), r as nat),
            final(self).received() == old(self).received(),
    {
        let ghost before = self.mailboxes@;
        let ghost from = message.from;
        let mut sent: usize = 0;
        let mut i: usize = 0;
        while i < self.mailboxes.len()
            invariant
                i <= self.mailboxes@.len() == before.len(),
                from == message.from,
                self.total_sent == old(self).total_sent,
                self.total_received == old(self).total_received,
                self.model@.dom() == old(self).model@.dom(),
                old(self).wf(),
                old(self).mailboxes@ == before,
                forall|k: int|
                    0 <= k < before.len() ==> (#[trigger] self.mailboxes@[k]).owner() == before[k].owner(),
                forall|k: int|
                    0 <= k < before.len() ==> self.model@[(#[trigger] self.mailboxes@[k]).owner()]
                        == self.mailboxes@[k]@,
                forall|k: int| i <= k < before.len() ==> #[trigger] self.mailboxes@[k] == before[k],
                forall|k: int|
                    0 <= k < i && before[k].owner() == from ==> #[trigger] self.mailboxes@[k]
                        == before[k],
                forall|k: int|
                    0 <= k < i && before[k].owner() != from ==> (#[trigger] self.mailboxes@[k])@
                        == before[k]@.push(self.mailboxes@[k]@.last()) && same_message(
                        self.mailboxes@[k]@.last(),
                        AgentMessage { to: before[k].owner(), ..message },
                    ),
                sent == i - (if exists|k: int| 0 <= k < i && (#[trigger] before[k]).owner() == from {
                    1int
                } else {
                    0int
                }),
                depth_of(contents(self.mailboxes@)) == depth_of(contents(before)) + sent,
            decreases before.len() - i,
        {
            assert(self.mailboxes@[i as int] == before[i as int]);
            let owner = self.mailboxes[i].agent_id();
            if owner != message.from {
                let copy = message.readdressed(owner);
                let ghost prev = self.mailboxes@;
                self.mailboxes[i].push(copy);
                proof {
                    self.model@ = self.model@.insert(owner, self.mailboxes@[i as int]@);
                    assert(self.model@.dom() =~= old(self).model@.dom());
                    assert forall|k: int|
                        0 <= k < before.len() && k != i implies #[trigger] self.mailboxes@[k]
                        == prev[k] by {}
                    assert(contents(self.mailboxes@) =~= contents(prev).update(
                        i as int,
                        self.mailboxes@[i as int]@,
                    ));
                    lemma_depth_update(contents(prev), i as int, self.mailboxes@[i as int]@);
                    if exists|k: int| 0 <= k < i + 1 && (#[trigger] before[k]).owner() == from {
                        let k = choose|k: int| 0 <= k < i + 1 && (#[trigger] before[k]).owner() == from;
                        assert(k != i);
                    }
                    assert forall|k: int|
                        0 <= k < before.len() implies self.model@[(#[trigger] self.mailboxes@[k]).owner()]
                        == self.mailboxes@[k]@ by {
                        if k != i {
                            assert(before[k].owner() != before[i as int].owner());
                        }
                    }
                }
                sent = sent + 1;
            } else {
                proof {
                    if exists|k: int| 0 <= k < i && (#[trigger] before[k]).owner() == from {
                        let k = choose|k: int| 0 <= k < i && (#[trigger] before[k]).owner() == from;
                        assert(before[k].owner() != before[i as int].owner());
                    }
                    assert(before[i as int].owner() == from);
                }
            }
            i = i + 1;
        }
        proof {
            assert(self.model@.dom().len() == before.len());
            assert forall|a: int, b: int|
                0 <= a < self.mailboxes@.len() && 0 <= b < self.mailboxes@.len() && a != b
                    implies (#[trigger] self.mailboxes@[a]).owner() != (
                #[trigger] self.mailboxes@[b]).owner() by {
                assert(before[a].owner() != before[b].owner());
            }
            if old(self)@.contains_key(from) {
                let k = choose|k: int| 0 <= k < before.len() && (#[trigger] before[k]).owner() == from;
                assert(before[k].owner() == from);
            } else {
                if exists|k: int| 0 <= k < before.len() && (#[trigger] before[k]).owner() == from {
                    let k = choose|k: int| 0 <= k < before.len() && (#[trigger] before[k]).owner() == from;
                    assert(old(self).model@.contains_key(before[k].owner()));
                }
            }
            assert forall|id: AgentId|
                #[trigger] self.model@.contains_key(id) implies exists|k: int|
                    0 <= k < self.mailboxes@.len() && (#[trigger] self.mailboxes@[k]).owner() == id by {
                let k = choose|k: int| 0 <= k < before.len() && (#[trigger] before[k]).owner() == id;
                assert(self.mailboxes@[k].owner() == id);
            }
            assert forall|id: AgentId|
                #[trigger] old(self)@.contains_key(id) && id != from implies self@[id].len()
                    == old(self)@[id].len() + 1 && self@[id].drop_last() == old(self)@[id]
                    && same_message(self@[id].last(), AgentMessage { to: id, ..message }) by {
                let k = choose|k: int| 0 <= k < before.len() && (#[trigger] before[k]).owner() == id;
                assert(self.mailboxes@[k]@.drop_last() =~= before[k]@);
            }
            if old(self)@.contains_key(from) {
                let k = choose|k: int| 0 <= k < before.len() && (#[trigger] before[k]).owner() == from;
                assert(self.mailboxes@[k] == before[k]);
            }
        }
        if self.total_sent as u128 + sent as u128 <= u64::MAX as u128 {
            self.total_sent = self.total_sent + sent as u64;
        } else {
            self.total_sent = u64::MAX;
        }
        sent
    }

    /// Total number of queued messages over all mailboxes (saturating at
    /// `usize::MAX`).
    pub fn queue_depth(&self) -> (r: usize)
        requires
            self.wf(),
        ensures
            r == if self.depth() <= usize::MAX {
                self.depth()
            } else {
                usize::MAX as nat
            },
            self.depth() == depth_of(self.order().map_values(|id: AgentId| self@[id])),
            self.order().no_duplicates(),
            forall|i: int| 0 <= i < self.order().len() ==> self@.contains_key(#[trigger] self.order()[i]),
            forall|id: AgentId| #[trigger] self@.contains_key(id) ==> self.order().contains(id),
    {
        proof {
            self.lemma_order();
        }
        let mut total: usize = 0;
        let mut i: usize = 0;
        while i < self.mailboxes.len()
            invariant
                i <= self.mailboxes@.len(),
                total == if depth_of(contents(self.mailboxes@.subrange(0, i as int)))
                    <= usize::MAX {
                    depth_of(contents(self.mailboxes@.subrange(0, i as int)))
                } else {
                    usize::MAX as nat
                },
            decreases self.mailboxes@.len() - i,
        {
            let n = self.mailboxes[i].len();
            proof {
                let s = contents(self.mailboxes@.subrange(0, i + 1));
                assert(s.drop_last() =~= contents(self.mailboxes@.subrange(0, i as int)));
            }
            if total as u128 + n as u128 <= usize::MAX as u128 {
                total = total + n;
            } else {
                total = usize::MAX;
            }
            i = i + 1;
        }
        assert(self.mailboxes@.subrange(0, i as int) =~= self.mailboxes@);
        total
    }

    /// Removes and returns a message of the highest priority from the
    /// mailbox of `agent_id`; `None` when it has no mailbox or an empty one.
    pub fn pop_from(&mut self, agent_id: AgentId) -> (r: Option<AgentMessage>)
        requires
            old(self).wf(),
        ensures
            final(self).wf(),
            final(self).sent() == old(self).sent(),
            final(self).received() == old(self).received(),
            final(self)@.dom() == old(self)@.dom(),
            r is None ==> final(self)@ == old(self)@ && final(self).depth() == old(self).depth()
                && (!old(self)@.contains_key(agent_id) || old(self)@[agent_id].len() == 0),
            r is Some ==> old(self)@.contains_key(agent_id) && exists|i: int|
                #[trigger] is_top(old(self)@[agent_id], i) && old(self)@[agent_id][i] == r->0
                    && final(self)@ == old(self)@.insert(
                    agent_id,
                    old(self)@[agent_id].remove(i),
                ),
            r is Some ==> final(self).depth() + 1 == old(self).depth(),
    {
        match self.find(agent_id) {
            Some(i) => {
                let ghost before = self.mailboxes@;
                let r = self.mailboxes[i].pop();
                proof {
                    if r is Some {
                        self.model@ = self.model@.insert(agent_id, self.mailboxes@[i as int]@);
                    }
                    assert(self.model@.dom() =~= old(self).model@.dom());
                    assert forall|k: int|
                        0 <= k < self.mailboxes@.len() && k != i implies #[trigger]
                        self.mailboxes@[k] == before[k] by {}
                    assert forall|id: AgentId| #[trigger]
                        self.model@.contains_key(id) implies exists|k: int|
                            0 <= k < self.mailboxes@.len() && (#[trigger] self.mailboxes@[k]).owner()
                                == id by {
                        let k = choose|k: int|
                            0 <= k < before.len() && (#[trigger] before[k]).owner() == id;
                        assert(self.mailboxes@[k].owner() == id);
                    }
                    assert(contents(self.mailboxes@) =~= contents(before).update(
                        i as int,
                        self.mailboxes@[i as int]@,
                    ));
                    lemma_depth_update(contents(before), i as int, self.mailboxes@[i as int]@);
                    if r is None {
                        assert(self.model@ =~= old(self).model@);
                    }
                }
                r
            },
            None => None,
        }
    }

    /// Messages delivered so far.
    pub fn total_sent(&self) -> (r: u64)
        ensures
            r == self.sent(),
    {
        self.total_sent
    }

    /// Messages marked received so far.
    pub fn total_received(&self) -> (r: u64)
        ensures
            r == self.received(),
    {
        self.total_received
    }

    /// Counts one message as received by its consumer (saturating).
    pub fn mark_received(&mut self)
        requires
            old(self).wf(),
        ensures
            final(self).wf(),
            final(self)@ == old(self)@,
            final(self).depth() == old(self).depth(),
            final(self).sent() == old(self).sent(),
            final(self).received() == sat_inc(old(self).received()),
    {
        if self.total_received < u64::MAX {
            self.total_received = self.total_received + 1;
        }
    }
}

} // verus!
