//! The registry of agents: immutable configuration and mutable metadata,
//! keyed by a freshly minted identifier.

use vstd::prelude::*;
use vstd::set_lib::lemma_len_subset;
use crate::agent::{
    AgentConfig, AgentId, AgentMetadata, AgentRole, AgentStatus, same_config, same_role,
};

verus! {

/// One registered agent.
pub struct RegisteredAgent {
    pub metadata: AgentMetadata,
    pub config: AgentConfig,
}

/// The identifiers below `n`.
spec fn ids_below(n: nat) -> Set<AgentId> {
    Set::new(|x: AgentId| (x as nat) < n)
}

proof fn lemma_ids_below_len(n: nat)
    requires
        n <= u128::MAX as nat + 1,
    ensures
        ids_below(n).finite(),
        ids_below(n).len() == n,
    decreases n,
{
    if n == 0 {
        assert(ids_below(0) =~= Set::<AgentId>::empty());
    } else {
        lemma_ids_below_len((n - 1) as nat);
        let top = (n - 1) as AgentId;
        assert(ids_below(n) =~= ids_below((n - 1) as nat).insert(top));
    }
}

/// Registers agents, stores their configuration and tracks their status.
pub struct AgentRegistry {
    agents: Vec<RegisteredAgent>,
    model: Ghost<Map<AgentId, (AgentMetadata, AgentConfig)>>,
}

impl View for AgentRegistry {
    type V = Map<AgentId, (AgentMetadata, AgentConfig)>;

    /// Each registered agent with its metadata and configuration.
    closed spec fn view(&self) -> Map<AgentId, (AgentMetadata, AgentConfig)> {
        self.model@
    }
}

impl AgentRegistry {
    /// Internal consistency: one entry per identifier, matching the model.
    pub closed spec fn wf(&self) -> bool {
        &&& self.model@.dom().finite()
        &&& self.model@.dom().len() == self.agents@.len()
        &&& forall|i: int, j: int|
            0 <= i < self.agents@.len() && 0 <= j < self.agents@.len() && i != j
                ==> (#[trigger] self.agents@[i]).metadata.id != (#[trigger] self.agents@[j]).metadata.id
        &&& forall|i: int|
            0 <= i < self.agents@.len() ==> self.model@.contains_key(
                (#[trigger] self.agents@[i]).metadata.id,
            ) && self.model@[self.agents@[i].metadata.id] == (
                self.agents@[i].metadata,
                self.agents@[i].config,
            )
        &&& forall|id: AgentId|
            #[trigger] self.model@.contains_key(id) ==> exists|i: int|
                0 <= i < self.agents@.len() && (#[trigger] self.agents@[i]).metadata.id == id
    }

    /// An empty registry.
    pub fn new() -> (r: AgentRegistry)
        ensures
            r.wf(),
            r@.dom().finite(),
            r@ == Map::<AgentId, (AgentMetadata, AgentConfig)>::empty(),
    {
        AgentRegistry { agents: Vec::new(), model: Ghost(Map::empty()) }
    }

    /// Position of `agent_id`, if registered.
    fn find(&self, agent_id: AgentId) -> (r: Option<usize>)
        requires
            self.wf(),
        ensures
            r is None <==> !self@.contains_key(agent_id),
            r is Some ==> r->0 < self.agents@.len() && self.agents@[r->0 as int].metadata.id
                == agent_id,
    {
        let mut i: usize = 0;
        while i < self.agents.len()
            invariant
                self.wf(),
                i <= self.agents@.len(),
                forall|j: int| 0 <= j < i ==> (#[trigger] self.agents@[j]).metadata.id != agent_id,
            decreases self.agents@.len() - i,
        {
            if self.agents[i].metadata.id == agent_id {
                return Some(i);
            }
            i = i + 1;
        }
        None
    }

    /// An identifier that no registered agent has: a random one, or, should
    /// that be taken, the smallest free one.
    fn fresh_id(&self) -> (r: AgentId)
        requires
            self.wf(),
        ensures
            !self@.contains_key(r),
    {
        let drawn = crate::sources::fresh_u128();
        if self.find(drawn).is_none() {
            return drawn;
        }
        let n = self.agents.len();
        let mut c: u128 = 0;
        loop
            invariant
                self.wf(),
                n == self.agents@.len(),
                c as nat <= n,
                forall|x: AgentId| (x as nat) < (c as nat) ==> #[trigger] self@.contains_key(x),
            decreases n - c,
        {
            if self.find(c).is_none() {
                return c;
            }
            proof {
                if c as nat == n {
                    lemma_ids_below_len(n as nat + 1);
                    assert(ids_below(n as nat + 1).subset_of(self@.dom()));
                    lemma_len_subset(ids_below(n as nat + 1), self@.dom());
                }
            }
            c = c + 1;
        }
    }

    /// Registers an agent under a fresh identifier, with status `Idle`, and
    /// returns the identifier.
    pub fn register(&mut self, config: AgentConfig) -> (r: AgentId)
        requires
            old(self).wf(),
        ensures
            final(self).wf(),
            final(self)@.dom().finite(),
            !old(self)@.contains_key(r),
            final(self)@ == old(self)@.insert(r, (final(self)@[r].0, config)),
            final(self)@[r].0.id == r,
            final(self)@[r].0.name == config.name,
            final(self)@[r].0.role == config.role,
            final(self)@[r].0.connector_type == config.connector_type,
            final(self)@[r].0.status == AgentStatus::Idle,
    {
        let id = self.fresh_id();
        let metadata = AgentMetadata {
            id,
            name: config.name.clone(),
            role: config.role.duplicate(),
            status: AgentStatus::Idle,
            connector_type: config.connector_type.clone(),
            created_at: crate::sources::now_millis(),
        };
        let ghost entry = (metadata, config);
        self.agents.push(RegisteredAgent { metadata, config });
        proof {
            self.model@ = self.model@.insert(id, entry);
            assert(self.model@.dom() =~= old(self).model@.dom().insert(id));
            let n = self.agents@.len() - 1;
            assert forall|i: int| 0 <= i < n implies #[trigger] self.agents@[i].metadata.id != id by {
                assert(old(self).model@.contains_key(old(self).agents@[i].metadata.id));
            }
            assert forall|k: int|
                0 <= k < self.agents@.len() implies self.model@.contains_key(
                    (#[trigger] self.agents@[k]).metadata.id,
                ) && self.model@[self.agents@[k].metadata.id] == (
                    self.agents@[k].metadata,
                    self.agents@[k].config,
                ) by {
                if k < n {
                    assert(self.agents@[k] == old(self).agents@[k]);
                }
            }
            assert forall|x: AgentId| #[trigger]
                self.model@.contains_key(x) implies exists|i: int|
                    0 <= i < self.agents@.len() && (#[trigger] self.agents@[i]).metadata.id == x by {
                if x == id {
                    assert(self.agents@[n].metadata.id == x);
                } else {
                    let i = choose|i: int|
                        0 <= i < old(self).agents@.len() && (#[trigger] old(
                            self,
                        ).agents@[i]).metadata.id == x;
                    assert(self.agents@[i] == old(self).agents@[i]);
                }
            }
        }
        id
    }

    /// Removes an agent; says whether it was registered.
    pub fn unregister(&mut self, agent_id: AgentId) -> (r: bool)
        requires
            old(self).wf(),
        ensures
            final(self).wf(),
            final(self)@.dom().finite(),
            r == old(self)@.contains_key(agent_id),
            final(self)@ == old(self)@.remove(agent_id),
    {
        match self.find(agent_id) {
            Some(i) => {
                let ghost before = self.agents@;
                self.agents.remove(i);
                proof {
                    self.model@ = self.model@.remove(agent_id);
                    assert forall|k: int| 0 <= k < self.agents@.len() implies #[trigger]
                        self.agents@[k] == before[if k < i {
                            k
                        } else {
                            k + 1
                        }] by {}
                    assert forall|a: int, b: int|
                        0 <= a < self.agents@.len() && 0 <= b < self.agents@.len() && a != b
                            implies (#[trigger] self.agents@[a]).metadata.id != (
                        #[trigger] self.agents@[b]).metadata.id by {
                        let a2 = if a < i { a } else { a + 1 };
                        let b2 = if b < i { b } else { b + 1 };
                        assert(self.agents@[a] == before[a2]);
                        assert(self.agents@[b] == before[b2]);
                    }
                    assert forall|k: int|
                        0 <= k < self.agents@.len() implies self.model@.contains_key(
                            (#[trigger] self.agents@[k]).metadata.id,
                        ) && self.model@[self.agents@[k].metadata.id] == (
                            self.agents@[k].metadata,
                            self.agents@[k].config,
                        ) by {
                        let k2 = if k < i { k } else { k + 1 };
                        assert(self.agents@[k] == before[k2]);
                        assert(before[k2].metadata.id != before[i as int].metadata.id);
                    }
                    assert forall|id: AgentId| #[trigger]
                        self.model@.contains_key(id) implies exists|k: int|
                            0 <= k < self.agents@.len() && (#[trigger] self.agents@[k]).metadata.id
                                == id by {
                        let j = choose|j: int|
                            0 <= j < before.len() && (#[trigger] before[j]).metadata.id == id;
                        if j < i {
                            assert(self.agents@[j] == before[j]);
                        } else {
                            assert(j != i);
                            assert(self.agents@[j - 1] == before[j]);
                        }
                    }
                }
                true
            },
            None => {
                proof {
                    assert(self.model@.remove(agent_id) =~= self.model@);
                }
                false
            },
        }
    }

    /// A copy of the metadata of `agent_id`, if registered.
    pub fn get_metadata(&self, agent_id: AgentId) -> (r: Option<AgentMetadata>)
        requires
            self.wf(),
        ensures
            r is Some <==> self@.contains_key(agent_id),
            r is Some ==> r->0 == self@[agent_id].0,
    {
        match self.find(agent_id) {
            Some(i) => Some(self.agents[i].metadata.duplicate()),
            None => None,
        }
    }

    /// A copy of the configuration of `agent_id`, if registered.
    pub fn get_config(&self, agent_id: AgentId) -> (r: Option<AgentConfig>)
        requires
            self.wf(),
        ensures
            r is Some <==> self@.contains_key(agent_id),
            r is Some ==> same_config(r->0, self@[agent_id].1),
    {
        match self.find(agent_id) {
            Some(i) => Some(self.agents[i].config.duplicate()),
            None => None,
        }
    }

    /// Sets the status of `agent_id`; says whether it is registered.
    pub fn update_status(&mut self, agent_id: AgentId, status: AgentStatus) -> (r: bool)
        requires
            old(self).wf(),
        ensures
            final(self).wf(),
            final(self)@.dom().finite(),
            r == old(self)@.contains_key(agent_id),
            r ==> final(self)@ == old(self)@.insert(
                agent_id,
                (AgentMetadata { status, ..old(self)@[agent_id].0 }, old(self)@[agent_id].1),
            ),
            !r ==> final(self)@ == old(self)@,
    {
        match self.find(agent_id) {
            Some(i) => {
                let ghost before = self.agents@;
                self.agents[i].metadata.status = status;
                proof {
                    self.model@ = self.model@.insert(
                        agent_id,
                        (self.agents@[i as int].metadata, self.agents@[i as int].config),
                    );
                    assert(self.model@.dom() =~= old(self).model@.dom());
                    assert forall|k: int|
                        0 <= k < self.agents@.len() && k != i implies #[trigger] self.agents@[k]
                        == before[k] by {}
                    assert forall|a: int, b: int|
                        0 <= a < self.agents@.len() && 0 <= b < self.agents@.len() && a != b
                            implies (#[trigger] self.agents@[a]).metadata.id != (
                        #[trigger] self.agents@[b]).metadata.id by {
                        assert(before[a].metadata.id != before[b].metadata.id);
                    }
                    assert forall|k: int|
                        0 <= k < self.agents@.len() implies self.model@.contains_key(
                            (#[trigger] self.agents@[k]).metadata.id,
                        ) && self.model@[self.agents@[k].metadata.id] == (
                            self.agents@[k].metadata,
                            self.agents@[k].config,
                        ) by {
                        if k != i {
                            assert(before[k].metadata.id != before[i as int].metadata.id);
                        }
                    }
                    assert forall|id: AgentId| #[trigger]
                        self.model@.contains_key(id) implies exists|k: int|
                            0 <= k < self.agents@.len() && (#[trigger] self.agents@[k]).metadata.id
                                == id by {
                        let k = choose|k: int|
                            0 <= k < before.len() && (#[trigger] before[k]).metadata.id == id;
                        assert(self.agents@[k].metadata.id == id);
                    }
                    assert(self.wf());
                }
                true
            },
            None => false,
        }
    }

    /// Copies of the metadata of every registered agent, each once.
    pub fn list_agents(&self) -> (r: Vec<AgentMetadata>)
        requires
            self.wf(),
        ensures
            r@.len() == self@.dom().len(),
            forall|i: int|
                0 <= i < r@.len() ==> self@.contains_key((#[trigger] r@[i]).id) && r@[i]
                    == self@[r@[i].id].0,
            forall|id: AgentId|
                #[trigger] self@.contains_key(id) ==> exists|i: int|
                    0 <= i < r@.len() && (#[trigger] r@[i]).id == id,
            forall|i: int, j: int|
                0 <= i < r@.len() && 0 <= j < r@.len() && i != j ==> (#[trigger] r@[i]).id != (
                #[trigger] r@[j]).id,
    {
        let mut r: Vec<AgentMetadata> = Vec::new();
        let mut i: usize = 0;
        while i < self.agents.len()
            invariant
                self.wf(),
                i <= self.agents@.len(),
                r@.len() == i,
                forall|j: int| 0 <= j < i ==> #[trigger] r@[j] == self.agents@[j].metadata,
            decreases self.agents@.len() - i,
        {
            r.push(self.agents[i].metadata.duplicate());
            i = i + 1;
        }
        proof {
            assert forall|id: AgentId| #[trigger] self@.contains_key(id) implies exists|k: int|
                0 <= k < r@.len() && (#[trigger] r@[k]).id == id by {
                let k = choose|k: int|
                    0 <= k < self.agents@.len() && (#[trigger] self.agents@[k]).metadata.id == id;
                assert(r@[k].id == id);
            }
            assert forall|k: int| 0 <= k < r@.len() implies self@.contains_key(
                (#[trigger] r@[k]).id,
            ) && r@[k] == self@[r@[k].id].0 by {
                assert(r@[k] == self.agents@[k].metadata);
            }
        }
        r
    }

    /// Copies of the metadata of every registered agent whose role is `role`.
    pub fn list_by_role(&self, role: AgentRole) -> (r: Vec<AgentMetadata>)
        requires
            self.wf(),
        ensures
            forall|i: int|
                0 <= i < r@.len() ==> self@.contains_key((#[trigger] r@[i]).id) && r@[i]
                    == self@[r@[i].id].0 && same_role(r@[i].role, role),
            forall|id: AgentId|
                #[trigger] self@.contains_key(id) && same_role(self@[id].0.role, role)
                    ==> exists|i: int| 0 <= i < r@.len() && (#[trigger] r@[i]).id == id,
            forall|i: int, j: int|
                0 <= i < r@.len() && 0 <= j < r@.len() && i != j ==> (#[trigger] r@[i]).id != (
                #[trigger] r@[j]).id,
    {
        let mut r: Vec<AgentMetadata> = Vec::new();
        let ghost mut from: Seq<int> = Seq::empty();
        let mut i: usize = 0;
        while i < self.agents.len()
            invariant
                self.wf(),
                i <= self.agents@.len(),
                from.len() == r@.len(),
                forall|j: int|
                    0 <= j < r@.len() ==> 0 <= #[trigger] from[j] < i && r@[j]
                        == self.agents@[from[j]].metadata && same_role(r@[j].role, role),
                forall|a: int, b: int| 0 <= a < b < from.len() ==> from[a] < from[b],
                forall|k: int|
                    0 <= k < i && same_role(#[trigger] self.agents@[k].metadata.role, role)
                        ==> exists|j: int| 0 <= j < from.len() && from[j] == k,
            decreases self.agents@.len() - i,
        {
            if self.agents[i].metadata.role == role {
                r.push(self.agents[i].metadata.duplicate());
                proof {
                    let ghost prev = from;
                    from = from.push(i as int);
                    assert forall|k: int|
                        0 <= k < i + 1 && same_role(
                            #[trigger] self.agents@[k].metadata.role,
                            role,
                        ) implies exists|j: int| 0 <= j < from.len() && from[j] == k by {
                        if k == i {
                            assert(from[from.len() - 1] == k);
                        } else {
                            let j = choose|j: int| 0 <= j < prev.len() && prev[j] == k;
                            assert(from[j] == k);
                        }
                    }
                }
            }
            i = i + 1;
        }
        proof {
            assert forall|k: int| 0 <= k < r@.len() implies self@.contains_key(
                (#[trigger] r@[k]).id,
            ) && r@[k] == self@[r@[k].id].0 && same_role(r@[k].role, role) by {
                assert(r@[k] == self.agents@[from[k]].metadata);
            }
            assert forall|id: AgentId|
                #[trigger] self@.contains_key(id) && same_role(self@[id].0.role, role)
                    implies exists|k: int| 0 <= k < r@.len() && (#[trigger] r@[k]).id == id by {
                let k = choose|k: int|
                    0 <= k < self.agents@.len() && (#[trigger] self.agents@[k]).metadata.id == id;
                assert(same_role(self.agents@[k].metadata.role, role));
                let j = choose|j: int| 0 <= j < from.len() && from[j] == k;
                assert(r@[j].id == id);
            }
            assert forall|a: int, b: int|
                0 <= a < r@.len() && 0 <= b < r@.len() && a != b implies (#[trigger] r@[a]).id
                    != (#[trigger] r@[b]).id by {
                assert(from[a] != from[b]);
                assert(r@[a] == self.agents@[from[a]].metadata);
                assert(r@[b] == self.agents@[from[b]].metadata);
            }
        }
        r
    }

    /// Number of registered agents.
    pub fn count(&self) -> (r: usize)
        requires
            self.wf(),
        ensures
            r == self@.dom().len(),
            self@.dom().finite(),
    {
        self.agents.len()
    }
}

/// Registering an agent and then unregistering it leaves the number of
/// registered agents as it was.
pub proof fn lemma_register_unregister_count(
    before: AgentRegistry,
    registered: AgentRegistry,
    after: AgentRegistry,
    id: AgentId,
    entry: (AgentMetadata, AgentConfig),
)
    requires
        before.wf(),
        !before@.contains_key(id),
        registered@ == before@.insert(id, entry),
        after@ == registered@.remove(id),
    ensures
        after@.dom().len() == before@.dom().len(),
        after@ == before@,
{
    assert(after@ =~= before@);
}

} // verus!
