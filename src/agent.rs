//! Agents, their configuration and the messages that pass between them.

use vstd::prelude::*;

verus! {

/// Identifier of a registered agent.
pub type AgentId = u128;

/// Identifier of a message.
pub type MessageId = u128;

/// Role of an agent.
#[derive(Debug, Clone)]
pub enum AgentRole {
    /// Coordinator agent that manages other agents
    Coordinator,
    /// Worker agent that performs tasks
    Worker,
    /// Agent that checks the work of others
    Reviewer,
    /// A role named by the caller
    Custom(String),
}

/// Two roles are the same role: the same variant, and for a custom role the
/// same name.
pub open spec fn same_role(a: AgentRole, b: AgentRole) -> bool {
    match (a, b) {
        (AgentRole::Coordinator, AgentRole::Coordinator) => true,
        (AgentRole::Worker, AgentRole::Worker) => true,
        (AgentRole::Reviewer, AgentRole::Reviewer) => true,
        (AgentRole::Custom(x), AgentRole::Custom(y)) => x@ == y@,
        _ => false,
    }
}

impl PartialEq for AgentRole {
    fn eq(&self, other: &AgentRole) -> (r: bool)
        ensures
            r == same_role(*self, *other),
    {
        match (self, other) {
            (AgentRole::Coordinator, AgentRole::Coordinator) => true,
            (AgentRole::Worker, AgentRole::Worker) => true,
            (AgentRole::Reviewer, AgentRole::Reviewer) => true,
            (AgentRole::Custom(x), AgentRole::Custom(y)) => x.eq(y),
            _ => false,
        }
    }
}

impl vstd::std_specs::cmp::PartialEqSpecImpl for AgentRole {
    open spec fn obeys_eq_spec() -> bool {
        true
    }

    open spec fn eq_spec(&self, other: &AgentRole) -> bool {
        same_role(*self, *other)
    }
}

impl AgentRole {
    /// A copy of this role.
    pub fn duplicate(&self) -> (r: AgentRole)
        ensures
            r == *self,
    {
        match self {
            AgentRole::Coordinator => AgentRole::Coordinator,
            AgentRole::Worker => AgentRole::Worker,
            AgentRole::Reviewer => AgentRole::Reviewer,
            AgentRole::Custom(name) => AgentRole::Custom(name.clone()),
        }
    }
}

} // verus!

verus! {

/// Status of an agent.
#[derive(Debug, Clone, PartialEq, Eq)]
pub enum AgentStatus {
    /// Agent is idle
    Idle,
    /// Agent is processing
    Processing,
    /// Agent is waiting for a response
    Waiting,
    /// Agent has failed
    Failed { reason: String },
}

/// Mutable metadata of a registered agent.
#[derive(Debug, Clone)]
pub struct AgentMetadata {
    pub id: AgentId,
    pub name: String,
    pub role: AgentRole,
    pub status: AgentStatus,
    pub connector_type: String,
    /// Creation time, in milliseconds since the Unix epoch.
    pub created_at: i64,
}

/// Priority of a message; higher values are delivered first.
#[derive(Debug, Clone, Copy, PartialEq, Eq, Structural, PartialOrd, Ord, Hash)]
pub enum MessagePriority {
    Low,
    Normal,
    High,
    Critical,
}

/// Numeric value of a priority: Low 0, Normal 1, High 2, Critical 3.
pub open spec fn priority_value(p: MessagePriority) -> nat {
    match p {
        MessagePriority::Low => 0,
        MessagePriority::Normal => 1,
        MessagePriority::High => 2,
        MessagePriority::Critical => 3,
    }
}

impl MessagePriority {
    /// The numeric value of this priority.
    pub fn value(&self) -> (r: u8)
        ensures
            r as nat == priority_value(*self),
    {
        match self {
            MessagePriority::Low => 0,
            MessagePriority::Normal => 1,
            MessagePriority::High => 2,
            MessagePriority::Critical => 3,
        }
    }
}

impl Default for MessagePriority {
    fn default() -> (r: MessagePriority)
        ensures
            r == MessagePriority::Normal,
    {
        MessagePriority::Normal
    }
}

/// A message between agents.
#[derive(Debug, Clone)]
pub struct AgentMessage {
    pub id: MessageId,
    pub from: AgentId,
    pub to: AgentId,
    pub content: String,
    pub priority: MessagePriority,
    /// Creation time, in milliseconds since the Unix epoch.
    pub created_at: i64,
    pub metadata: std::collections::HashMap<String, String>,
}

/// `a` is a copy of `b`: the same fields, and metadata with the same entries.
pub open spec fn same_message(a: AgentMessage, b: AgentMessage) -> bool {
    &&& a.id == b.id
    &&& a.from == b.from
    &&& a.to == b.to
    &&& a.content == b.content
    &&& a.priority == b.priority
    &&& a.created_at == b.created_at
    &&& a.metadata@ == b.metadata@
}

impl AgentMessage {
    /// A new message of normal priority with a fresh identifier and no metadata.
    pub fn new(from: AgentId, to: AgentId, content: String) -> (r: AgentMessage)
        ensures
            r.from == from,
            r.to == to,
            r.content == content,
            r.priority == MessagePriority::Normal,
            r.metadata@ == Map::<String, String>::empty(),
    {
        AgentMessage {
            id: crate::sources::fresh_u128(),
            from,
            to,
            content,
            priority: MessagePriority::Normal,
            created_at: crate::sources::now_millis(),
            metadata: std::collections::HashMap::new(),
        }
    }

    /// This message with its priority replaced.
    pub fn with_priority(self, priority: MessagePriority) -> (r: AgentMessage)
        ensures
            r == (AgentMessage { priority, ..self }),
    {
        let mut m = self;
        m.priority = priority;
        m
    }

    /// A copy of this message.
    pub fn duplicate(&self) -> (r: AgentMessage)
        ensures
            same_message(r, *self),
    {
        self.readdressed(self.to)
    }

    /// A copy of this message addressed to `to`.
    pub fn readdressed(&self, to: AgentId) -> (r: AgentMessage)
        ensures
            r.id == self.id,
            r.from == self.from,
            r.to == to,
            r.content == self.content,
            r.priority == self.priority,
            r.created_at == self.created_at,
            r.metadata@ == self.metadata@,
    {
        AgentMessage {
            id: self.id,
            from: self.from,
            to,
            content: self.content.clone(),
            priority: self.priority,
            created_at: self.created_at,
            metadata: self.metadata.clone(),
        }
    }
}

/// Permission level of a tool.
#[derive(Debug, Clone, Copy, PartialEq, Eq, Structural)]
pub enum PermissionLevel {
    /// No access
    Denied,
    /// Read-only access
    ReadOnly,
    /// Read and write access
    ReadWrite,
    /// Full access
    Full,
}

/// Permission policy of one tool. Carried with an agent's configuration and
/// read by connectors' tool layers.
#[derive(Debug, Clone)]
pub struct ToolPolicy {
    pub tool_name: String,
    pub permission: PermissionLevel,
    pub max_calls_per_hour: Option<u32>,
    pub allowed_paths: Option<Vec<String>>,
}

impl ToolPolicy {
    /// A policy with no rate limit and no path restriction.
    pub fn new(tool_name: String, permission: PermissionLevel) -> (r: ToolPolicy)
        ensures
            r.tool_name == tool_name,
            r.permission == permission,
            r.max_calls_per_hour is None,
            r.allowed_paths is None,
    {
        ToolPolicy { tool_name, permission, max_calls_per_hour: None, allowed_paths: None }
    }

    /// This policy limited to `max_calls` calls per hour.
    pub fn with_rate_limit(self, max_calls: u32) -> (r: ToolPolicy)
        ensures
            r == (ToolPolicy { max_calls_per_hour: Some(max_calls), ..self }),
    {
        let mut p = self;
        p.max_calls_per_hour = Some(max_calls);
        p
    }
}

/// Configuration of an agent, fixed at registration.
#[derive(Debug, Clone)]
pub struct AgentConfig {
    pub name: String,
    pub role: AgentRole,
    pub connector_type: String,
    pub max_retries: u32,
    pub timeout_ms: u64,
    pub tool_policies: Vec<ToolPolicy>,
}

/// Retries allowed by a new configuration.
pub const DEFAULT_MAX_RETRIES: u32 = 3;

/// Per-message timeout of a new configuration: five minutes.
pub const DEFAULT_TIMEOUT_MS: u64 = 300000;

impl AgentConfig {
    /// A configuration with the default retry count and timeout and no tool
    /// policies.
    pub fn new(name: String, role: AgentRole, connector_type: String) -> (r: AgentConfig)
        ensures
            r.name == name,
            r.role == role,
            r.connector_type == connector_type,
            r.max_retries == DEFAULT_MAX_RETRIES,
            r.timeout_ms == DEFAULT_TIMEOUT_MS,
            r.tool_policies@.len() == 0,
    {
        AgentConfig {
            name,
            role,
            connector_type,
            max_retries: DEFAULT_MAX_RETRIES,
            timeout_ms: DEFAULT_TIMEOUT_MS,
            tool_policies: Vec::new(),
        }
    }
}

} // verus!

verus! {

impl AgentStatus {
    /// A copy of this status.
    pub fn duplicate(&self) -> (r: AgentStatus)
        ensures
            r == *self,
    {
        match self {
            AgentStatus::Idle => AgentStatus::Idle,
            AgentStatus::Processing => AgentStatus::Processing,
            AgentStatus::Waiting => AgentStatus::Waiting,
            AgentStatus::Failed { reason } => AgentStatus::Failed { reason: reason.clone() },
        }
    }
}

impl AgentMetadata {
    /// A copy of this metadata.
    pub fn duplicate(&self) -> (r: AgentMetadata)
        ensures
            r == *self,
    {
        AgentMetadata {
            id: self.id,
            name: self.name.clone(),
            role: self.role.duplicate(),
            status: self.status.duplicate(),
            connector_type: self.connector_type.clone(),
            created_at: self.created_at,
        }
    }
}

/// `a` and `b` hold the same list of names.
pub open spec fn same_names(a: Seq<String>, b: Seq<String>) -> bool {
    a.len() == b.len() && forall|i: int| 0 <= i < a.len() ==> #[trigger] a[i]@ == b[i]@
}

/// `a` is a copy of `b`.
pub open spec fn same_policy(a: ToolPolicy, b: ToolPolicy) -> bool {
    &&& a.tool_name@ == b.tool_name@
    &&& a.permission == b.permission
    &&& a.max_calls_per_hour == b.max_calls_per_hour
    &&& match (a.allowed_paths, b.allowed_paths) {
        (None, None) => true,
        (Some(x), Some(y)) => same_names(x@, y@),
        _ => false,
    }
}

/// `a` is a copy of `b`.
pub open spec fn same_config(a: AgentConfig, b: AgentConfig) -> bool {
    &&& a.name == b.name
    &&& a.role == b.role
    &&& a.connector_type == b.connector_type
    &&& a.max_retries == b.max_retries
    &&& a.timeout_ms == b.timeout_ms
    &&& a.tool_policies@.len() == b.tool_policies@.len()
    &&& forall|i: int|
        0 <= i < a.tool_policies@.len() ==> same_policy(
            #[trigger] a.tool_policies@[i],
            b.tool_policies@[i],
        )
}

fn copy_names(v: &Vec<String>) -> (r: Vec<String>)
    ensures
        same_names(r@, v@),
{
    let mut r: Vec<String> = Vec::new();
    let mut i: usize = 0;
    while i < v.len()
        invariant
            i <= v@.len(),
            r@.len() == i,
            forall|j: int| 0 <= j < i ==> #[trigger] r@[j]@ == v@[j]@,
        decreases v@.len() - i,
    {
        r.push(v[i].clone());
        i = i + 1;
    }
    r
}

impl ToolPolicy {
    /// A copy of this policy.
    pub fn duplicate(&self) -> (r: ToolPolicy)
        ensures
            same_policy(r, *self),
    {
        let allowed_paths = match &self.allowed_paths {
            Some(paths) => Some(copy_names(paths)),
            None => None,
        };
        ToolPolicy {
            tool_name: self.tool_name.clone(),
            permission: self.permission,
            max_calls_per_hour: self.max_calls_per_hour,
            allowed_paths,
        }
    }
}

impl AgentConfig {
    /// A copy of this configuration.
    pub fn duplicate(&self) -> (r: AgentConfig)
        ensures
            same_config(r, *self),
    {
        let mut policies: Vec<ToolPolicy> = Vec::new();
        let mut i: usize = 0;
        while i < self.tool_policies.len()
            invariant
                i <= self.tool_policies@.len(),
                policies@.len() == i,
                forall|j: int| 0 <= j < i ==> same_policy(#[trigger] policies@[j], self.tool_policies@[j]),
            decreases self.tool_policies@.len() - i,
        {
            policies.push(self.tool_policies[i].duplicate());
            i = i + 1;
        }
        AgentConfig {
            name: self.name.clone(),
            role: self.role.duplicate(),
            connector_type: self.connector_type.clone(),
            max_retries: self.max_retries,
            timeout_ms: self.timeout_ms,
            tool_policies: policies,
        }
    }
}

} // verus!
