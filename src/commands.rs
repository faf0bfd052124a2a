//! Requests and responses of the desktop command layer, and the loop guard a
//! scheduler-creation request asks for.

use vstd::prelude::*;
use crate::agent::AgentConfig;
use crate::connector_types::ConnectorConfig;
use crate::ollama::OllamaConfig;
use crate::orchestrator::LoopGuard;

verus! {

/// Request to configure a command-line connector.
#[derive(Debug, Clone)]
pub struct InitConnectorRequest {
    pub connector_type: String,
    pub config: ConnectorConfig,
}

/// Request to configure the Ollama connector.
#[derive(Debug, Clone)]
pub struct InitOllamaRequest {
    pub config: OllamaConfig,
}

/// Request to register an agent.
#[derive(Debug, Clone)]
pub struct RegisterAgentRequest {
    pub config: AgentConfig,
}

/// Answer to a registration: the new agent's identifier as text.
#[derive(Debug, Clone)]
pub struct RegisterAgentResponse {
    pub agent_id: String,
}

/// Request to create a scheduler; absent limits keep their defaults.
#[derive(Debug, Clone, Copy, PartialEq, Eq, Structural)]
pub struct CreateOrchestratorRequest {
    pub max_iterations: Option<u32>,
    pub max_messages_per_agent: Option<u32>,
    pub max_execution_time_ms: Option<u64>,
}

impl CreateOrchestratorRequest {
    /// The loop guard this request asks for: each given limit, and the
    /// default for each absent one.
    pub fn loop_guard(&self) -> (r: LoopGuard)
        ensures
            r.max_iterations == match self.max_iterations {
                Some(v) => v,
                None => 100,
            },
            r.max_messages_per_agent == match self.max_messages_per_agent {
                Some(v) => v,
                None => 50,
            },
            r.max_execution_time_ms == match self.max_execution_time_ms {
                Some(v) => v,
                None => 600000,
            },
    {
        let mut guard = LoopGuard::default();
        if let Some(v) = self.max_iterations {
            guard.max_iterations = v;
        }
        if let Some(v) = self.max_messages_per_agent {
            guard.max_messages_per_agent = v;
        }
        if let Some(v) = self.max_execution_time_ms {
            guard.max_execution_time_ms = v;
        }
        guard
    }
}

/// Answer to a scheduling run: why it stopped, as text.
#[derive(Debug, Clone)]
pub struct StartOrchestratorResponse {
    pub stop_reason: String,
}

/// Request to create a session.
#[derive(Debug, Clone)]
pub struct CreateSessionRequest {
    pub name: String,
}

/// Request to create a pane.
#[derive(Debug, Clone)]
pub struct CreatePaneRequest {
    pub session_id: String,
    pub name: String,
    pub position: i32,
}

/// Request to add a message.
#[derive(Debug, Clone)]
pub struct AddMessageRequest {
    pub session_id: String,
    pub pane_id: Option<String>,
    pub message_type: String,
    pub role: String,
    pub content: String,
    pub sequence_number: i32,
    pub parent_id: Option<String>,
}

/// Request to create a block.
#[derive(Debug, Clone)]
pub struct CreateBlockRequest {
    pub session_id: String,
    pub pane_id: Option<String>,
    pub block_type: String,
    pub content: String,
    pub sequence_number: i32,
}

} // verus!
