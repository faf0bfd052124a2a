//! A local runtime that coordinates several model-backed agents: prioritised
//! mailboxes, an agent registry, a guarded scheduling loop, token-bounded
//! per-agent memory, a shared blackboard, and the event parsing and retry
//! accounting of model connectors.

pub mod agent;
pub mod sources;
pub mod mailbox;
pub mod registry;
pub mod memory;
pub mod ring_buffer;
pub mod blackboard;
pub mod memory_manager;
pub mod retry;
pub mod orchestrator;
pub mod connector_types;
pub mod connector_output;
pub mod text;
pub mod claude_code;
pub mod codex_cli;
pub mod ollama;
pub mod session_types;
pub mod api;
pub mod commands;
pub mod config;
