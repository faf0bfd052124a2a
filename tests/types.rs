use agent_runtime::agent::{AgentConfig, AgentRole, PermissionLevel, ToolPolicy};
use agent_runtime::api::{AuthService, RateLimitConfig, RateLimiter};
use agent_runtime::config::{AppConfig, KeychainManager};
use agent_runtime::session_types::{assemble_blocks, BlockType, Message, MessageRole, MessageType, Session};

#[test]
fn config_test_default_config() {
    let config = AppConfig::default();
    assert_eq!(config.app_name, "Agent Manager");
    assert_eq!(config.version, "0.0.1");
}

#[test]
fn test_keychain_manager_creation() {
    let manager = KeychainManager::new("test-service");
    assert_eq!(manager.service_name(), "test-service");
}

#[test]
fn tool_policy_and_config_builders() {
    let p = ToolPolicy::new("fs".to_string(), PermissionLevel::ReadOnly).with_rate_limit(10);
    assert_eq!(p.max_calls_per_hour, Some(10));
    assert!(p.allowed_paths.is_none());
    let c = AgentConfig::new("n".to_string(), AgentRole::Reviewer, "ollama".to_string());
    assert_eq!(c.max_retries, 3);
    assert_eq!(c.timeout_ms, 300000);
    assert!(c.tool_policies.is_empty());
}

#[test]
fn enum_names_parse_without_case() {
    assert_eq!(MessageType::from_str("UserInput"), MessageType::UserInput);
    assert_eq!(MessageType::from_str("whatever"), MessageType::SystemMessage);
    assert_eq!(MessageRole::from_str("ASSISTANT"), MessageRole::Assistant);
    assert_eq!(MessageRole::from_str("x"), MessageRole::System);
    assert_eq!(BlockType::from_str("Artifact"), BlockType::Artifact);
    assert_eq!(BlockType::from_str("x"), BlockType::Output);
}

#[test]
fn session_and_message_records() {
    let s = Session::new("Test Session".to_string());
    assert_eq!(s.status, "active");
    assert_eq!(s.created_at, s.updated_at);
    let m = Message::new(s.id.clone(), None, MessageType::AgentOutput, MessageRole::Assistant, "hi".to_string(), 3);
    assert_eq!(m.message_type, "agentoutput");
    assert_eq!(m.role, "assistant");
    assert_eq!(m.sequence_number, 3);
}

#[test]
fn test_assemble_blocks_from_messages() {
    let sid = "s".to_string();
    let msgs = vec![
        Message::new(sid.clone(), None, MessageType::UserInput, MessageRole::User, "First command".to_string(), 0),
        Message::new(sid.clone(), None, MessageType::AgentOutput, MessageRole::Assistant, "First output".to_string(), 1),
        Message::new(sid.clone(), None, MessageType::UserInput, MessageRole::User, "Second command".to_string(), 2),
        Message::new(sid.clone(), None, MessageType::AgentOutput, MessageRole::Assistant, "a".to_string(), 3),
        Message::new(sid.clone(), None, MessageType::AgentOutput, MessageRole::Assistant, "b".to_string(), 4),
    ];
    let blocks = assemble_blocks(&msgs, "s");
    assert_eq!(blocks.len(), 4);
    assert_eq!(blocks[0].block_type, "command");
    assert_eq!(blocks[1].block_type, "output");
    assert_eq!(blocks[3].content, "a\nb");
    assert_eq!(blocks[3].sequence_number, 3);
}

#[test]
fn test_validate_token() {
    let auth = AuthService::new();
    assert!(auth.validate_token("dev-token-local"));
    assert!(!auth.validate_token("invalid"));
}

#[test]
fn test_add_remove_token() {
    let mut auth = AuthService::new();
    auth.add_token("test-token".to_string()).unwrap();
    assert!(auth.validate_token("test-token"));
    auth.remove_token("test-token").unwrap();
    assert!(!auth.validate_token("test-token"));
    assert!(auth.remove_token("test-token").is_err());
}

#[test]
fn test_generate_token() {
    let mut auth = AuthService::new();
    let token = auth.generate_token();
    assert!(auth.validate_token(&token));
    assert!(token.starts_with("token-"));
}

#[test]
fn test_rate_limit_allows_requests() {
    let mut limiter = RateLimiter::new(RateLimitConfig { requests_per_second: 10, burst_size: 10 });
    assert!(limiter.check_rate_limit("client1").is_ok());
}

#[test]
fn test_rate_limit_exhausts() {
    let mut limiter = RateLimiter::new(RateLimitConfig { requests_per_second: 10, burst_size: 10 });
    for _ in 0..10 {
        assert!(limiter.check_rate_limit_at("client1", 0).is_ok());
    }
    assert!(limiter.check_rate_limit_at("client1", 0).is_err());
}

#[test]
fn test_rate_limit_refills() {
    let mut limiter = RateLimiter::new(RateLimitConfig { requests_per_second: 10, burst_size: 10 });
    for _ in 0..10 {
        limiter.check_rate_limit_at("client1", 0).unwrap();
    }
    assert!(limiter.check_rate_limit_at("client1", 0).is_err());
    assert!(limiter.check_rate_limit_at("client1", 200).is_ok());
}

#[test]
fn test_rate_limit_per_client() {
    let mut limiter = RateLimiter::new(RateLimitConfig { requests_per_second: 10, burst_size: 10 });
    for _ in 0..10 {
        limiter.check_rate_limit_at("client1", 0).unwrap();
    }
    assert!(limiter.check_rate_limit_at("client1", 0).is_err());
    assert!(limiter.check_rate_limit_at("client2", 0).is_ok());
    limiter.reset_client("client1");
    assert!(limiter.check_rate_limit_at("client1", 0).is_ok());
}

#[test]
fn sequence_numbers_follow_the_largest() {
    assert_eq!(agent_runtime::session_types::next_sequence_number(None), 0);
    assert_eq!(agent_runtime::session_types::next_sequence_number(Some(4)), 5);
}

#[test]
fn rate_limit_other_clients_untouched_and_capped() {
    let mut limiter = RateLimiter::new(RateLimitConfig { requests_per_second: 1000, burst_size: 2 });
    limiter.check_rate_limit_at("a", 0).unwrap();
    limiter.check_rate_limit_at("b", 0).unwrap();
    limiter.check_rate_limit_at("a", 0).unwrap();
    assert!(limiter.check_rate_limit_at("a", 0).is_err());
    // A long wait refills only up to the bucket size.
    assert!(limiter.check_rate_limit_at("a", 100_000).is_ok());
    assert!(limiter.check_rate_limit_at("a", 100_000).is_ok());
    assert!(limiter.check_rate_limit_at("a", 100_000).is_err());
    assert!(limiter.check_rate_limit_at("b", 0).is_ok());
}
