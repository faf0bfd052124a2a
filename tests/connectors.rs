use agent_runtime::claude_code::{ClaudeCodeConnector, ClaudeCodeError};
use agent_runtime::codex_cli::{CodexCliConnector, GptModel};
use agent_runtime::connector_output::{parse_output, parse_output_line};
use agent_runtime::connector_types::{ConnectorConfig, ConnectorHealth, ConnectorMessage};
use agent_runtime::ollama::{ChatReply, OllamaConfig, OllamaConnector, OllamaError};
use agent_runtime::retry::after_failure;

fn bits(v: &[f32]) -> Vec<u32> {
    v.iter().map(|x| x.to_bits()).collect()
}

#[test]
fn claude_code_test_parse_usage() {
    let line = "input: 100 tokens, output: 50 tokens";
    let msg = ClaudeCodeConnector::parse_usage(line);
    assert!(msg.is_some());
    if let Some(ConnectorMessage::Usage { input_tokens, output_tokens }) = msg {
        assert_eq!(input_tokens, 100);
        assert_eq!(output_tokens, 50);
    } else {
        panic!("Expected Usage message");
    }
}

#[test]
fn claude_code_test_parse_json_message() {
    let line = r#"{"type":"content","content":"Hello world"}"#;
    let msg = ClaudeCodeConnector::parse_output_line(line);
    assert!(msg.is_some());
    if let Some(ConnectorMessage::Content { content }) = msg {
        assert_eq!(content, "Hello world");
    } else {
        panic!("Expected Content message");
    }
}

#[test]
fn test_parse_plain_content() {
    let line = "This is plain text output";
    let msg = ClaudeCodeConnector::parse_output_line(line);
    assert!(msg.is_some());
    if let Some(ConnectorMessage::Content { content }) = msg {
        assert_eq!(content, "This is plain text output");
    } else {
        panic!("Expected Content message");
    }
}

#[test]
fn claude_code_test_connector_creation() {
    let connector = ClaudeCodeConnector::new(ConnectorConfig::default());
    assert_eq!(connector.health(), ConnectorHealth::Healthy);
    let metrics = connector.metrics();
    assert_eq!(metrics.spawn_count, 0);
    assert_eq!(metrics.success_count, 0);
}

#[test]
fn claude_code_test_record_usage() {
    let mut connector = ClaudeCodeConnector::new(ConnectorConfig::default());
    connector.record_usage(100, 50);
    let metrics = connector.metrics();
    assert_eq!(metrics.total_input_tokens, 100);
    assert_eq!(metrics.total_output_tokens, 50);
}

#[test]
fn test_model_serialization() {
    assert_eq!(GptModel::Gpt5.as_str(), "gpt-5");
    assert_eq!(GptModel::Gpt5Codex.as_str(), "gpt-5-codex");
    assert_eq!(GptModel::Gpt4.as_str(), "gpt-4");
}

#[test]
fn test_parse_openai_usage() {
    let line = r#"{"usage":{"prompt_tokens":100,"completion_tokens":50,"total_tokens":150}}"#;
    let msg = CodexCliConnector::parse_openai_usage(line);
    assert!(msg.is_some());
    if let Some(ConnectorMessage::Usage { input_tokens, output_tokens }) = msg {
        assert_eq!(input_tokens, 100);
        assert_eq!(output_tokens, 50);
    } else {
        panic!("Expected Usage message");
    }
}

#[test]
fn codex_cli_test_parse_usage() {
    let line = "prompt: 100 tokens, completion: 50 tokens";
    let msg = CodexCliConnector::parse_usage(line);
    assert!(msg.is_some());
    if let Some(ConnectorMessage::Usage { input_tokens, output_tokens }) = msg {
        assert_eq!(input_tokens, 100);
        assert_eq!(output_tokens, 50);
    } else {
        panic!("Expected Usage message");
    }
}

#[test]
fn codex_cli_test_parse_json_message() {
    let line = r#"{"type":"content","content":"Hello from GPT-5"}"#;
    let msg = CodexCliConnector::parse_output_line(line);
    assert!(msg.is_some());
    if let Some(ConnectorMessage::Content { content }) = msg {
        assert_eq!(content, "Hello from GPT-5");
    } else {
        panic!("Expected Content message");
    }
}

#[test]
fn codex_cli_test_connector_creation() {
    let connector = CodexCliConnector::new(ConnectorConfig::default());
    assert_eq!(connector.health(), ConnectorHealth::Healthy);
    assert_eq!(connector.current_model(), GptModel::Gpt5);
}

#[test]
fn test_model_switch() {
    let mut connector = CodexCliConnector::new(ConnectorConfig::default());
    assert_eq!(connector.current_model(), GptModel::Gpt5);
    connector.switch_model(GptModel::Gpt5Codex).unwrap();
    assert_eq!(connector.current_model(), GptModel::Gpt5Codex);
    assert_eq!(connector.model_command(), "/model gpt-5-codex\n");
}

#[test]
fn codex_cli_test_record_usage() {
    let mut connector = CodexCliConnector::new(ConnectorConfig::default());
    connector.record_usage(200, 100);
    let metrics = connector.metrics();
    assert_eq!(metrics.total_input_tokens, 200);
    assert_eq!(metrics.total_output_tokens, 100);
}

#[test]
fn ollama_test_default_config() {
    let config = OllamaConfig::default();
    assert_eq!(config.host, "http://localhost");
    assert_eq!(config.port, 11434);
    assert_eq!(config.chat_model, "llama2");
    assert_eq!(config.embedding_model, "nomic-embed-text");
}

#[test]
fn test_base_url() {
    let connector = OllamaConnector::new(OllamaConfig::default());
    assert_eq!(connector.base_url(), "http://localhost:11434");
    assert_eq!(connector.endpoint("/api/tags"), "http://localhost:11434/api/tags");
}

#[test]
fn test_validate_embedding() {
    let valid = vec![0.1, 0.2, 0.3, 0.4];
    assert!(OllamaConnector::validate_embedding(&bits(&valid)));
    let empty: Vec<f32> = vec![];
    assert!(!OllamaConnector::validate_embedding(&bits(&empty)));
    let invalid = vec![0.1, f32::NAN, 0.3];
    assert!(!OllamaConnector::validate_embedding(&bits(&invalid)));
    let invalid = vec![0.1, f32::INFINITY, 0.3];
    assert!(!OllamaConnector::validate_embedding(&bits(&invalid)));
}

#[test]
fn test_embedding_validation() {
    assert!(OllamaConnector::validate_embedding(&bits(&[0.5, -0.5, 0.0])));
    assert!(!OllamaConnector::validate_embedding(&bits(&[f32::NEG_INFINITY])));
}

#[test]
fn ollama_test_connector_creation() {
    let connector = OllamaConnector::new(OllamaConfig::default());
    assert_eq!(connector.health(), ConnectorHealth::Healthy);
    let metrics = connector.metrics();
    assert_eq!(metrics.spawn_count, 0);
    assert_eq!(metrics.success_count, 0);
}

#[test]
fn test_health_update() {
    let mut connector = OllamaConnector::new(OllamaConfig::default());
    connector.update_health(ConnectorHealth::Degraded { reason: "Test".to_string() });
    let health = connector.health();
    assert!(matches!(health, ConnectorHealth::Degraded { .. }));
}

#[test]
fn connector_output_scenario_lines_in_order() {
    let lines = vec![
        r#"{"type":"content","content":"hi"}"#.to_string(),
        "prompt: 75 tokens, completion: 30 tokens".to_string(),
        "goodbye".to_string(),
    ];
    let events = parse_output(&lines);
    assert_eq!(
        events,
        vec![
            ConnectorMessage::Content { content: "hi".to_string() },
            ConnectorMessage::Usage { input_tokens: 75, output_tokens: 30 },
            ConnectorMessage::Content { content: "goodbye".to_string() },
            ConnectorMessage::Done,
        ]
    );
}

#[test]
fn output_lines_blank_and_commands_are_dropped() {
    assert_eq!(parse_output_line("   "), None);
    assert_eq!(parse_output_line(""), None);
    assert_eq!(parse_output_line("/model gpt-5"), None);
    assert_eq!(parse_output_line(r#"{"type":"done"}"#), Some(ConnectorMessage::Done));
    assert_eq!(
        parse_output_line(r#"{"type":"tool_call","name":"ls","args":"-la"}"#),
        Some(ConnectorMessage::ToolCall { name: "ls".to_string(), args: "-la".to_string() })
    );
    assert_eq!(
        parse_output_line(r#"{"type":"usage","input_tokens":3,"output_tokens":4}"#),
        Some(ConnectorMessage::Usage { input_tokens: 3, output_tokens: 4 })
    );
    assert_eq!(
        parse_output_line("no tokens here"),
        Some(ConnectorMessage::Content { content: "no tokens here".to_string() })
    );
}

#[test]
fn claude_execute_retries_then_fails_with_balanced_metrics() {
    let mut connector = ClaudeCodeConnector::new(ConnectorConfig::default());
    let pauses = std::cell::RefCell::new(Vec::new());
    let r = connector.execute(|| Err(ClaudeCodeError::Timeout), |ms| pauses.borrow_mut().push(ms));
    assert_eq!(r, Err(ClaudeCodeError::MaxRetriesExceeded));
    assert_eq!(*pauses.borrow(), vec![100, 200]);
    let m = connector.metrics();
    assert_eq!(m.spawn_count, 3);
    assert_eq!(m.error_count, 3);
    assert_eq!(m.spawn_count, m.success_count + m.error_count);
    assert!(matches!(connector.health(), ConnectorHealth::Unhealthy { .. }));
}

#[test]
fn claude_execute_success_after_failure() {
    let mut connector = ClaudeCodeConnector::new(ConnectorConfig::default());
    let calls = std::cell::Cell::new(0);
    let r = connector.execute(
        || {
            calls.set(calls.get() + 1);
            if calls.get() == 1 { Err(ClaudeCodeError::Timeout) } else { Ok(40) }
        },
        |_| {},
    );
    assert!(r.is_ok());
    let m = connector.metrics();
    assert_eq!(m.spawn_count, 2);
    assert_eq!(m.success_count, 1);
    assert_eq!(m.error_count, 1);
    assert_eq!(m.avg_response_time_ms, 20);
    assert_eq!(connector.health(), ConnectorHealth::Healthy);
}

#[test]
fn ollama_chat_outcome_events_and_metrics() {
    let mut connector = OllamaConnector::new(OllamaConfig::default());
    let reply = ChatReply { response: "hello".to_string(), prompt_eval_count: Some(10), eval_count: Some(20) };
    let events = connector.record_chat(Ok(reply), 30);
    assert_eq!(
        events,
        vec![
            ConnectorMessage::Content { content: "hello".to_string() },
            ConnectorMessage::Usage { input_tokens: 10, output_tokens: 20 },
            ConnectorMessage::Done,
        ]
    );
    let m = connector.metrics();
    assert_eq!(m.total_input_tokens, 10);
    assert_eq!(m.total_output_tokens, 20);
    assert_eq!(m.avg_response_time_ms, 30);
    let events = connector.record_chat(Err(OllamaError::Timeout), 5);
    assert_eq!(events.len(), 2);
    assert!(matches!(events[0], ConnectorMessage::Error { .. }));
    assert!(matches!(connector.health(), ConnectorHealth::Degraded { .. }));
    let m = connector.metrics();
    assert_eq!(m.spawn_count, m.success_count + m.error_count);
}

#[test]
fn ollama_request_retries_and_health_check() {
    let mut connector = OllamaConnector::new(OllamaConfig::default());
    let r: Result<u32, OllamaError> = connector.request_with(|| Err(OllamaError::Timeout), |_| {});
    assert_eq!(r, Err(OllamaError::MaxRetriesExceeded));
    assert!(matches!(connector.health(), ConnectorHealth::Unhealthy { .. }));
    assert!(connector.record_health_check(Ok(())));
    assert_eq!(connector.health(), ConnectorHealth::Healthy);
    assert!(!connector.record_health_check(Err(OllamaError::Timeout)));
    connector.record_embedding(12);
    assert_eq!(connector.metrics().success_count, 1);
}

#[test]
fn ollama_accepts_only_usable_embeddings() {
    let mut connector = OllamaConnector::new(OllamaConfig::default());
    assert_eq!(connector.accept_embedding(bits(&[0.5, 0.25]), 7).unwrap(), bits(&[0.5, 0.25]));
    assert_eq!(connector.metrics().success_count, 1);
    assert!(matches!(connector.accept_embedding(bits(&[f32::NAN]), 7), Err(OllamaError::ParseError(_))));
    assert!(matches!(connector.accept_embedding(vec![], 7), Err(OllamaError::ParseError(_))));
    assert_eq!(connector.metrics().spawn_count, 1);
}

#[test]
fn retry_decision_gives_up_at_the_limit() {

    assert_eq!(after_failure(1, 3), Some(100));
    assert_eq!(after_failure(2, 3), Some(200));
    assert_eq!(after_failure(3, 3), None);
    assert_eq!(after_failure(1, 0), None);
}

#[test]
fn claude_first_success_sets_mean_to_sample() {
    let mut connector = ClaudeCodeConnector::new(ConnectorConfig::default());
    assert!(connector.execute(|| Ok(37), |_| {}).is_ok());
    let m = connector.metrics();
    assert_eq!(m.spawn_count, 1);
    assert_eq!(m.avg_response_time_ms, 37);
}
