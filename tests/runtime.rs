use agent_runtime::agent::{AgentConfig, AgentId, AgentMessage, AgentRole, AgentStatus, MessagePriority};
use agent_runtime::commands::CreateOrchestratorRequest;
use agent_runtime::mailbox::{Mailbox, MessageBus};
use agent_runtime::orchestrator::{LoopGuard, Orchestrator, StopReason};
use agent_runtime::registry::AgentRegistry;
use agent_runtime::retry::backoff_ms;

fn new_id() -> AgentId {
    uuid::Uuid::new_v4().as_u128()
}

fn run(orchestrator: &mut Orchestrator) -> StopReason {
    let started = std::time::Instant::now();
    orchestrator
        .start(
            |_agent, _message, _timeout_ms| Ok(()),
            |_ms| {},
            move || started.elapsed().as_millis() as u64,
            || false,
        )
        .unwrap()
}

fn worker(name: &str) -> AgentConfig {
    AgentConfig::new(name.to_string(), AgentRole::Worker, "claude_code".to_string())
}

#[test]
fn test_mailbox_push_pop() {
    let agent_id = new_id();
    let mut mailbox = Mailbox::new(agent_id);
    let msg = AgentMessage::new(new_id(), agent_id, "test".to_string());
    mailbox.push(msg.clone());
    assert_eq!(mailbox.len(), 1);
    let popped = mailbox.pop().unwrap();
    assert_eq!(popped.content, "test");
    assert_eq!(mailbox.len(), 0);
}

#[test]
fn test_mailbox_priority() {
    let agent_id = new_id();
    let mut mailbox = Mailbox::new(agent_id);
    let msg_low = AgentMessage::new(new_id(), agent_id, "low".to_string()).with_priority(MessagePriority::Low);
    let msg_high = AgentMessage::new(new_id(), agent_id, "high".to_string()).with_priority(MessagePriority::High);
    let msg_normal =
        AgentMessage::new(new_id(), agent_id, "normal".to_string()).with_priority(MessagePriority::Normal);
    mailbox.push(msg_low);
    mailbox.push(msg_high);
    mailbox.push(msg_normal);
    assert_eq!(mailbox.pop().unwrap().content, "high");
    assert_eq!(mailbox.pop().unwrap().content, "normal");
    assert_eq!(mailbox.pop().unwrap().content, "low");
}

#[test]
fn mailbox_peek_keeps_message_and_empty_pop_is_none() {
    let agent_id = new_id();
    let mut mailbox = Mailbox::new(agent_id);
    assert!(mailbox.pop().is_none());
    assert!(mailbox.peek().is_none());
    mailbox.push(AgentMessage::new(agent_id, agent_id, "a".to_string()).with_priority(MessagePriority::Low));
    mailbox.push(AgentMessage::new(agent_id, agent_id, "b".to_string()).with_priority(MessagePriority::Critical));
    assert_eq!(mailbox.peek().unwrap().content, "b");
    assert_eq!(mailbox.len(), 2);
    assert!(!mailbox.is_empty());
}

#[test]
fn test_message_bus_send() {
    let mut bus = MessageBus::new();
    let agent_id = new_id();
    bus.create_mailbox(agent_id);
    let msg = AgentMessage::new(new_id(), agent_id, "test".to_string());
    bus.send(msg).unwrap();
    assert_eq!(bus.total_sent(), 1);
    assert_eq!(bus.queue_depth(), 1);
}

#[test]
fn message_bus_send_to_missing_mailbox_fails() {
    let mut bus = MessageBus::new();
    let msg = AgentMessage::new(new_id(), new_id(), "lost".to_string());
    assert!(bus.send(msg).is_err());
    assert_eq!(bus.total_sent(), 0);
    assert_eq!(bus.queue_depth(), 0);
}

#[test]
fn test_message_bus_broadcast() {
    let mut bus = MessageBus::new();
    let agent1 = new_id();
    let agent2 = new_id();
    let agent3 = new_id();
    bus.create_mailbox(agent1);
    bus.create_mailbox(agent2);
    bus.create_mailbox(agent3);
    let msg = AgentMessage::new(agent1, agent1, "broadcast".to_string());
    let sent = bus.broadcast(msg);
    assert_eq!(sent, 2);
    assert_eq!(bus.queue_depth(), 2);
    assert_eq!(bus.get_mailbox(agent2).unwrap().peek().unwrap().to, agent2);
    assert_eq!(bus.total_sent(), 2);
}

#[test]
fn message_bus_queue_depth_sums_mailboxes_and_counts_received() {
    let mut bus = MessageBus::new();
    let a = new_id();
    let b = new_id();
    bus.create_mailbox(a);
    bus.create_mailbox(b);
    for i in 0..3 {
        bus.send(AgentMessage::new(b, a, format!("to a {}", i))).unwrap();
    }
    bus.send(AgentMessage::new(a, b, "to b".to_string())).unwrap();
    assert_eq!(bus.queue_depth(), 4);
    assert!(bus.pop_from(a).is_some());
    bus.mark_received();
    assert_eq!(bus.queue_depth(), 3);
    assert_eq!(bus.total_received(), 1);
    assert!(bus.remove_mailbox(a));
    assert!(!bus.remove_mailbox(a));
    assert_eq!(bus.queue_depth(), 1);
}

#[test]
fn test_mailbox_clear() {
    let agent_id = new_id();
    let mut mailbox = Mailbox::new(agent_id);
    for i in 0..5 {
        let msg = AgentMessage::new(new_id(), agent_id, format!("msg{}", i));
        mailbox.push(msg);
    }
    assert_eq!(mailbox.len(), 5);
    mailbox.clear();
    assert_eq!(mailbox.len(), 0);
}

#[test]
fn test_register_agent() {
    let mut registry = AgentRegistry::new();
    let config = AgentConfig::new("test-agent".to_string(), AgentRole::Worker, "claude_code".to_string());
    let agent_id = registry.register(config);
    assert_eq!(registry.count(), 1);
    let metadata = registry.get_metadata(agent_id).unwrap();
    assert_eq!(metadata.name, "test-agent");
    assert_eq!(metadata.role, AgentRole::Worker);
    assert_eq!(metadata.status, AgentStatus::Idle);
}

#[test]
fn test_unregister_agent() {
    let mut registry = AgentRegistry::new();
    let config = AgentConfig::new("test-agent".to_string(), AgentRole::Worker, "claude_code".to_string());
    let agent_id = registry.register(config);
    assert_eq!(registry.count(), 1);
    let removed = registry.unregister(agent_id);
    assert!(removed);
    assert_eq!(registry.count(), 0);
    assert!(!registry.unregister(agent_id));
}

#[test]
fn register_then_unregister_keeps_count() {
    let mut registry = AgentRegistry::new();
    registry.register(worker("a"));
    let before = registry.count();
    let id = registry.register(worker("b"));
    registry.unregister(id);
    assert_eq!(registry.count(), before);
}

#[test]
fn test_update_status() {
    let mut registry = AgentRegistry::new();
    let config = AgentConfig::new("test-agent".to_string(), AgentRole::Worker, "claude_code".to_string());
    let agent_id = registry.register(config);
    let updated = registry.update_status(agent_id, AgentStatus::Processing);
    assert!(updated);
    let metadata = registry.get_metadata(agent_id).unwrap();
    assert_eq!(metadata.status, AgentStatus::Processing);
    assert!(!registry.update_status(new_id(), AgentStatus::Idle));
}

#[test]
fn test_list_by_role() {
    let mut registry = AgentRegistry::new();
    let config1 = AgentConfig::new("worker1".to_string(), AgentRole::Worker, "claude_code".to_string());
    let config2 = AgentConfig::new("coordinator".to_string(), AgentRole::Coordinator, "codex_cli".to_string());
    let config3 = AgentConfig::new("worker2".to_string(), AgentRole::Worker, "ollama".to_string());
    registry.register(config1);
    registry.register(config2);
    registry.register(config3);
    let workers = registry.list_by_role(AgentRole::Worker);
    assert_eq!(workers.len(), 2);
    let coordinators = registry.list_by_role(AgentRole::Coordinator);
    assert_eq!(coordinators.len(), 1);
    assert_eq!(registry.list_agents().len(), 3);
    assert_eq!(registry.list_by_role(AgentRole::Custom("x".to_string())).len(), 0);
}

#[test]
fn registered_config_is_kept() {
    let mut registry = AgentRegistry::new();
    let id = registry.register(worker("w"));
    let config = registry.get_config(id).unwrap();
    assert_eq!(config.name, "w");
    assert_eq!(config.max_retries, 3);
    assert_eq!(config.timeout_ms, 300000);
    assert!(registry.get_config(new_id()).is_none());
}

#[test]
fn test_loop_guard_max_iterations() {
    let mut registry = AgentRegistry::new();
    let mut bus = MessageBus::new();
    let agent_id = registry.register(worker("test-agent"));
    bus.create_mailbox(agent_id);
    for i in 0..10 {
        let msg = AgentMessage::new(agent_id, agent_id, format!("msg{}", i));
        bus.send(msg).unwrap();
    }
    let mut orchestrator = Orchestrator::new(registry, bus).with_loop_guard(LoopGuard {
        max_iterations: 5,
        max_messages_per_agent: 100,
        max_execution_time_ms: 60000,
    });
    let result = run(&mut orchestrator);
    assert!(matches!(result, StopReason::MaxIterations));
}

#[test]
fn test_loop_guard_max_messages_per_agent() {
    let mut registry = AgentRegistry::new();
    let mut bus = MessageBus::new();
    let agent_id = registry.register(worker("test-agent"));
    bus.create_mailbox(agent_id);
    for i in 0..10 {
        let msg = AgentMessage::new(agent_id, agent_id, format!("msg{}", i));
        bus.send(msg).unwrap();
    }
    let mut orchestrator = Orchestrator::new(registry, bus).with_loop_guard(LoopGuard {
        max_iterations: 1000,
        max_messages_per_agent: 3,
        max_execution_time_ms: 60000,
    });
    let result = run(&mut orchestrator);
    assert!(matches!(result, StopReason::MaxMessagesPerAgent { .. }));
}

#[test]
fn test_orchestrator_completion() {
    let mut registry = AgentRegistry::new();
    let mut bus = MessageBus::new();
    let agent_id = registry.register(worker("test-agent"));
    bus.create_mailbox(agent_id);
    let msg = AgentMessage::new(agent_id, agent_id, "test".to_string());
    bus.send(msg).unwrap();
    let mut orchestrator = Orchestrator::new(registry, bus);
    let result = run(&mut orchestrator);
    assert!(matches!(result, StopReason::Completed));
    let metrics = orchestrator.metrics();
    assert_eq!(metrics.total_messages, 1);
    assert_eq!(orchestrator.message_bus().queue_depth(), 0);
}

#[test]
fn test_orchestrator_metrics() {
    let mut registry = AgentRegistry::new();
    let mut bus = MessageBus::new();
    let agent_id = registry.register(worker("test-agent"));
    bus.create_mailbox(agent_id);
    for i in 0..5 {
        let msg = AgentMessage::new(agent_id, agent_id, format!("msg{}", i));
        bus.send(msg).unwrap();
    }
    let mut orchestrator = Orchestrator::new(registry, bus);
    run(&mut orchestrator);
    let metrics = orchestrator.metrics();
    assert_eq!(metrics.total_messages, 5);
    assert!(metrics.total_iterations > 0);
}

#[test]
fn orchestrator_with_no_agents_completes() {
    let mut orchestrator = Orchestrator::new(AgentRegistry::new(), MessageBus::new());
    assert!(matches!(run(&mut orchestrator), StopReason::Completed));
}

#[test]
fn orchestrator_stops_when_asked() {
    let mut orchestrator = Orchestrator::new(AgentRegistry::new(), MessageBus::new());
    let id = orchestrator.register_agent(worker("a"));
    orchestrator.send(AgentMessage::new(id, id, "x".to_string())).unwrap();
    let r = orchestrator.start(|_, _, _| Ok(()), |_| {}, || 0, || true).unwrap();
    assert!(matches!(r, StopReason::ManualStop));
}

#[test]
fn orchestrator_stops_on_time_limit() {
    let mut orchestrator = Orchestrator::new(AgentRegistry::new(), MessageBus::new());
    let id = orchestrator.register_agent(worker("a"));
    orchestrator.send(AgentMessage::new(id, id, "x".to_string())).unwrap();
    let ticks = std::cell::Cell::new(0u64);
    let r = orchestrator
        .start(
            |_, _, _| Ok(()),
            |_| {},
            || {
                let t = ticks.get();
                ticks.set(t + 700000);
                t
            },
            || false,
        )
        .unwrap();
    assert!(matches!(r, StopReason::MaxExecutionTime));
}

#[test]
fn orchestrator_reports_agent_error_after_retries() {
    let mut orchestrator = Orchestrator::new(AgentRegistry::new(), MessageBus::new());
    let id = orchestrator.register_agent(worker("a"));
    orchestrator.send(AgentMessage::new(id, id, "x".to_string())).unwrap();
    let pauses = std::cell::RefCell::new(Vec::new());
    let r = orchestrator
        .start(|_, _, _| Err("boom".to_string()), |ms| pauses.borrow_mut().push(ms), || 0, || false)
        .unwrap();
    match r {
        StopReason::AgentError { agent_id, error } => {
            assert_eq!(agent_id, id);
            assert_eq!(error, "Max retries exceeded: boom");
        }
        other => panic!("unexpected stop reason {:?}", other),
    }
    assert_eq!(*pauses.borrow(), vec![100, 200]);
    let metrics = orchestrator.metrics();
    assert_eq!(metrics.retry_count, 2);
    assert_eq!(metrics.error_count, 1);
    let status = orchestrator.registry().get_metadata(id).unwrap().status;
    assert!(matches!(status, AgentStatus::Failed { .. }));
}

#[test]
fn register_and_unregister_agent_manage_mailbox() {
    let mut orchestrator = Orchestrator::new(AgentRegistry::new(), MessageBus::new());
    let id = orchestrator.register_agent(worker("a"));
    assert!(orchestrator.message_bus().get_mailbox(id).is_some());
    assert!(orchestrator.unregister_agent(id));
    assert!(orchestrator.message_bus().get_mailbox(id).is_none());
    assert!(orchestrator.registry().get_metadata(id).is_none());
}

#[test]
fn test_two_agent_message_exchange() {
    let mut registry = AgentRegistry::new();
    let mut bus = MessageBus::new();
    let config1 = AgentConfig::new("agent-1".to_string(), AgentRole::Worker, "claude_code".to_string());
    let config2 = AgentConfig::new("agent-2".to_string(), AgentRole::Worker, "codex_cli".to_string());
    let agent1 = registry.register(config1);
    let agent2 = registry.register(config2);
    bus.create_mailbox(agent1);
    bus.create_mailbox(agent2);
    let msg1 = AgentMessage::new(agent1, agent2, "Hello from agent 1".to_string());
    let msg2 = AgentMessage::new(agent2, agent1, "Hello from agent 2".to_string());
    bus.send(msg1).unwrap();
    bus.send(msg2).unwrap();
    let mut orchestrator = Orchestrator::new(registry, bus).with_loop_guard(LoopGuard {
        max_iterations: 100,
        max_messages_per_agent: 10,
        max_execution_time_ms: 5000,
    });
    let result = run(&mut orchestrator);
    assert!(matches!(result, StopReason::Completed));
    let metrics = orchestrator.metrics();
    assert_eq!(metrics.total_messages, 2);
    assert!(metrics.total_iterations > 0);
    assert!(metrics.total_iterations < 100);
    assert_eq!(metrics.messages_per_agent.get(&agent1).copied().unwrap(), 1);
    assert_eq!(metrics.messages_per_agent.get(&agent2).copied().unwrap(), 1);
    assert_eq!(orchestrator.message_bus().queue_depth(), 0);
}

#[test]
fn test_orchestrator_prevents_runaway_loop() {
    let mut registry = AgentRegistry::new();
    let mut bus = MessageBus::new();
    let agent_id = registry.register(worker("runaway-agent"));
    bus.create_mailbox(agent_id);
    for i in 0..100 {
        let msg = AgentMessage::new(agent_id, agent_id, format!("message {}", i));
        bus.send(msg).unwrap();
    }
    let mut orchestrator = Orchestrator::new(registry, bus).with_loop_guard(LoopGuard {
        max_iterations: 10,
        max_messages_per_agent: 5,
        max_execution_time_ms: 5000,
    });
    let result = run(&mut orchestrator);
    assert!(
        matches!(result, StopReason::MaxMessagesPerAgent { .. }) || matches!(result, StopReason::MaxIterations)
    );
}

#[test]
fn test_orchestrator_retry_logic() {
    let mut registry = AgentRegistry::new();
    let mut bus = MessageBus::new();
    let agent_id = registry.register(worker("test-agent"));
    bus.create_mailbox(agent_id);
    let msg = AgentMessage::new(agent_id, agent_id, "test message".to_string());
    bus.send(msg).unwrap();
    let mut orchestrator = Orchestrator::new(registry, bus);
    run(&mut orchestrator);
    let metrics = orchestrator.metrics();
    assert!(metrics.retry_count >= 0);
}

#[test]
fn test_orchestrator_queue_depth_tracking() {
    let mut registry = AgentRegistry::new();
    let mut bus = MessageBus::new();
    let agent_id = registry.register(worker("test-agent"));
    bus.create_mailbox(agent_id);
    for i in 0..5 {
        let msg = AgentMessage::new(agent_id, agent_id, format!("msg {}", i));
        bus.send(msg).unwrap();
    }
    assert_eq!(bus.queue_depth(), 5);
    let mut orchestrator = Orchestrator::new(registry, bus);
    run(&mut orchestrator);
    assert_eq!(orchestrator.message_bus().queue_depth(), 0);
}

#[test]
fn test_orchestrator_multi_agent_coordination() {
    let mut registry = AgentRegistry::new();
    let mut bus = MessageBus::new();
    let coordinator_id =
        registry.register(AgentConfig::new("coordinator".to_string(), AgentRole::Coordinator, "claude_code".to_string()));
    let worker1_id = registry.register(AgentConfig::new("worker-1".to_string(), AgentRole::Worker, "codex_cli".to_string()));
    let worker2_id = registry.register(AgentConfig::new("worker-2".to_string(), AgentRole::Worker, "ollama".to_string()));
    bus.create_mailbox(coordinator_id);
    bus.create_mailbox(worker1_id);
    bus.create_mailbox(worker2_id);
    bus.send(AgentMessage::new(coordinator_id, worker1_id, "Task 1".to_string())).unwrap();
    bus.send(AgentMessage::new(coordinator_id, worker2_id, "Task 2".to_string())).unwrap();
    bus.send(AgentMessage::new(worker1_id, coordinator_id, "Result 1".to_string())).unwrap();
    bus.send(AgentMessage::new(worker2_id, coordinator_id, "Result 2".to_string())).unwrap();
    let mut orchestrator = Orchestrator::new(registry, bus);
    let stop_reason = run(&mut orchestrator);
    assert!(matches!(stop_reason, StopReason::Completed));
    let metrics = orchestrator.metrics();
    assert_eq!(metrics.total_messages, 4);
    assert!(metrics.messages_per_agent.contains_key(&coordinator_id));
    assert!(metrics.messages_per_agent.contains_key(&worker1_id));
    assert!(metrics.messages_per_agent.contains_key(&worker2_id));
}

#[test]
fn test_orchestrator_metrics_reset() {
    let mut registry = AgentRegistry::new();
    let mut bus = MessageBus::new();
    let agent_id = registry.register(worker("test-agent"));
    bus.create_mailbox(agent_id);
    bus.send(AgentMessage::new(agent_id, agent_id, "test".to_string())).unwrap();
    let mut orchestrator = Orchestrator::new(registry, bus);
    run(&mut orchestrator);
    let metrics = orchestrator.metrics();
    assert!(metrics.total_messages > 0);
    orchestrator.reset_metrics();
    let metrics = orchestrator.metrics();
    assert_eq!(metrics.total_messages, 0);
    assert_eq!(metrics.total_iterations, 0);
}

#[test]
fn backoff_doubles_from_one_hundred_ms() {
    assert_eq!(backoff_ms(1), 100);
    assert_eq!(backoff_ms(2), 200);
    assert_eq!(backoff_ms(3), 400);
    assert_eq!(backoff_ms(200), u64::MAX);
}

#[test]
fn create_orchestrator_request_fills_defaults() {
    let req = CreateOrchestratorRequest { max_iterations: Some(7), max_messages_per_agent: None, max_execution_time_ms: None };
    let guard = req.loop_guard();
    assert_eq!(guard, LoopGuard { max_iterations: 7, max_messages_per_agent: 50, max_execution_time_ms: 600000 });
    assert_eq!(LoopGuard::default().max_iterations, 100);
}

#[test]
fn two_agents_exchange_with_default_guard() {
    let mut orchestrator = Orchestrator::new(AgentRegistry::new(), MessageBus::new());
    let a = orchestrator.register_agent(worker("A"));
    let b = orchestrator.register_agent(worker("B"));
    orchestrator.send(AgentMessage::new(a, b, "hello from A".to_string())).unwrap();
    orchestrator.send(AgentMessage::new(b, a, "hello from B".to_string())).unwrap();
    assert!(matches!(run(&mut orchestrator), StopReason::Completed));
    let metrics = orchestrator.metrics();
    assert_eq!(metrics.total_messages, 2);
    assert_eq!(metrics.messages_per_agent[&a], 1);
    assert_eq!(metrics.messages_per_agent[&b], 1);
    assert_eq!(orchestrator.message_bus().queue_depth(), 0);
    assert_eq!(orchestrator.message_bus().total_received(), 2);
}
