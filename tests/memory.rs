use agent_runtime::blackboard::{rank_top_k, score_key, Blackboard};
use agent_runtime::memory::{BlackboardEntry, MemoryEntry};
use agent_runtime::memory_manager::{summarize_entries, MemoryManager};
use agent_runtime::ring_buffer::RingBuffer;

fn new_id() -> u128 {
    uuid::Uuid::new_v4().as_u128()
}

fn sleep_ms(ms: u64) {
    let start = std::time::Instant::now();
    while start.elapsed() < std::time::Duration::from_millis(ms) {}
}

#[test]
fn test_ring_buffer_push() {
    let mut buffer = RingBuffer::new(100);
    let entry = MemoryEntry::new("test".to_string(), 10);
    buffer.push(entry);
    assert_eq!(buffer.token_count(), 10);
    assert_eq!(buffer.get_all().len(), 1);
}

#[test]
fn test_ring_buffer_capacity_enforcement() {
    let mut buffer = RingBuffer::new(50);
    for i in 0..7 {
        let entry = MemoryEntry::new(format!("entry{}", i), 10);
        buffer.push(entry);
    }
    assert!(buffer.token_count() <= 50);
    let entries = buffer.get_all();
    assert!(!entries.iter().any(|e| e.content == "entry0"));
    assert_eq!(buffer.stats().eviction_count, 2);
    assert_eq!(buffer.stats().total_entries, entries.len());
}

#[test]
fn test_ring_buffer_eviction_order() {
    let mut buffer = RingBuffer::new(50);
    for i in 0..6 {
        let entry = MemoryEntry::new(format!("entry{}", i), 10);
        buffer.push(entry);
    }
    let entries = buffer.get_all();
    assert!(entries.len() <= 5);
    assert!(!entries.iter().any(|e| e.content == "entry0"));
}

#[test]
fn ring_buffer_entry_larger_than_capacity_empties_it() {
    let mut buffer = RingBuffer::new(50);
    buffer.push(MemoryEntry::new("small".to_string(), 10));
    buffer.push(MemoryEntry::new("huge".to_string(), 60));
    assert_eq!(buffer.token_count(), 0);
    assert_eq!(buffer.get_all().len(), 0);
    assert_eq!(buffer.stats().eviction_count, 2);
}

#[test]
fn test_should_summarize() {
    let mut buffer = RingBuffer::new(100).with_threshold(800);
    buffer.push(MemoryEntry::new("test".to_string(), 70));
    assert!(!buffer.should_summarize());
    buffer.push(MemoryEntry::new("test2".to_string(), 15));
    assert!(buffer.should_summarize());
}

#[test]
fn ring_buffer_threshold_is_clamped_and_zero_capacity_never_summarizes() {
    let mut buffer = RingBuffer::new(100).with_threshold(5000);
    buffer.push(MemoryEntry::new("x".to_string(), 99));
    assert!(!buffer.should_summarize());
    buffer.push(MemoryEntry::new("y".to_string(), 1));
    assert!(buffer.should_summarize());
    let empty = RingBuffer::new(0);
    assert!(!empty.should_summarize());
    assert_eq!(empty.usage_ratio(), 0);
}

#[test]
fn test_summarization() {
    let mut buffer = RingBuffer::new(100);
    for i in 0..10 {
        buffer.push(MemoryEntry::new(format!("entry{}", i), 10));
    }
    assert_eq!(buffer.token_count(), 100);
    buffer.summarize("Summary of all entries".to_string(), 20);
    assert_eq!(buffer.token_count(), 20);
    assert_eq!(buffer.get_all().len(), 1);
    let stats = buffer.stats();
    assert_eq!(stats.summarization_count, 1);
    assert_eq!(buffer.get_all()[0].content, "Summary of all entries");
}

#[test]
fn test_get_recent() {
    let mut buffer = RingBuffer::new(1000);
    for i in 0..10 {
        buffer.push(MemoryEntry::new(format!("entry{}", i), 10));
    }
    let recent = buffer.get_recent(3);
    assert_eq!(recent.len(), 3);
    assert_eq!(recent[0].content, "entry7");
    assert_eq!(recent[1].content, "entry8");
    assert_eq!(recent[2].content, "entry9");
    assert_eq!(buffer.get_recent(50).len(), 10);
}

#[test]
fn test_usage_ratio() {
    let mut buffer = RingBuffer::new(100);
    buffer.push(MemoryEntry::new("test".to_string(), 50));
    assert_eq!(buffer.usage_ratio() as f32 / 1000.0, 0.5);
    buffer.push(MemoryEntry::new("test2".to_string(), 30));
    assert_eq!(buffer.usage_ratio() as f32 / 1000.0, 0.8);
}

#[test]
fn ring_buffer_clear_keeps_capacity() {
    let mut buffer = RingBuffer::new(100);
    buffer.push(MemoryEntry::new("a".to_string(), 30));
    buffer.clear();
    assert_eq!(buffer.token_count(), 0);
    assert_eq!(buffer.capacity(), 100);
    assert_eq!(buffer.get_all().len(), 0);
}

#[test]
fn test_blackboard_put_get() {
    let mut bb = Blackboard::new(10);
    let entry = BlackboardEntry::new("key1".to_string(), "value1".to_string());
    bb.put(entry);
    let retrieved = bb.get("key1").unwrap();
    assert_eq!(retrieved.value, "value1");
    assert_eq!(retrieved.access_count, 2);
}

#[test]
fn blackboard_put_then_get_at_fixed_times() {
    let mut bb = Blackboard::new(10);
    bb.put_at(BlackboardEntry::new_at("k".to_string(), "v".to_string(), 5), 10);
    let got = bb.get_at("k", 20).unwrap();
    assert_eq!(got.value, "v");
    assert_eq!(got.access_count, 2);
    assert_eq!(got.last_accessed, 20);
}

#[test]
fn test_blackboard_ttl() {
    let mut bb = Blackboard::new(10);
    let entry = BlackboardEntry::new("key1".to_string(), "value1".to_string()).with_ttl(0);
    bb.put(entry);
    sleep_ms(10);
    let retrieved = bb.get("key1");
    assert!(retrieved.is_none());
    let stats = bb.stats();
    assert_eq!(stats.miss_count, 1);
}

#[test]
fn blackboard_expired_entry_is_not_resurrected() {
    let mut bb = Blackboard::new(10);
    let entry = BlackboardEntry::new_at("k".to_string(), "v".to_string(), 0).with_ttl_at(1, 0);
    bb.put_at(entry, 0);
    assert!(bb.get_at("k", 500).is_some());
    assert!(bb.get_at("k", 1001).is_none());
    assert!(bb.get_at("k", 0).is_none());
    assert_eq!(bb.stats().expired_entries, 1);
    assert_eq!(bb.keys().len(), 0);
}

#[test]
fn test_blackboard_lru_eviction() {
    let mut bb = Blackboard::new(3);
    for i in 0..3 {
        let entry = BlackboardEntry::new(format!("key{}", i), format!("value{}", i));
        bb.put(entry);
        sleep_ms(10);
    }
    bb.get("key1");
    bb.get("key2");
    let entry = BlackboardEntry::new("key3".to_string(), "value3".to_string());
    bb.put(entry);
    assert!(bb.get("key0").is_none());
    assert!(bb.get("key1").is_some());
    assert!(bb.get("key2").is_some());
    assert!(bb.get("key3").is_some());
    assert_eq!(bb.stats().eviction_count, 1);
}

#[test]
fn blackboard_never_exceeds_max_entries() {
    let mut bb = Blackboard::new(2);
    for i in 0..5 {
        bb.put_at(BlackboardEntry::new_at(format!("k{}", i), "v".to_string(), i), i);
        assert!(bb.keys().len() <= 2);
    }
    bb.put_at(BlackboardEntry::new_at("k4".to_string(), "w".to_string(), 9), 9);
    assert_eq!(bb.keys().len(), 2);
    assert_eq!(bb.get_at("k4", 10).unwrap().value, "w");
}

#[test]
fn blackboard_recall_candidates_have_embeddings() {
    let mut bb = Blackboard::new(10);
    let bits = |v: &[f32]| v.iter().map(|x| x.to_bits()).collect::<Vec<u32>>();
    bb.put(BlackboardEntry::new("doc1".to_string(), "about cats".to_string()).with_embedding(bits(&[1.0, 0.0, 0.0])));
    bb.put(BlackboardEntry::new("doc2".to_string(), "about dogs".to_string()).with_embedding(bits(&[0.0, 1.0, 0.0])));
    bb.put(BlackboardEntry::new("doc3".to_string(), "about cats and dogs".to_string()).with_embedding(bits(&[0.7, 0.7, 0.0])));
    bb.put(BlackboardEntry::new("plain".to_string(), "no embedding".to_string()));
    let candidates = bb.recall_candidates_at(i64::MIN);
    assert_eq!(candidates.len(), 3);
    assert!(candidates.iter().any(|e| e.key == "doc1"));
    assert!(candidates.iter().all(|e| e.embedding.is_some()));
}

#[test]
fn test_blackboard_stats() {
    let mut bb = Blackboard::new(10);
    let entry = BlackboardEntry::new("key1".to_string(), "value1".to_string());
    bb.put(entry);
    bb.get("key1");
    bb.get("key_nonexistent");
    let stats = bb.stats();
    assert_eq!(stats.hit_count, 1);
    assert_eq!(stats.miss_count, 1);
    assert_eq!(stats.total_entries, 1);
}

#[test]
fn test_blackboard_clear() {
    let mut bb = Blackboard::new(10);
    for i in 0..5 {
        let entry = BlackboardEntry::new(format!("key{}", i), format!("value{}", i));
        bb.put(entry);
    }
    assert_eq!(bb.keys().len(), 5);
    bb.clear();
    assert_eq!(bb.keys().len(), 0);
}

#[test]
fn blackboard_remove_and_recall_latency() {
    let mut bb = Blackboard::new(10);
    bb.put(BlackboardEntry::new("a".to_string(), "1".to_string()));
    assert!(bb.remove("a"));
    assert!(!bb.remove("a"));
    bb.record_recall_latency(10);
    bb.record_recall_latency(20);
    assert_eq!(bb.stats().recall_count, 2);
    assert_eq!(bb.stats().avg_recall_latency_ms, 15);
}

#[test]
fn test_memory_manager_agent_buffer() {
    let mut manager = MemoryManager::new(100);
    let agent_id = new_id();
    manager.create_agent_buffer(agent_id, 100);
    let entry = MemoryEntry::new("test".to_string(), 10);
    manager.add_to_agent(agent_id, entry).unwrap();
    let stats = manager.get_agent_stats(agent_id).unwrap();
    assert_eq!(stats.total_tokens, 10);
}

#[test]
fn memory_manager_add_to_missing_agent_fails() {
    let mut manager = MemoryManager::new(100);
    assert!(manager.add_to_agent(new_id(), MemoryEntry::new("x".to_string(), 1)).is_err());
}

#[test]
fn test_memory_manager_blackboard() {
    let mut manager = MemoryManager::new(100);
    manager.add_to_blackboard("key1".to_string(), "value1".to_string(), None).unwrap();
    let entry = manager.get_from_blackboard("key1").unwrap();
    assert_eq!(entry.value, "value1");
}

#[test]
fn test_memory_manager_multiple_agents() {
    let mut manager = MemoryManager::new(100);
    let agent1 = new_id();
    let agent2 = new_id();
    manager.create_agent_buffer(agent1, 100);
    manager.create_agent_buffer(agent2, 100);
    manager.add_to_agent(agent1, MemoryEntry::new("agent1 memory".to_string(), 10)).unwrap();
    manager.add_to_agent(agent2, MemoryEntry::new("agent2 memory".to_string(), 15)).unwrap();
    let stats1 = manager.get_agent_stats(agent1).unwrap();
    let stats2 = manager.get_agent_stats(agent2).unwrap();
    assert_eq!(stats1.total_tokens, 10);
    assert_eq!(stats2.total_tokens, 15);
}

#[test]
fn test_memory_manager_remove_agent() {
    let mut manager = MemoryManager::new(100);
    let agent_id = new_id();
    manager.create_agent_buffer(agent_id, 100);
    assert!(manager.get_agent_buffer(agent_id).is_some());
    manager.remove_agent_buffer(agent_id);
    assert!(manager.get_agent_buffer(agent_id).is_none());
}

#[test]
fn test_memory_manager_summarization_trigger() {
    let mut manager = MemoryManager::new(100);
    let agent_id = new_id();
    manager.create_agent_buffer(agent_id, 50);
    for i in 0..10 {
        let entry = MemoryEntry::new(format!("entry {} with some content", i), 8);
        manager.add_to_agent(agent_id, entry).unwrap();
    }
    let stats = manager.get_agent_stats(agent_id).unwrap();
    assert!(stats.summarization_count > 0);
}

#[test]
fn summary_stub_cuts_long_text_to_both_ends() {
    let short = vec![MemoryEntry::new("a".to_string(), 1), MemoryEntry::new("b".to_string(), 1)];
    let (text, tokens) = summarize_entries(&short, 100);
    assert_eq!(text, "a\nb");
    assert_eq!(tokens, 0);
    let long = vec![MemoryEntry::new("x".repeat(100), 1), MemoryEntry::new("y".repeat(100), 1)];
    let (text, tokens) = summarize_entries(&long, 100);
    assert_eq!(text, format!("{}...{}", "x".repeat(100), "y".repeat(100)));
    assert_eq!(tokens, 50);
    let whole = vec![MemoryEntry::new("z".repeat(180), 1)];
    assert_eq!(summarize_entries(&whole, 100).0, "z".repeat(180));
    let (text, tokens) = summarize_entries(&long, 10);
    assert_eq!(text, "x".repeat(40));
    assert_eq!(tokens, 10);
}

#[test]
fn test_two_agents_sharing_blackboard() {
    let mut manager = MemoryManager::new(10);
    let agent1 = new_id();
    let agent2 = new_id();
    manager.create_agent_buffer(agent1, 100);
    manager.create_agent_buffer(agent2, 100);
    manager.add_to_agent(agent1, MemoryEntry::new("Agent 1 completed task A".to_string(), 10)).unwrap();
    manager
        .add_to_blackboard("task_a_result".to_string(), "Task A completed successfully".to_string(), None)
        .unwrap();
    let result = manager.get_from_blackboard("task_a_result").unwrap();
    assert_eq!(result.value, "Task A completed successfully");
    manager.add_to_agent(agent2, MemoryEntry::new("Agent 2 read task A result".to_string(), 10)).unwrap();
    let stats1 = manager.get_agent_stats(agent1).unwrap();
    let stats2 = manager.get_agent_stats(agent2).unwrap();
    assert_eq!(stats1.total_tokens, 10);
    assert_eq!(stats2.total_tokens, 10);
}

#[test]
fn test_blackboard_ttl_eviction() {
    let mut manager = MemoryManager::new(10);
    manager.add_to_blackboard("temp_key".to_string(), "temp_value".to_string(), None).unwrap();
    assert!(manager.get_from_blackboard("temp_key").is_some());
}

#[test]
fn test_memory_isolation_between_agents() {
    let mut manager = MemoryManager::new(100);
    let agent1 = new_id();
    let agent2 = new_id();
    let agent3 = new_id();
    manager.create_agent_buffer(agent1, 100);
    manager.create_agent_buffer(agent2, 100);
    manager.create_agent_buffer(agent3, 100);
    manager.add_to_agent(agent1, MemoryEntry::new("Agent 1 data".to_string(), 20)).unwrap();
    manager.add_to_agent(agent2, MemoryEntry::new("Agent 2 data".to_string(), 30)).unwrap();
    manager.add_to_agent(agent3, MemoryEntry::new("Agent 3 data".to_string(), 40)).unwrap();
    assert_eq!(manager.get_agent_stats(agent1).unwrap().total_tokens, 20);
    assert_eq!(manager.get_agent_stats(agent2).unwrap().total_tokens, 30);
    assert_eq!(manager.get_agent_stats(agent3).unwrap().total_tokens, 40);
}

#[test]
fn test_blackboard_lru_eviction_with_agents() {
    let mut manager = MemoryManager::new(3);
    for i in 0..5 {
        manager.add_to_blackboard(format!("key{}", i), format!("value{}", i), None).unwrap();
        sleep_ms(10);
    }
    let stats = manager.get_blackboard_stats();
    assert_eq!(stats.total_entries, 3);
    assert!(manager.get_from_blackboard("key4").is_some());
}

#[test]
fn test_blackboard_stats_tracking() {
    let mut manager = MemoryManager::new(10);
    manager.add_to_blackboard("key1".to_string(), "value1".to_string(), None).unwrap();
    manager.add_to_blackboard("key2".to_string(), "value2".to_string(), None).unwrap();
    manager.get_from_blackboard("key1");
    manager.get_from_blackboard("key_nonexistent");
    let stats = manager.get_blackboard_stats();
    assert_eq!(stats.total_entries, 2);
    assert_eq!(stats.hit_count, 1);
    assert_eq!(stats.miss_count, 1);
}

#[test]
fn test_memory_manager_list_agents() {
    let mut manager = MemoryManager::new(100);
    let agent1 = new_id();
    let agent2 = new_id();
    manager.create_agent_buffer(agent1, 100);
    manager.create_agent_buffer(agent2, 100);
    let agents = manager.list_agents();
    assert_eq!(agents.len(), 2);
    assert!(agents.contains(&agent1));
    assert!(agents.contains(&agent2));
}

#[test]
fn ranking_takes_largest_scores_first() {
    let scores = [0.2f32, 0.9, -0.5, 0.7, 0.0];
    let keys: Vec<u32> = scores.iter().map(|s| score_key(s.to_bits())).collect();
    assert_eq!(rank_top_k(&keys, 2), vec![1, 3]);
    assert_eq!(rank_top_k(&keys, 10), vec![1, 3, 0, 4, 2]);
    assert_eq!(rank_top_k(&keys, 0), Vec::<usize>::new());
    assert!(score_key((-1.0f32).to_bits()) < score_key((-0.5f32).to_bits()));
    assert!(score_key((-0.5f32).to_bits()) < score_key(0.25f32.to_bits()));
}

#[test]
fn summarizing_keeps_buffer_within_capacity() {
    let mut manager = MemoryManager::new(10);
    let id = new_id();
    manager.create_agent_buffer(id, 10);
    manager.add_to_agent(id, MemoryEntry::new("w".repeat(300), 10)).unwrap();
    let stats = manager.get_agent_stats(id).unwrap();
    assert_eq!(stats.summarization_count, 1);
    assert!(stats.total_tokens <= 10);
    assert_eq!(stats.total_entries, 1);
}
