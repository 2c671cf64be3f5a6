use ollama_chat::pending::PendingQueue;
use std::sync::{Arc, Mutex};

#[test]
fn drain_returns_items_in_push_order() {
    let mut q = PendingQueue::new();
    q.push("Assistant: a (typing_1)".to_string());
    q.push("Error: b (typing_2)".to_string());
    assert_eq!(q.len(), 2);
    assert_eq!(q.snapshot(), vec!["Assistant: a (typing_1)", "Error: b (typing_2)"]);
    assert_eq!(q.len(), 2);
    let out = q.drain();
    assert_eq!(out, vec!["Assistant: a (typing_1)", "Error: b (typing_2)"]);
    assert_eq!(q.len(), 0);
    assert!(q.drain().is_empty());
}

#[test]
fn interleaved_pushes_and_drains_hand_out_each_item_once() {
    let shared = Arc::new(Mutex::new(PendingQueue::new()));
    let mut seen: Vec<String> = Vec::new();
    let mut sent: Vec<String> = Vec::new();
    for round in 0..5 {
        for producer in 0..3 {
            let item = format!("reply {} from {}", round, producer);
            sent.push(item.clone());
            shared.lock().unwrap().push(item);
        }
        if round % 2 == 1 {
            seen.extend(shared.lock().unwrap().drain());
        }
    }
    seen.extend(shared.lock().unwrap().drain());
    assert_eq!(seen, sent);
    assert_eq!(shared.lock().unwrap().len(), 0);
}

#[test]
fn empty_queue() {
    let q = PendingQueue::new();
    assert_eq!(q.len(), 0);
    assert!(q.snapshot().is_empty());
}
