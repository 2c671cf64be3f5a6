use ollama_chat::transcript::{
    bubble, cap_events, error_entry_text, is_error_entry, reply_entry_text, ApplyOutcome,
    Transcript, EVENT_LIMIT,
};

fn lines(t: &Transcript) -> Vec<String> {
    (0..t.len()).map(|i| t.line(i).clone()).collect()
}

#[test]
fn submit_adds_user_line_and_placeholder() {
    let mut t = Transcript::new();
    let token = t.submit("  hello there \n", 1700000000123);
    assert_eq!(token.as_deref(), Some("typing_1700000000123"));
    assert_eq!(
        lines(&t),
        vec!["You: hello there", "Assistant: \u{2588} (typing_1700000000123)"]
    );
}

#[test]
fn blank_input_is_not_sent() {
    let mut t = Transcript::new();
    assert!(t.submit("   \t\n", 5).is_none());
    assert!(t.submit("", 5).is_none());
    assert_eq!(t.len(), 0);
}

#[test]
fn reply_replaces_its_placeholder() {
    let mut t = Transcript::new();
    let first = t.submit("one", 10).unwrap();
    let second = t.submit("two", 20).unwrap();
    let entry = reply_entry_text("second answer", &second);
    assert_eq!(entry, "Assistant: second answer (typing_20)");
    match t.apply_reply(&entry) {
        ApplyOutcome::Replaced { position, content } => {
            assert_eq!(position, 3);
            assert_eq!(content, "Assistant: second answer");
        }
        _ => panic!("expected a replacement"),
    }
    let entry = reply_entry_text("first answer", &first);
    assert!(matches!(t.apply_reply(&entry), ApplyOutcome::Replaced { position: 1, .. }));
    assert_eq!(
        lines(&t),
        vec![
            "You: one",
            "Assistant: Assistant: first answer",
            "You: two",
            "Assistant: Assistant: second answer"
        ]
    );
}

#[test]
fn error_reply_replaces_its_placeholder() {
    let mut t = Transcript::new();
    let token = t.submit("q", 7).unwrap();
    let entry = error_entry_text("connection refused", &token);
    assert_eq!(entry, "Error: connection refused (typing_7)");
    assert!(is_error_entry(&entry));
    assert!(matches!(t.apply_reply(&entry), ApplyOutcome::Replaced { position: 1, .. }));
    assert_eq!(t.line(1), "Assistant: Error: connection refused");
}

#[test]
fn reply_without_matching_placeholder() {
    let mut t = Transcript::new();
    t.submit("q", 7).unwrap();
    match t.apply_reply("Assistant: late (typing_99)") {
        ApplyOutcome::NoMatch { token } => assert_eq!(token, "typing_99"),
        _ => panic!("expected no match"),
    }
    assert_eq!(t.len(), 3);
    assert_eq!(t.line(1), "Assistant: \u{2588} (typing_7)");
    assert_eq!(t.line(2), "Assistant: late (typing_99)");
}

#[test]
fn reply_without_token() {
    let mut t = Transcript::new();
    t.submit("q", 7).unwrap();
    assert!(matches!(t.apply_reply("no token here"), ApplyOutcome::NoToken));
    assert_eq!(t.len(), 3);
    assert_eq!(t.line(1), "Assistant: \u{2588} (typing_7)");
    assert_eq!(t.line(2), "no token here");
}

#[test]
fn token_is_taken_after_last_parenthesis() {
    let mut t = Transcript::new();
    t.submit("q", 3).unwrap();
    let entry = reply_entry_text("f(x) = (y)", "typing_3");
    assert!(matches!(t.apply_reply(&entry), ApplyOutcome::Replaced { position: 1, .. }));
    assert_eq!(t.line(1), "Assistant: Assistant: f(x) = (y)");
}

#[test]
fn first_matching_line_is_replaced() {
    let mut t = Transcript::new();
    t.push_line("Assistant: a (typing_1)  ".to_string());
    t.push_line("Assistant: b (typing_1)".to_string());
    assert!(matches!(t.apply_reply("done (typing_1) "), ApplyOutcome::Replaced { position: 0, .. }));
    assert_eq!(t.line(0), "Assistant: done");
    assert_eq!(t.line(1), "Assistant: b (typing_1)");
}

#[test]
fn error_entries_are_recognised() {
    assert!(is_error_entry("Error: x"));
    assert!(is_error_entry("Error:"));
    assert!(!is_error_entry("Error"));
    assert!(!is_error_entry("Assistant: Error: x"));
    assert!(!is_error_entry(""));
}

#[test]
fn bubbles() {
    assert_eq!(bubble("You: hi"), (true, "hi".to_string()));
    assert_eq!(bubble(" You :  hi: there"), (true, "hi: there".to_string()));
    assert_eq!(bubble("Assistant:   yo"), (false, "yo".to_string()));
    assert_eq!(bubble("  plain"), (false, "plain".to_string()));
    assert_eq!(bubble("Your: x"), (false, "x".to_string()));
}

#[test]
fn events_keep_the_latest() {
    let mut events: Vec<String> = Vec::new();
    for i in 0..EVENT_LIMIT + 3 {
        events.push(format!("event {}", i));
        cap_events(&mut events);
    }
    assert_eq!(EVENT_LIMIT, 20);
    assert_eq!(events.len(), 20);
    assert_eq!(events[0], "event 3");
    assert_eq!(events[19], "event 22");
}

#[test]
fn events_over_the_limit_drop_one_at_a_time() {
    let mut events: Vec<String> = (0..25).map(|i| format!("e{}", i)).collect();
    cap_events(&mut events);
    assert_eq!(events.len(), 24);
    assert_eq!(events[0], "e1");
    assert_eq!(events[23], "e24");
}

#[test]
fn events_at_the_limit_are_kept() {
    let mut events: Vec<String> = (0..20).map(|i| format!("e{}", i)).collect();
    cap_events(&mut events);
    assert_eq!(events.len(), 20);
    assert_eq!(events[0], "e0");
}
