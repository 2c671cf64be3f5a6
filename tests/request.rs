use ollama_chat::request::{
    build_payload, interpret_reply, status_is_success, RequestError, CONTEXT, ENDPOINT, MODEL,
};

#[test]
fn payload_for_single_reply() {
    let body = build_payload("hi", false);
    let expected = "{\"model\":\"llama3\",\"prompt\":\"You are a professional software developer that knows everything about development. Now this is the prompt from the user: \\nhi\",\"stream\":false}";
    assert_eq!(body, expected);
}

#[test]
fn payload_for_stream_has_no_stream_member() {
    let body = build_payload("hi", true);
    let value: serde_json::Value = serde_json::from_str(&body).unwrap();
    assert_eq!(value["model"], "llama3");
    assert_eq!(value["prompt"], format!("{}hi", CONTEXT));
    assert!(value.get("stream").is_none());
}

#[test]
fn payload_escapes_quotes_and_backslashes() {
    let prompt = "say \"hi\" \\ now";
    let body = build_payload(prompt, false);
    assert!(body.contains("say \\\"hi\\\" \\\\ now"));
    let value: serde_json::Value = serde_json::from_str(&body).unwrap();
    assert_eq!(value["prompt"], format!("{}{}", CONTEXT, prompt));
    assert_eq!(value["stream"], false);
}

#[test]
fn constants() {
    assert_eq!(MODEL, "llama3");
    assert_eq!(ENDPOINT, "http://localhost:11434/api/generate");
}

#[test]
fn success_statuses() {
    assert!(status_is_success(200));
    assert!(status_is_success(204));
    assert!(status_is_success(299));
    assert!(!status_is_success(199));
    assert!(!status_is_success(300));
    assert!(!status_is_success(404));
    assert!(!status_is_success(500));
}

#[test]
fn reply_text_is_response_member() {
    let r = interpret_reply(200, "{\"model\":\"llama3\",\"response\":\"hello there\",\"done\":true}");
    assert_eq!(r.ok().unwrap(), "hello there");
}

#[test]
fn reply_without_done_is_accepted() {
    let r = interpret_reply(201, "{\"response\":\"x\"}");
    assert_eq!(r.ok().unwrap(), "x");
}

#[test]
fn server_error_status_is_request_failed() {
    match interpret_reply(500, "internal trouble") {
        Err(RequestError::RequestFailed { status, body }) => {
            assert_eq!(status, 500);
            assert_eq!(body, "internal trouble");
        }
        _ => panic!("expected RequestFailed"),
    }
}

#[test]
fn error_status_wins_over_valid_body() {
    match interpret_reply(404, "{\"response\":\"ok\",\"done\":true}") {
        Err(RequestError::RequestFailed { status, body }) => {
            assert_eq!(status, 404);
            assert_eq!(body, "{\"response\":\"ok\",\"done\":true}");
        }
        _ => panic!("expected RequestFailed"),
    }
}

#[test]
fn malformed_body_is_decode_error() {
    assert!(matches!(interpret_reply(200, "{\"response\": \"unterminated"), Err(RequestError::DecodeError(_))));
    assert!(matches!(interpret_reply(200, ""), Err(RequestError::DecodeError(_))));
    assert!(matches!(interpret_reply(200, "not json"), Err(RequestError::DecodeError(_))));
}

#[test]
fn decode_error_carries_a_reason() {
    match interpret_reply(200, "not json") {
        Err(RequestError::DecodeError(reason)) => assert!(reason.contains("line 1")),
        _ => panic!("expected DecodeError"),
    }
    match interpret_reply(200, "{\"other\":1}") {
        Err(RequestError::DecodeError(reason)) => assert_eq!(reason, "missing field `response`"),
        _ => panic!("expected DecodeError"),
    }
}

#[test]
fn body_without_response_is_decode_error() {
    assert!(matches!(interpret_reply(200, "{\"other\":1}"), Err(RequestError::DecodeError(_))));
    assert!(matches!(interpret_reply(200, "{\"response\":5}"), Err(RequestError::DecodeError(_))));
    assert!(matches!(interpret_reply(200, "[1,2]"), Err(RequestError::DecodeError(_))));
}
