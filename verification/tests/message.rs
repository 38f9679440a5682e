//! Messages, events and errors.
use cadmus::json::Value;
use cadmus::runtime::wire::{message_size, render_message};
use cadmus::{
    ContentPart, Event, EventError, EventKind, FinishReason, LogError, Message, ModelError,
    RetryAfter, Role, Status, ToolCall,
};

fn json(text: &str) -> Value {
    Value::parse(text).expect("valid JSON")
}

#[test]
fn tool_error_marks_the_flag_and_shares_the_payload_shaping() {
    let error = Message::tool_error("c1", Value::string("boom"));
    assert!(error.is_error);
    assert_eq!(error.role, Role::Tool);
    assert_eq!(error.tool_call_id.as_deref(), Some("c1"));

    let ok = Message::tool_result("c1", Value::string("boom"));
    assert!(!ok.is_error);
    assert_eq!(ok.content, error.content);
}

#[test]
fn structured_results_are_shown_as_json() {
    let message = Message::tool_result("c1", json("{\"b\": [1, true, null], \"a\": \"x\\ny\"}"));
    assert_eq!(
        message.content,
        vec![ContentPart::Text {
            text: "{\"a\":\"x\\ny\",\"b\":[1,true,null]}".into()
        }]
    );
}

#[test]
fn messages_are_written_as_json_without_what_is_absent() {
    let plain = Message::tool_result("c1", Value::string("x"));
    let text =
        "{\"role\":\"tool\",\"content\":[{\"type\":\"text\",\"text\":\"x\"}],\"tool_call_id\":\"c1\"}";
    assert_eq!(render_message(&plain), text);
    assert_eq!(message_size(&plain), text.len());

    let error = Message::tool_error("c1", Value::string("x"));
    assert_eq!(
        render_message(&error),
        text.replace("\"c1\"}", "\"c1\",\"is_error\":true}")
    );

    let mut turn = Message::text(Role::Assistant, "h\u{e9}\n");
    turn.content.push(ContentPart::Reasoning { text: "r".into() });
    turn.content.push(ContentPart::ToolCall {
        call: ToolCall {
            id: "a".into(),
            name: "grep".into(),
            arguments: json("{\"n\": 1}"),
        },
    });
    turn.content.push(ContentPart::Image {
        bytes: vec![0, 255],
    });
    turn.opaque = Some(json("{\"k\": \"v\"}"));
    let text = "{\"role\":\"assistant\",\"content\":[\
        {\"type\":\"text\",\"text\":\"h\u{e9}\\n\"},\
        {\"type\":\"reasoning\",\"text\":\"r\"},\
        {\"type\":\"tool_call\",\"call\":{\"id\":\"a\",\"name\":\"grep\",\"arguments\":{\"n\":1}}},\
        {\"type\":\"image\",\"bytes\":[0,255]}],\
        \"opaque\":{\"k\":\"v\"}}";
    assert_eq!(render_message(&turn), text);
    assert_eq!(message_size(&turn), text.len());
}

#[test]
fn text_parts_join_with_newlines() {
    let mut message = Message::text(Role::Assistant, "one");
    message.content.push(ContentPart::Reasoning {
        text: "hidden".into(),
    });
    message.content.push(ContentPart::Text { text: "two".into() });
    assert_eq!(message.text_body(), "one\ntwo");
    assert!(message.tool_calls().is_empty());
}

#[test]
fn model_errors_read_as_before() {
    assert_eq!(
        ModelError::RateLimited { retry_after: None }.to_text(),
        "rate limited"
    );
    let span = RetryAfter::new(2, 500_000_000).expect("less than a second of rest");
    assert_eq!((span.as_secs(), span.subsec_nanos()), (2, 500_000_000));
    assert_eq!(
        ModelError::RateLimited {
            retry_after: Some(span)
        }
        .to_text(),
        "rate limited (retry after 2.5s)"
    );
    assert_eq!(
        ModelError::ContextLength.to_text(),
        "context length exceeded"
    );
    assert_eq!(
        ModelError::Network("reset".into()).to_text(),
        "network error: reset"
    );
    assert_eq!(
        ModelError::Protocol("frame".into()).to_text(),
        "wire protocol violation: frame"
    );
    assert_eq!(
        ModelError::InvalidRequest("x".into()).to_text(),
        "invalid request: x"
    );
    assert_eq!(
        ModelError::CapabilityMismatch("x".into()).to_text(),
        "capability mismatch: x"
    );
    assert_eq!(
        ModelError::Auth("x".into()).to_text(),
        "authentication failed: x"
    );
    assert!(RetryAfter::new(0, 1_000_000_000).is_none());
}

#[test]
fn log_errors_name_what_failed() {
    assert_eq!(
        LogError::Serialize("x".into()).to_text(),
        "event serialization failed: x"
    );
    assert_eq!(
        LogError::Io("x".into()).to_text(),
        "event log write failed: x"
    );
    assert_eq!(
        LogError::InvalidTraceId("t".into()).to_text(),
        "trace id `t` carries no shard date (expected `tr-YYYYMMDD-…`)"
    );
}

#[test]
fn finish_reasons_show_their_name() {
    assert_eq!(FinishReason::ToolCalls.to_text(), "ToolCalls");
    assert_eq!(
        FinishReason::Other("a\"b".into()).to_text(),
        "Other(\"a\\\"b\")"
    );
}

#[test]
fn errored_events_carry_their_detail() {
    let event = Event::new(
        1,
        "e1".into(),
        "t".into(),
        "s".into(),
        None,
        0,
        EventKind::RunFinished { turns: 1 },
    );
    assert_eq!(event.status, Status::Success);
    let failed = event.errored(EventError {
        kind: "k".into(),
        message: "m".into(),
    });
    assert_eq!(failed.status, Status::Error);
    assert_eq!(failed.error.as_ref().map(|e| e.kind.as_str()), Some("k"));
}

#[test]
fn attributes_are_read_back_by_type() {
    let event = Event::new(
        1,
        "e1".into(),
        "t".into(),
        "s".into(),
        None,
        0,
        EventKind::RunFinished { turns: 1 },
    )
    .with_attribute("b", Value::string("x"))
    .with_attribute("a", Value::unsigned(7))
    .with_attribute("b", Value::string("y"));
    assert_eq!(event.attributes.string("b").as_deref(), Some("y"));
    assert_eq!(event.attributes.unsigned("a"), Some(7));
    assert_eq!(event.attributes.unsigned("b"), None);
    assert_eq!(event.attributes.string("c"), None);
    let keys: Vec<&str> = event
        .attributes
        .entries
        .iter()
        .map(|(key, _)| key.as_str())
        .collect();
    assert_eq!(keys, ["a", "b"]);
}
