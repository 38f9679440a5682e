//! The replayer: a log folds to one run state.
use cadmus::json::Value;
use cadmus::runtime::eval::FULL_MARKS;
use cadmus::runtime::trajectory::latest_response_anchor;
use cadmus::{
    attrs, replay_trace, ChatRequest, Command, ContentPart, Event, EventError, EventKind,
    FinishReason, Message, Role, ScoreEvent, Status, SteerMode, ToolCall, ToolResultProjection,
    TurnOutcome, Usage,
};

fn json(text: &str) -> Value {
    Value::parse(text).expect("valid JSON")
}

fn envelope(id: u32, span: u32, kind: EventKind) -> Event {
    Event::new(
        u64::from(id),
        format!("e{id}"),
        "tr_test".into(),
        format!("s{span}"),
        if span > 1 { Some("s1".to_string()) } else { None },
        1_757_200_000_000 + u64::from(id),
        kind,
    )
}

fn start_run(base: ChatRequest) -> EventKind {
    EventKind::Command(Command::StartRun {
        base: Box::new(base),
        prefix: None,
    })
}

fn assistant_call(id: &str, name: &str, args: &str) -> Message {
    Message {
        role: Role::Assistant,
        content: vec![ContentPart::ToolCall {
            call: ToolCall {
                id: id.into(),
                name: name.into(),
                arguments: json(args),
            },
        }],
        tool_call_id: None,
        is_error: false,
        opaque: None,
    }
}

/// A complete two-turn run: question → tool call → result → answer → scored
/// → finished. Span `s1` is the run root; turns and tool spans hang below it.
fn full_log() -> Vec<Event> {
    let base = ChatRequest::user_text("look up TODOs in main.rs", 4_096);
    vec![
        envelope(1, 1, start_run(base))
            .with_attribute(attrs::PROVIDER, Value::string("kimi"))
            .with_attribute(attrs::MODEL, Value::string("kimi-k3")),
        envelope(2, 2, EventKind::LlmRequest { trailer: None })
            .with_attribute(attrs::TURN, Value::unsigned(1)),
        envelope(
            3,
            2,
            EventKind::LlmResponse {
                message: assistant_call("call_1", "read_file", "{\"path\":\"src/main.rs\"}"),
                usage: Some(Usage {
                    input: 900,
                    output: 30,
                    ..Usage::default()
                }),
                finish: FinishReason::ToolCalls,
                outcome: TurnOutcome::Content,
                warnings: vec![],
            },
        )
        .with_attribute(attrs::TURN, Value::unsigned(1)),
        envelope(
            4,
            3,
            EventKind::ToolCall {
                call: ToolCall {
                    id: "call_1".into(),
                    name: "read_file".into(),
                    arguments: json("{\"path\": \"src/main.rs\"}"),
                },
            },
        ),
        envelope(
            5,
            3,
            EventKind::ToolResult {
                call_id: "call_1".into(),
                result: Value::string("fn main() {\n    // TODO\n}"),
            },
        ),
        envelope(6, 4, EventKind::LlmRequest { trailer: None })
            .with_attribute(attrs::TURN, Value::unsigned(2)),
        envelope(
            7,
            4,
            EventKind::LlmResponse {
                message: Message::text(Role::Assistant, "There is one TODO at line 2."),
                usage: Some(Usage {
                    input: 1_100,
                    output: 12,
                    ..Usage::default()
                }),
                finish: FinishReason::Stop,
                outcome: TurnOutcome::Content,
                warnings: vec![],
            },
        )
        .with_attribute(attrs::TURN, Value::unsigned(2)),
        envelope(
            8,
            1,
            EventKind::EvalScore(ScoreEvent {
                case_id: "find-todo".into(),
                metric: "answer_contains_line".into(),
                score: FULL_MARKS,
                passed: Some(true),
            }),
        ),
        envelope(9, 1, EventKind::RunFinished { turns: 2 }),
    ]
}

#[test]
fn same_log_folds_to_identical_state_twice() {
    let log = full_log();
    let first = replay_trace(&log);
    let second = replay_trace(&log);
    assert_eq!(first, second, "replay must be deterministic");

    assert_eq!(first.trace_id, "tr_test");
    assert_eq!(first.provider.as_deref(), Some("kimi"));
    assert_eq!(first.model.as_deref(), Some("kimi-k3"));
    assert_eq!(first.turns, 2);
    // user → assistant(call) → tool(result) → assistant(answer)
    assert_eq!(first.messages.len(), 4);
    assert_eq!(first.messages[2].tool_call_id.as_deref(), Some("call_1"));
    assert_eq!(first.scores.len(), 1);
    assert!(first.dangling_tool_calls.is_empty());
    let finished = first.finished.as_ref().expect("terminal record");
    assert_eq!(finished.turns, 2);
    assert_eq!(finished.status, Status::Success);
    assert_eq!(
        first.messages,
        vec![
            Message::user("look up TODOs in main.rs"),
            assistant_call("call_1", "read_file", "{\"path\":\"src/main.rs\"}"),
            Message::tool_result("call_1", Value::string("fn main() {\n    // TODO\n}")),
            Message::text(Role::Assistant, "There is one TODO at line 2."),
        ]
    );
}

#[test]
fn crash_truncated_log_leaves_a_dangling_call() {
    let log = full_log();
    let state = replay_trace(&log[..4]);
    assert_eq!(state.turns, 1);
    assert_eq!(state.messages.len(), 2);
    assert_eq!(state.dangling_tool_calls, vec!["call_1"]);
    assert!(state.finished.is_none());
}

#[test]
fn orphan_tool_result_still_appends() {
    let log = [
        full_log().into_iter().next().expect("start_run"),
        envelope(
            2,
            3,
            EventKind::ToolResult {
                call_id: "call_lost".into(),
                result: Value::string("partial output"),
            },
        ),
    ];
    let state = replay_trace(&log);
    assert_eq!(state.messages.len(), 2);
    assert_eq!(state.messages[1].tool_call_id.as_deref(), Some("call_lost"));
    assert!(state.dangling_tool_calls.is_empty());
}

#[test]
fn errored_response_appends_but_does_not_count() {
    let mut log = full_log();
    log[2] = envelope(
        3,
        2,
        EventKind::LlmResponse {
            message: Message::text(Role::Assistant, "partial"),
            usage: None,
            finish: FinishReason::Other("reset".into()),
            outcome: TurnOutcome::Truncated,
            warnings: vec!["stream reset after 7 chunks".into()],
        },
    )
    .errored(EventError {
        kind: "network".into(),
        message: "connection reset".into(),
    });
    // The rest of the log is irrelevant to this assertion; cut it off.
    log.truncate(3);

    let state = replay_trace(&log);
    assert_eq!(state.turns, 0, "errored turns are not completed turns");
    assert_eq!(state.messages.len(), 2);
    assert_eq!(state.warnings, vec!["stream reset after 7 chunks"]);
}

#[test]
fn duplicate_event_ids_fold_once() {
    let mut log = full_log();
    // Simulate a writer retry: the tool_result line appended twice.
    log.insert(5, log[4].clone());
    let state = replay_trace(&log);
    assert_eq!(
        state.messages.len(),
        4,
        "the retry must not duplicate the tool message"
    );
    assert!(state.dangling_tool_calls.is_empty());
}

#[test]
fn a_second_start_run_is_ignored() {
    let mut log = full_log();
    log.push(
        envelope(
            10,
            1,
            start_run(ChatRequest::user_text("a different run entirely", 1_024)),
        )
        .with_attribute(attrs::PROVIDER, Value::string("deepseek")),
    );
    let state = replay_trace(&log);
    assert_eq!(state.messages.len(), 4, "history must stay the first run's");
    assert_eq!(state.provider.as_deref(), Some("kimi"));
}

#[test]
fn errored_run_finished_records_the_failure() {
    let mut log = full_log();
    *log.last_mut().expect("terminal record") =
        envelope(9, 1, EventKind::RunFinished { turns: 16 }).errored(EventError {
            kind: "turn_limit".into(),
            message: "assistant turn limit (16) exceeded".into(),
        });
    let state = replay_trace(&log);
    let finished = state.finished.as_ref().expect("terminal record");
    assert_eq!(finished.status, Status::Error);
    assert_eq!(
        finished.error.as_ref().map(|error| error.kind.as_str()),
        Some("turn_limit")
    );
}

#[test]
fn empty_log_is_an_empty_state() {
    let state = replay_trace(&[]);
    assert_eq!(state.trace_id, "");
    assert!(state.messages.is_empty());
    assert_eq!(state.turns, 0);
    assert!(state.finished.is_none());
}

fn result_event() -> Event {
    Event::new(
        1,
        "result".into(),
        "trace".into(),
        "span".into(),
        None,
        0,
        EventKind::ToolResult {
            call_id: "duplicate".into(),
            result: Value::string("B completed"),
        },
    )
}

#[test]
fn approval_projection_requires_both_typed_attributes_and_preserves_legacy_messages() {
    let legacy = result_event();
    let expected = replay_trace(std::slice::from_ref(&legacy));
    assert!(expected.tool_results.is_empty());
    let attributed = legacy
        .clone()
        .with_attribute(attrs::APPROVAL_REQUEST_ID, Value::string("ap1"))
        .with_attribute(attrs::APPROVAL_CALL_INDEX, Value::unsigned(1));
    let replay = replay_trace(&[attributed.clone(), attributed]);
    assert_eq!(replay.messages, expected.messages);
    assert_eq!(
        replay.tool_results,
        [ToolResultProjection {
            message_index: 0,
            request_id: "ap1".into(),
            call_index: 1,
        }]
    );
    for event in [
        legacy
            .clone()
            .with_attribute(attrs::APPROVAL_REQUEST_ID, Value::string("ap1")),
        legacy
            .clone()
            .with_attribute(attrs::APPROVAL_CALL_INDEX, Value::unsigned(1)),
        legacy
            .clone()
            .with_attribute(attrs::APPROVAL_REQUEST_ID, Value::unsigned(42))
            .with_attribute(attrs::APPROVAL_CALL_INDEX, Value::unsigned(1)),
        legacy
            .clone()
            .with_attribute(attrs::APPROVAL_REQUEST_ID, Value::string("ap1"))
            .with_attribute(attrs::APPROVAL_CALL_INDEX, Value::string("1")),
        legacy
            .with_attribute(attrs::APPROVAL_REQUEST_ID, Value::string("ap1"))
            .with_attribute(attrs::APPROVAL_CALL_INDEX, json("-1")),
    ] {
        assert_eq!(replay_trace(&[event]), expected);
    }
}

#[test]
fn approval_projection_indices_include_seeded_history_and_reset_with_the_first_start() {
    let result = result_event()
        .with_attribute(attrs::APPROVAL_REQUEST_ID, Value::string("ap1"))
        .with_attribute(attrs::APPROVAL_CALL_INDEX, Value::unsigned(1));
    let start = Event::new(
        2,
        "start".into(),
        "trace".into(),
        "root".into(),
        None,
        0,
        start_run(ChatRequest::user_text("seed", 1_024)),
    );
    let replay = replay_trace(&[start.clone(), result.clone()]);
    assert_eq!(replay.tool_results[0].message_index, 1);
    assert_eq!(replay.messages[0], Message::user("seed"));
    // A tolerated writer anomaly replaces pre-start messages, so their
    // result addresses must not survive pointing into the new seed.
    let reset = replay_trace(&[result, start]);
    assert_eq!(reset.messages, [Message::user("seed")]);
    assert!(reset.tool_results.is_empty());
}

#[test]
fn the_response_anchor_matches_the_fold_for_a_rich_stream() {
    let mut base = ChatRequest::user_text("seed", 1_024);
    base.messages
        .push(Message::text(Role::Assistant, "seeded proposal"));
    let start = Event::new(
        1,
        "start".into(),
        "trace".into(),
        "root".into(),
        None,
        0,
        start_run(base),
    );
    let response = |seq: u64, id: &str, turn: u64, text: &str| {
        Event::new(
            seq,
            id.into(),
            "trace".into(),
            format!("s{seq}"),
            None,
            0,
            EventKind::LlmResponse {
                message: Message::text(Role::Assistant, text),
                usage: None,
                finish: FinishReason::Stop,
                outcome: TurnOutcome::Content,
                warnings: Vec::new(),
            },
        )
        .with_attribute(attrs::TURN, Value::unsigned(turn))
    };
    let events = vec![
        start.clone(),
        Event::new(
            2,
            "steer".into(),
            "trace".into(),
            "s2".into(),
            None,
            0,
            EventKind::Command(Command::Steer {
                command_id: "c1".into(),
                text: "again".into(),
                mode: SteerMode::Inject,
            }),
        ),
        response(3, "r1", 1, "first"),
        Event::new(
            4,
            "result".into(),
            "trace".into(),
            "s4".into(),
            None,
            0,
            EventKind::ToolResult {
                call_id: "call".into(),
                result: Value::string("ok"),
            },
        ),
        // A duplicate id appends nothing, so the count must not advance.
        response(3, "r1", 1, "first"),
        response(5, "r2", 2, "second"),
    ];
    let folded = replay_trace(&events);
    let (turn, index) = latest_response_anchor(&events).expect("the last response anchors");
    assert_eq!(turn, 2);
    assert_eq!(
        folded.messages[index],
        Message::text(Role::Assistant, "second")
    );
    // Seeded history is not a response, so it never anchors a request.
    assert_eq!(latest_response_anchor(&[start]), None);
}

#[test]
fn retries_and_audits_anywhere_fold_away() {
    let log = full_log();
    let state = replay_trace(&log);
    let anchor = latest_response_anchor(&log);
    for at in 1..=log.len() {
        let mut audited = log.clone();
        let audit = EventKind::Command(Command::Interrupt {
            command_id: "stop".into(),
        });
        audited.insert(at, envelope(900, 2, audit));
        assert_eq!(replay_trace(&audited), state, "an audit at {at}");
        assert_eq!(latest_response_anchor(&audited), anchor);
        for earlier in 0..at {
            let mut retried = log.clone();
            retried.insert(at, log[earlier].clone());
            assert_eq!(replay_trace(&retried), state, "{earlier} again at {at}");
            assert_eq!(latest_response_anchor(&retried), anchor);
        }
    }
}
