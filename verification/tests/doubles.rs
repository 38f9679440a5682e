//! The scripted provider, the other doubles, the command inbox and the
//! ledger.
use cadmus::contract::testing::{
    delta, fixed_sync_script, is_tail_in_order, keeps_index_discipline, text_done, QueuedResponse,
};
use cadmus::json::Value;
use cadmus::runtime::agent::fold::fold_placeholder_message;
use cadmus::runtime::agent::inbox::Inbox;
use cadmus::runtime::agent::ledger::{Ledger, Output};
use cadmus::runtime::testing::{test_context, FixedClock, RecordingArtifacts, SeqIds};
use cadmus::{
    Approval, Capabilities, ChatRequest, Clock, Command, EventKind, FinishReason, FoldPolicy,
    FoldedRef, LiveKind, Message, ModelError, ReplayProvider, StreamChunk, SteerMode, ToolSpec,
};

fn text_chunk(text: &str) -> StreamChunk {
    StreamChunk::TextDelta(text.into())
}

fn start(index: u32) -> StreamChunk {
    StreamChunk::ToolCallStart {
        index,
        id: format!("c{index}"),
        name: "t".into(),
    }
}

fn args(index: u32) -> StreamChunk {
    StreamChunk::ToolArgsDelta {
        index,
        fragment: "{}".into(),
    }
}

fn end(index: u32) -> StreamChunk {
    StreamChunk::ToolCallEnd { index }
}

fn done() -> StreamChunk {
    StreamChunk::Done {
        finish: FinishReason::Stop,
    }
}

fn with_tool() -> ChatRequest {
    ChatRequest {
        tools: vec![ToolSpec {
            name: "t".into(),
            description: "t".into(),
            parameters: Value::Null,
        }],
        ..ChatRequest::user_text("hi", 64)
    }
}

// --- The scripted provider.

#[test]
fn scripts_stream_in_order_until_they_are_used_up() {
    let mut provider = ReplayProvider::new(vec![
        ReplayProvider::script(vec![text_chunk("one")]),
        ReplayProvider::script(vec![text_chunk("two"), done()]),
    ]);
    let request = ChatRequest::user_text("hi", 64);
    assert_eq!(
        provider.next_stream(&request),
        Ok(vec![Ok(text_chunk("one"))])
    );
    assert_eq!(
        provider.next_stream(&request),
        Ok(vec![Ok(text_chunk("two")), Ok(done())])
    );
    assert_eq!(
        provider.next_stream(&request),
        Err(ModelError::Protocol("replay script exhausted".into()))
    );
}

#[test]
fn a_failed_call_does_not_poison_the_provider() {
    let mut provider = ReplayProvider::new(vec![]);
    provider.queue(QueuedResponse::CallError(ModelError::ContextLength));
    provider.queue(QueuedResponse::StreamError {
        chunks: vec![text_chunk("par")],
        error: ModelError::Network("reset".into()),
    });
    provider.queue(QueuedResponse::Chunks(vec![done()]));
    let request = ChatRequest::user_text("hi", 64);
    assert_eq!(
        provider.next_stream(&request),
        Err(ModelError::ContextLength)
    );
    assert_eq!(
        provider.next_stream(&request),
        Ok(vec![
            Ok(text_chunk("par")),
            Err(ModelError::Network("reset".into()))
        ])
    );
    assert_eq!(provider.next_stream(&request), Ok(vec![Ok(done())]));
}

#[test]
fn a_capability_mismatch_takes_no_script() {
    let plain = ReplayProvider::new(vec![ReplayProvider::script(vec![done()])]);
    let declared = plain.capabilities().clone();
    let mut provider = plain.with_capabilities(Capabilities {
        tools: false,
        ..declared
    });
    assert!(matches!(
        provider.next_stream(&with_tool()),
        Err(ModelError::CapabilityMismatch(_))
    ));
    assert_eq!(
        provider.next_stream(&ChatRequest::user_text("hi", 64)),
        Ok(vec![Ok(done())])
    );
}

// --- The stream discipline.

#[test]
fn a_parallel_stream_keeps_the_index_discipline() {
    assert!(keeps_index_discipline(&vec![
        start(0),
        start(1),
        args(0),
        args(1),
        end(0),
        end(1),
        done()
    ]));
    assert!(keeps_index_discipline(&vec![]));
}

#[test]
fn breaches_of_the_index_discipline_are_seen() {
    let fragment_first = vec![args(0)];
    let fragment_last = vec![start(0), end(0), args(0)];
    let started_twice = vec![start(0), start(0)];
    let ended_twice = vec![start(0), end(0), end(0)];
    let behind_done = vec![done(), text_chunk("late")];
    for chunks in [
        fragment_first,
        fragment_last,
        started_twice,
        ended_twice,
        behind_done,
    ] {
        assert!(!keeps_index_discipline(&chunks), "{chunks:?}");
    }
}

// --- The scripted live run.

#[test]
fn the_scripted_run_is_a_tail_in_order() {
    let script = fixed_sync_script();
    let seqs: Vec<u64> = script.iter().map(|item| item.seq).collect();
    assert_eq!(seqs, [1, 2, 3, 4, 5]);
    assert!(is_tail_in_order(&script, 0));
    assert!(!is_tail_in_order(&script, 1), "the baseline covers the first");
    let mut backwards = script.clone();
    backwards.reverse();
    assert!(!is_tail_in_order(&backwards, 0));
    assert!(is_tail_in_order(&vec![], 7));
    assert!(matches!(
        &script[0].kind,
        LiveKind::Recorded { event }
            if matches!(event.kind, EventKind::Command(Command::StartRun { .. }))
    ));
}

#[test]
fn the_items_of_the_scripted_run_carry_their_turn() {
    let item = delta(9, 2, text_chunk("x"));
    assert!(matches!(item.kind, LiveKind::AssistantDelta { turn: 2, .. }));
    let closing = text_done(10, 2, "answer");
    let LiveKind::Recorded { event } = closing.kind else {
        panic!("the closing item is recorded");
    };
    assert_eq!(event.turn(), Some(2));
    assert!(matches!(
        &event.kind,
        EventKind::LlmResponse { message, .. } if message.text_body() == "answer"
    ));
}

// --- Doubles.

#[test]
fn the_doubles_are_deterministic() {
    let clock = FixedClock(42);
    assert_eq!(clock.now_unix_ms(), 42);
    assert_eq!(clock.utc_offset_minutes(), 0);
    let mut ids = SeqIds::default();
    assert_eq!([ids.next(), ids.next(), ids.next()], [1, 2, 3]);
    let mut artifacts = RecordingArtifacts::default();
    assert_eq!(artifacts.spill("m2.txt", "two"), "test-artifacts/m2.txt");
    artifacts.spill("m1.txt", "one");
    artifacts.spill("m2.txt", "zwei");
    assert_eq!(
        artifacts.spills(),
        &vec![
            ("m1.txt".to_owned(), "one".to_owned()),
            ("m2.txt".to_owned(), "zwei".to_owned())
        ]
    );
    let context = test_context();
    assert_eq!(context.cwd, "/test");
    assert_eq!(context.fold_policy, FoldPolicy::default());
}

// --- The inbox.

fn steer(id: &str, mode: SteerMode) -> Command {
    Command::Steer {
        command_id: id.into(),
        text: format!("text of {id}"),
        mode,
    }
}

fn interrupt(id: &str) -> Command {
    Command::Interrupt {
        command_id: id.into(),
    }
}

#[test]
fn the_first_interrupt_wins_and_retries_change_nothing() {
    let mut inbox = Inbox::new();
    inbox.note(interrupt("first"));
    inbox.note(interrupt("second"));
    inbox.note(interrupt("first"));
    assert_eq!(inbox.take_interrupt(), Some(interrupt("first")));
    assert_eq!(inbox.take_interrupt(), None);
    inbox.note(interrupt("first"));
    assert_eq!(inbox.take_interrupt(), None, "its id was seen");
}

#[test]
fn steers_are_partitioned_by_their_mode() {
    let mut inbox = Inbox::new();
    inbox.note(steer("a", SteerMode::Queue));
    inbox.note(steer("b", SteerMode::Inject));
    inbox.note(steer("c", SteerMode::Inject));
    assert_eq!(
        inbox.take_steers(false),
        vec![
            steer("b", SteerMode::Inject),
            steer("c", SteerMode::Inject)
        ]
    );
    assert_eq!(inbox.steer_count(), 1);
    assert_eq!(
        inbox.take_steers(true),
        vec![steer("a", SteerMode::Queue)]
    );
    assert_eq!(inbox.steer_count(), 0);
}

#[test]
fn resolves_are_taken_by_their_request() {
    let resolve = |id: &str, request: &str| Command::ResolveApprovalCall {
        command_id: id.into(),
        request_id: request.into(),
        call_index: 0,
        decision: Approval::Approved,
    };
    let mut inbox = Inbox::new();
    inbox.note(resolve("1", "ap1"));
    inbox.note(resolve("2", "ap2"));
    inbox.note(resolve("3", "ap2"));
    assert_eq!(inbox.take_resolve("ap2"), Some(resolve("2", "ap2")));
    assert_eq!(inbox.take_resolve("ap3"), None);
    assert_eq!(inbox.resolve_count(), 2);
}

// --- The ledger.

#[test]
fn one_sequence_numbers_spans_events_and_live_items() {
    let mut ledger = Ledger::new("tr");
    assert!(!ledger.has_room(1));
    assert!(ledger.accepts(&vec![1, 2, 3, 4]));
    ledger.supply(vec![1, 2, 3, 4], vec![7, 8, 9, 10]);
    assert!(ledger.has_room(4));
    assert_eq!(ledger.next_span(), "s1");
    assert_eq!(ledger.next_request(), "ap2");
    ledger.record(
        "s1",
        "root",
        3,
        EventKind::LlmRequest { trailer: None },
        None,
    );
    ledger.publish(LiveKind::AssistantDelta {
        turn: 3,
        chunk: done(),
    });
    assert!(!ledger.has_room(1));
    assert_eq!(ledger.numbers_left(), 0);
    let outputs = ledger.take_outputs();
    assert_eq!(outputs.len(), 3);
    let Output::Append(event) = &outputs[0] else {
        panic!("an event is appended first");
    };
    assert_eq!((event.id.as_str(), event.seq), ("e3", 3));
    assert_eq!(event.time_unix_ms, 7);
    assert_eq!(event.turn(), Some(3));
    assert_eq!(event.parent_span_id.as_deref(), Some("root"));
    assert!(matches!(&outputs[1], Output::Publish(item) if item.seq == 3));
    assert!(matches!(&outputs[2], Output::Publish(item) if item.seq == 4));
    assert!(ledger.take_outputs().is_empty());
}

#[test]
fn numbers_come_from_the_given_sequence_and_times_from_the_given_readings() {
    let mut ledger = Ledger::new("tr");
    ledger.supply(vec![40, 70], vec![5, 6]);
    assert!(!ledger.accepts(&vec![70]), "a number is not given twice");
    assert!(!ledger.accepts(&vec![90, 80]), "the sequence ascends");
    assert!(ledger.accepts(&vec![71]));
    ledger.record("s1", "root", 1, EventKind::LlmRequest { trailer: None }, None);
    ledger.finish_with("root", 1, None);
    assert!(!ledger.accepts(&vec![70]), "nor after it was drawn");
    ledger.supply(vec![100], vec![3]);
    ledger.record("s1", "root", 1, EventKind::LlmRequest { trailer: None }, None);
    let stamps: Vec<(String, u64, u64)> = ledger
        .take_outputs()
        .into_iter()
        .filter_map(|output| match output {
            Output::Append(event) => Some((event.id, event.seq, event.time_unix_ms)),
            Output::Publish(_) => None,
        })
        .collect();
    assert_eq!(
        stamps,
        [
            ("e40".to_owned(), 40, 5),
            ("e70".to_owned(), 70, 6),
            ("e100".to_owned(), 100, 3)
        ]
    );
}

// --- Stand-ins.

#[test]
fn a_stand_in_keeps_both_ends_of_a_long_result() {
    let body = format!("{}{}{}", "a".repeat(512), "b".repeat(900), "c".repeat(512));
    let message = Message::tool_result("c1", Value::string(&body));
    let folded = FoldedRef {
        event_id: "e9".into(),
        call_id: "c1".into(),
        spill: "dir/m2.txt".into(),
        original_bytes: 1_924,
    };
    let stand_in = fold_placeholder_message(&message, &folded);
    assert_eq!(
        stand_in.text_body(),
        format!(
            "[COMPRESSED: tool result of 1924 bytes folded out of the conversation; full text in dir/m2.txt]\n{}\n...\n{}",
            "a".repeat(512),
            "c".repeat(512)
        )
    );
    assert_eq!(stand_in.tool_call_id.as_deref(), Some("c1"));
    assert_eq!(stand_in.role, message.role);
    let short = Message::tool_result("c1", Value::string("short"));
    assert!(fold_placeholder_message(&short, &folded)
        .text_body()
        .ends_with("]\nshort"));
}
