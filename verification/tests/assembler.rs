//! Stream chunks folded into an assistant turn.
use cadmus::json::Value;
use cadmus::runtime::assembler::{AssembledTurn, MessageAssembler, PartialCall};
use cadmus::{ContentPart, FinishReason, StreamChunk, TurnOutcome, Usage};

fn json(text: &str) -> Value {
    Value::parse(text).expect("valid JSON")
}

fn assemble(chunks: Vec<StreamChunk>) -> AssembledTurn {
    let mut assembler = MessageAssembler::new();
    for chunk in chunks {
        assembler.push(chunk);
    }
    assembler.complete()
}

fn text_turn(text: &str) -> Vec<StreamChunk> {
    vec![
        StreamChunk::TextDelta(text.to_string()),
        StreamChunk::Done {
            finish: FinishReason::Stop,
        },
    ]
}

fn start(index: u32, id: &str, name: &str) -> StreamChunk {
    StreamChunk::ToolCallStart {
        index,
        id: id.into(),
        name: name.into(),
    }
}

fn args(index: u32, fragment: &str) -> StreamChunk {
    StreamChunk::ToolArgsDelta {
        index,
        fragment: fragment.into(),
    }
}

fn done(finish: FinishReason) -> StreamChunk {
    StreamChunk::Done { finish }
}

#[test]
fn aggregates_interleaved_parallel_tool_calls() {
    let turn = assemble(vec![
        start(0, "call_a", "read_file"),
        start(1, "call_b", "grep"),
        args(0, "{\"path\":\"/a"),
        args(1, "{\"pattern\":\"fn"),
        args(0, "\"}"),
        args(1, " main\"}"),
        StreamChunk::ToolCallEnd { index: 1 },
        StreamChunk::ToolCallEnd { index: 0 },
        done(FinishReason::ToolCalls),
    ]);
    assert_eq!(turn.outcome, TurnOutcome::Content);
    let calls = turn.message.tool_calls();
    assert_eq!(calls.len(), 2);
    assert_eq!(calls[0].id, "call_a");
    assert_eq!(calls[0].arguments, json("{\"path\": \"/a\"}"));
    assert_eq!(calls[1].id, "call_b");
    assert_eq!(calls[1].arguments, json("{\"pattern\": \"fn main\"}"));
    assert!(turn.warnings.is_empty());
}

#[test]
fn aggregates_one_shot_tool_call() {
    let turn = assemble(vec![
        start(0, "call_1", "noop"),
        StreamChunk::ToolCallEnd { index: 0 },
        done(FinishReason::ToolCalls),
    ]);
    let calls = turn.message.tool_calls();
    assert_eq!(calls.len(), 1);
    assert_eq!(calls[0].arguments, json("{}"));
}

#[test]
fn quarantines_truncated_call_keeps_text_and_siblings() {
    let turn = assemble(vec![
        StreamChunk::TextDelta("let me check".into()),
        start(0, "good", "read_file"),
        args(0, "{\"path\":\"/a\"}"),
        StreamChunk::ToolCallEnd { index: 0 },
        start(1, "broken", "read_file"),
        args(1, "{\"path\":\"/b"),
        done(FinishReason::Length),
    ]);
    assert_eq!(turn.outcome, TurnOutcome::Truncated);
    let calls = turn.message.tool_calls();
    assert_eq!(calls.len(), 1);
    assert_eq!(calls[0].id, "good");
    assert!(turn
        .warnings
        .iter()
        .any(|w| w.contains("open tool call broken")));
    assert!(turn
        .message
        .content
        .iter()
        .any(|p| matches!(p, ContentPart::Text { text } if text == "let me check")));
}

#[test]
fn quarantines_malformed_arguments() {
    let turn = assemble(vec![
        start(0, "broken", "read_file"),
        args(0, "{not json"),
        StreamChunk::ToolCallEnd { index: 0 },
        done(FinishReason::ToolCalls),
    ]);
    assert_eq!(turn.outcome, TurnOutcome::Empty);
    assert!(turn.message.tool_calls().is_empty());
    assert!(turn
        .warnings
        .iter()
        .any(|w| w.contains("malformed arguments")));
}

#[test]
fn classifies_empty_turn_by_finish_reason() {
    let turn = assemble(vec![
        StreamChunk::Usage(Usage {
            output: 0,
            reasoning: 512,
            ..Usage::default()
        }),
        done(FinishReason::Length),
    ]);
    assert_eq!(turn.outcome, TurnOutcome::Empty);
    assert_eq!(turn.finish, FinishReason::Length);
    assert_eq!(turn.usage.expect("usage").reasoning, 512);
}

#[test]
fn reasoning_only_turn_is_content() {
    let turn = assemble(vec![
        StreamChunk::ReasoningDelta("thinking…".into()),
        done(FinishReason::Stop),
    ]);
    assert_eq!(turn.outcome, TurnOutcome::Content);
    assert!(matches!(
        turn.message.content.first(),
        Some(ContentPart::Reasoning { text }) if text == "thinking…"
    ));
}

#[test]
fn missing_terminal_record_is_truncated() {
    let turn = assemble(vec![StreamChunk::TextDelta("partial".into())]);
    assert_eq!(turn.outcome, TurnOutcome::Truncated);
}

#[test]
fn folds_opaque_deltas() {
    let mut chunks = vec![
        StreamChunk::OpaqueDelta(json("{\"thought_signature\": \"abc\"}")),
        StreamChunk::OpaqueDelta(json("{\"other\": 1}")),
    ];
    chunks.extend(text_turn("hi"));
    let turn = assemble(chunks);
    assert_eq!(
        turn.message.opaque,
        Some(json("{\"thought_signature\": \"abc\", \"other\": 1}"))
    );
}

#[test]
fn opaque_deltas_override_and_replace() {
    let mut chunks = vec![
        StreamChunk::OpaqueDelta(json("{\"a\": 1, \"b\": 2}")),
        StreamChunk::OpaqueDelta(json("{\"a\": 3}")),
    ];
    chunks.extend(text_turn("hi"));
    assert_eq!(
        assemble(chunks).message.opaque,
        Some(json("{\"a\": 3, \"b\": 2}"))
    );
    let mut chunks = vec![
        StreamChunk::OpaqueDelta(json("{\"a\": 1}")),
        StreamChunk::OpaqueDelta(json("\"flat\"")),
    ];
    chunks.extend(text_turn("hi"));
    assert_eq!(assemble(chunks).message.opaque, Some(json("\"flat\"")));
}

#[test]
fn calls_come_out_by_index_whatever_their_order_of_arrival() {
    let turn = assemble(vec![
        start(7, "late", "b"),
        start(2, "early", "a"),
        StreamChunk::ToolCallEnd { index: 7 },
        StreamChunk::ToolCallEnd { index: 2 },
        done(FinishReason::ToolCalls),
    ]);
    let ids: Vec<String> = turn.message.tool_calls().into_iter().map(|c| c.id).collect();
    assert_eq!(ids, ["early", "late"]);
}

#[test]
fn fragments_and_ends_without_a_start_are_noted() {
    let turn = assemble(vec![
        args(3, "{}"),
        StreamChunk::ToolCallEnd { index: 4 },
        StreamChunk::TextDelta("x".into()),
        done(FinishReason::Stop),
    ]);
    // The synthesized call is still open when the stream ends.
    assert_eq!(turn.outcome, TurnOutcome::Truncated);
    assert_eq!(
        turn.warnings,
        [
            "arguments fragment for unknown tool call index 3; call synthesized",
            "tool call end for unknown index 4; ignored",
            "stream ended with open tool call call_3 (index 3); call quarantined",
        ]
    );
}

#[test]
fn a_reused_index_drops_the_previous_fragments() {
    let turn = assemble(vec![
        start(0, "first", "a"),
        args(0, "{\"lost\": true}"),
        start(0, "second", "b"),
        StreamChunk::ToolCallEnd { index: 0 },
        done(FinishReason::ToolCalls),
    ]);
    let calls = turn.message.tool_calls();
    assert_eq!(calls.len(), 1);
    assert_eq!(calls[0].id, "second");
    assert_eq!(calls[0].arguments, json("{}"));
    assert_eq!(
        turn.warnings,
        ["tool call index 0 reused; previous fragments dropped"]
    );
}

#[test]
fn sealing_keeps_or_quarantines_by_what_the_reader_said() {
    let partial = |id: &str| PartialCall {
        index: 0,
        id: id.into(),
        name: "n".into(),
        args: "ignored".into(),
    };
    let mut assembler = MessageAssembler::new();
    assembler.seal_with(partial("kept"), Ok(json("[1]")));
    assembler.seal_with(partial("lost"), Err("bad".into()));
    let turn = assembler.complete();
    let calls = turn.message.tool_calls();
    assert_eq!(calls.len(), 1);
    assert_eq!(calls[0].id, "kept");
    assert_eq!(calls[0].arguments, json("[1]"));
    assert_eq!(
        turn.warnings,
        ["tool call lost has malformed arguments (bad); call quarantined"]
    );
}
