//! Approval and execution of a batch of calls, step by step.
use cadmus::json::Value;
use cadmus::runtime::agent::dispatch::{Advance, Dispatch, Execution};
use cadmus::runtime::agent::gate::{batch_denials, deny_all};
use cadmus::runtime::agent::ledger::Output;
use cadmus::runtime::agent::outcome::{tool_answer, tool_failure};
use cadmus::runtime::agent::run::Boundary;
use cadmus::runtime::testing::test_context;
use cadmus::{
    attrs, error_kinds, replay_trace, AgentLoop, Approval, Attributes, ChatRequest, Command,
    Concurrency, ContentPart, Effect, Event, EventKind, LiveItem, LiveKind, Message, Run,
    TimedRecv, ToolCall, ToolCompletion, ToolDeclaration, ToolError, ToolResultProjection,
    ToolSpec,
};
use std::collections::HashMap;

const PARALLEL: Concurrency = Concurrency::ParallelSafe;
const SERIAL: Concurrency = Concurrency::Serial;
const MUTATION: Effect = Effect::Mutation;

fn json(text: &str) -> Value {
    Value::parse(text).expect("valid JSON")
}

fn call(id: &str, name: &str) -> ToolCall {
    ToolCall {
        id: id.into(),
        name: name.into(),
        arguments: json("{}"),
    }
}

fn answer(request: &str, id: &str, call_index: usize, decision: Approval) -> Command {
    Command::ResolveApprovalCall {
        command_id: id.into(),
        request_id: request.into(),
        call_index,
        decision,
    }
}

fn rejected() -> Approval {
    Approval::Rejected { comment: None }
}

fn recorded_resolutions(events: &[Event]) -> Vec<&Command> {
    events
        .iter()
        .filter_map(|event| match &event.kind {
            EventKind::Command(
                command @ (Command::ResolveApproval { .. } | Command::ResolveApprovalCall { .. }),
            ) => Some(command),
            _ => None,
        })
        .collect()
}

#[derive(Debug, PartialEq)]
enum End {
    Open,
    Finished,
    Interrupted,
}

/// A batch on its way, with the calls in flight under the test's control.
struct Bench {
    run: Run,
    batch: Dispatch,
    now: u64,
    /// The last number drawn.
    last: u64,
    events: Vec<Event>,
    live: Vec<LiveItem>,
    /// The positions started so far, in order.
    starts: Vec<usize>,
    /// The waits asked for so far, in milliseconds.
    waits: Vec<Option<u64>>,
    /// The positions completed so far, in order.
    completed: Vec<usize>,
    end: End,
}

impl Bench {
    fn open(specs: &[(&'static str, Concurrency, Effect)], calls: Vec<ToolCall>) -> Bench {
        let wiring = AgentLoop {
            tools: specs
                .iter()
                .map(|&(name, concurrency, effect)| ToolDeclaration {
                    spec: ToolSpec {
                        name: name.into(),
                        description: "controlled invocation".into(),
                        parameters: json("{\"type\":\"object\"}"),
                    },
                    concurrency,
                    effect,
                })
                .collect(),
            context: test_context(),
            max_context: 128_000,
            max_turns: 8,
            trace_id: "tr-approval".into(),
            run_attributes: Attributes { entries: vec![] },
        };
        let base = ChatRequest {
            messages: vec![],
            ..ChatRequest::user_text("go", 1_024)
        };
        let mut run = wiring.run(&base, (1..=8).collect(), vec![0; 8]);
        assert!(matches!(run.begin_turn(), Boundary::Open { plan: None }));
        let batch = Dispatch::open(&mut run, calls, 0);
        let mut bench = Bench {
            run,
            batch,
            now: 0,
            last: 8,
            events: vec![],
            live: vec![],
            starts: vec![],
            waits: vec![],
            completed: vec![],
            end: End::Open,
        };
        bench.settle();
        bench
    }

    /// Draws the numbers that the next step may take, and reads the clock for
    /// it.
    fn restock(&mut self) {
        let need = self.batch.need(&self.run) as usize;
        let missing = need.saturating_sub(self.run.numbers_left()) as u64;
        let numbers = (self.last + 1..=self.last + missing).collect();
        self.last += missing;
        self.run.supply(numbers, vec![self.now; need]);
    }

    /// Steps until the batch waits or ends.
    fn settle(&mut self) {
        while self.end == End::Open {
            self.restock();
            let next = self.batch.advance(&mut self.run, self.now);
            for output in self.run.take_outputs() {
                match output {
                    Output::Append(event) => self.events.push(event),
                    Output::Publish(item) => self.live.push(item),
                }
            }
            match next {
                Advance::Again => {}
                Advance::Wait { starts, listen } => {
                    self.starts.extend(starts);
                    self.waits.push(listen);
                    return;
                }
                Advance::Finished => self.end = End::Finished,
                Advance::Interrupted => self.end = End::Interrupted,
            }
        }
    }

    fn receive(&mut self, received: TimedRecv) {
        self.restock();
        self.batch.receive(&mut self.run, received);
        self.settle();
    }

    fn send(&mut self, command: Command) {
        self.receive(TimedRecv::Command(command));
    }

    fn interrupt(&mut self) {
        self.send(Command::Interrupt {
            command_id: "stop".into(),
        });
    }

    /// The call at that position ends, without a step.
    fn end_call(&mut self, position: usize) {
        let execution = self
            .batch
            .execution(&self.run, position)
            .expect("a call of the batch");
        let outcome = match execution {
            Execution::Answer(outcome) => outcome,
            Execution::Invoke { name, arguments } => {
                if arguments.get("fail") == Some(Value::Bool(true)) {
                    tool_failure(&ToolError {
                        tool: name,
                        message: "probe failed".into(),
                    })
                } else {
                    tool_answer(Value::string(&name), None)
                }
            }
        };
        assert!(
            self.batch.complete(&self.run, position, outcome),
            "only a call in flight ends"
        );
        self.completed.push(position);
    }

    fn release(&mut self, position: usize) {
        self.end_call(position);
        self.settle();
    }

    /// Ends every call that starts, in the order of the starts.
    fn run_out(&mut self) {
        while let Some(&position) = self
            .starts
            .iter()
            .find(|position| !self.completed.contains(position))
        {
            self.release(position);
        }
    }

    fn request(&self) -> (String, Vec<ToolCall>) {
        self.live
            .iter()
            .find_map(|item| match &item.kind {
                LiveKind::ApprovalRequested {
                    request_id, calls, ..
                } => Some((request_id.clone(), calls.clone())),
                _ => None,
            })
            .expect("an approval request")
    }

    fn completions(&self) -> Vec<(u64, &ToolCompletion)> {
        self.live
            .iter()
            .filter_map(|item| match &item.kind {
                LiveKind::ToolCompleted { completion } => Some((item.seq, completion)),
                _ => None,
            })
            .collect()
    }

    fn results(&self) -> Vec<&Event> {
        self.events
            .iter()
            .filter(|event| matches!(event.kind, EventKind::ToolResult { .. }))
            .collect()
    }

    fn messages(&self) -> &Vec<Message> {
        self.run.messages()
    }

    fn bodies(&self) -> Vec<String> {
        self.messages().iter().map(Message::text_body).collect()
    }

    fn request_and_call_positions(&self) -> (usize, usize) {
        let request = self
            .live
            .iter()
            .position(|item| matches!(item.kind, LiveKind::ApprovalRequested { .. }))
            .expect("an approval request was published");
        let call = self
            .live
            .iter()
            .position(|item| {
                matches!(
                    &item.kind,
                    LiveKind::Recorded { event } if matches!(event.kind, EventKind::ToolCall { .. })
                )
            })
            .expect("a tool call was recorded");
        (request, call)
    }
}

/// A batch whose request is answered at once with `decisions`.
fn decided(
    specs: &[(&'static str, Concurrency, Effect)],
    calls: Vec<ToolCall>,
    decisions: Vec<Approval>,
) -> Bench {
    let mut bench = Bench::open(specs, calls);
    let (request_id, _) = bench.request();
    bench.send(Command::ResolveApproval {
        command_id: "policy".into(),
        request_id,
        decisions,
    });
    bench
}

fn approved(n: usize) -> Vec<Approval> {
    (0..n).map(|_| Approval::Approved).collect()
}

// --- Dispatch.

#[test]
fn dispatch_parallel_safe_calls_overlap_and_land_in_call_order() {
    let mut bench = decided(
        &[("p1", PARALLEL, MUTATION), ("p2", PARALLEL, MUTATION)],
        vec![call("c1", "p1"), call("c2", "p2")],
        approved(2),
    );
    assert_eq!(bench.starts, [0, 1], "both are in flight");
    // The second ends first.
    bench.release(1);
    assert!(bench.messages().is_empty());
    bench.release(0);
    assert_eq!(bench.end, End::Finished);
    let messages = bench.messages();
    assert_eq!(messages.len(), 2);
    assert_eq!(messages[0].tool_call_id.as_deref(), Some("c1"));
    assert_eq!(messages[1].tool_call_id.as_deref(), Some("c2"));
    assert!(!messages[0].is_error && !messages[1].is_error);
}

#[test]
fn dispatch_a_batch_with_an_undeclared_call_serializes_entirely() {
    let mut bench = decided(
        &[
            ("p1", PARALLEL, MUTATION),
            ("p2", PARALLEL, MUTATION),
            ("s1", SERIAL, MUTATION),
        ],
        vec![call("c1", "p1"), call("c2", "p2"), call("c3", "s1")],
        approved(3),
    );
    // One undeclared call serializes the whole batch, in call order.
    assert_eq!(bench.starts, [0]);
    bench.release(0);
    assert_eq!(bench.starts, [0, 1]);
    bench.release(1);
    assert_eq!(bench.starts, [0, 1, 2]);
    bench.release(2);
    assert_eq!(bench.end, End::Finished);
    assert_eq!(bench.messages().len(), 3);
    assert_eq!(bench.messages()[2].tool_call_id.as_deref(), Some("c3"));
}

#[test]
fn dispatch_tool_errors_are_marked_is_error_in_the_history() {
    let mut failing = call("c1", "fail");
    failing.arguments = json("{\"fail\":true}");
    let mut bench = decided(
        &[("fail", SERIAL, MUTATION), ("echo", SERIAL, MUTATION)],
        vec![failing, call("c2", "echo")],
        approved(2),
    );
    bench.run_out();
    let messages = bench.messages();
    assert!(messages[0].is_error);
    assert!(
        matches!(&messages[0].content[0], ContentPart::Text { text } if text.contains("probe failed")),
        "got: {:?}",
        messages[0].content
    );
    assert!(!messages[1].is_error);
}

#[test]
fn dispatch_a_failure_inside_a_parallel_batch_stays_per_call() {
    let mut failing = call("c1", "pfail");
    failing.arguments = json("{\"fail\":true}");
    let mut bench = decided(
        &[("pfail", PARALLEL, MUTATION), ("ok", PARALLEL, MUTATION)],
        vec![failing, call("c2", "ok")],
        approved(2),
    );
    bench.run_out();
    let messages = bench.messages();
    assert!(messages[0].is_error);
    assert!(
        matches!(&messages[0].content[0], ContentPart::Text { text } if text.contains("probe failed")),
        "got: {:?}",
        messages[0].content
    );
    assert_eq!(messages[1].tool_call_id.as_deref(), Some("c2"));
    assert!(!messages[1].is_error);
}

// --- Whole-batch approval.

#[test]
fn gate_batch_approval_decides_each_call_independently_before_any_execution() {
    let mut bench = decided(
        &[("w1", SERIAL, MUTATION), ("w2", SERIAL, MUTATION)],
        vec![call("c1", "w1"), call("c2", "w2")],
        vec![
            Approval::Approved,
            Approval::Rejected {
                comment: Some("no".into()),
            },
        ],
    );
    let (request, call) = bench.request_and_call_positions();
    assert!(request < call, "the request comes before any execution");
    bench.run_out();
    assert_eq!(bench.end, End::Finished);
    assert_eq!(bench.completed, [0], "the rejected call never runs");
    let messages = bench.messages();
    assert_eq!(messages.len(), 2);
    assert_eq!(messages[0].tool_call_id.as_deref(), Some("c1"));
    assert!(!messages[0].is_error);
    assert_eq!(messages[1].tool_call_id.as_deref(), Some("c2"));
    assert!(messages[1].is_error);
}

#[test]
fn gate_a_rejected_call_inside_a_parallel_batch_still_lands_in_call_order() {
    let mut bench = decided(
        &[("m1", PARALLEL, MUTATION), ("m2", PARALLEL, MUTATION)],
        vec![call("c1", "m1"), call("c2", "m2")],
        vec![
            Approval::Rejected {
                comment: Some("no".into()),
            },
            Approval::Approved,
        ],
    );
    let (request, call) = bench.request_and_call_positions();
    assert!(request < call, "the request comes before any execution");
    bench.run_out();
    assert_eq!(bench.completed, [1]);
    let messages = bench.messages();
    assert_eq!(messages.len(), 2);
    assert!(messages[0].is_error);
    assert_eq!(messages[0].tool_call_id.as_deref(), Some("c1"));
    assert!(!messages[1].is_error);
    assert_eq!(messages[1].tool_call_id.as_deref(), Some("c2"));
    for id in ["c1", "c2"] {
        assert!(bench
            .events
            .iter()
            .any(|event| matches!(&event.kind, EventKind::ToolCall { call } if call.id == id)));
    }
    let state = replay_trace(&bench.events);
    assert!(state.dangling_tool_calls.is_empty());
    assert_eq!(&state.messages, messages);
}

#[test]
fn gate_a_short_decision_reply_denies_the_remainder() {
    let mut bench = decided(
        &[("w1", SERIAL, MUTATION), ("w2", SERIAL, MUTATION)],
        vec![call("c1", "w1"), call("c2", "w2")],
        vec![Approval::Approved],
    );
    bench.run_out();
    let messages = bench.messages();
    assert!(!messages[0].is_error);
    assert!(messages[1].is_error);
    assert!(
        matches!(&messages[1].content[0], ContentPart::Text { text } if text.contains("no reason given")),
        "got: {:?}",
        messages[1].content
    );
}

#[test]
fn gate_perception_calls_never_reach_the_gate() {
    let mut bench = Bench::open(
        &[("peek", SERIAL, Effect::Perception)],
        vec![call("c1", "peek")],
    );
    assert!(
        !bench
            .live
            .iter()
            .any(|item| matches!(item.kind, LiveKind::ApprovalRequested { .. })),
        "a perception call must not open an approval request"
    );
    assert_eq!(bench.waits, [None], "there is nobody to wait for");
    bench.run_out();
    assert!(!bench.messages()[0].is_error);
}

#[test]
fn gate_extra_decisions_are_ignored() {
    let mut bench = decided(
        &[("w1", SERIAL, MUTATION)],
        vec![call("c1", "w1")],
        vec![
            Approval::Approved,
            Approval::Rejected {
                comment: Some("stray".into()),
            },
        ],
    );
    bench.run_out();
    assert_eq!(bench.completed, [0], "the approved call runs");
    assert!(!bench.messages()[0].is_error);
}

// --- Per-call approval.

#[test]
fn out_of_order_approval_executes_before_siblings_with_gated_indices_and_duplicate_ids() {
    let mut bench = Bench::open(
        &[
            ("read", PARALLEL, Effect::Perception),
            ("first", PARALLEL, MUTATION),
            ("second", PARALLEL, MUTATION),
        ],
        vec![
            call("read-id", "read"),
            call("same-id", "first"),
            call("same-id", "second"),
        ],
    );
    let (request, calls) = bench.request();
    let names: Vec<&str> = calls.iter().map(|call| call.name.as_str()).collect();
    assert_eq!(names, ["first", "second"]);
    bench.send(answer(&request, "second", 1, Approval::Approved));
    assert_eq!(bench.starts, [0, 2], "gated index 1 is original call 2");
    bench.release(2);
    assert_eq!(bench.completed, [2]);
    assert_eq!(bench.starts, [0, 2], "the unanswered sibling never runs");
    assert!(
        bench.results().is_empty(),
        "later results wait for the original prefix"
    );
    bench.release(0);
    assert_eq!(bench.completed, [2, 0]);
    bench.send(answer(&request, "first", 0, Approval::Approved));
    assert_eq!(bench.starts, [0, 2, 1]);
    bench.release(1);
    assert_eq!(bench.end, End::Finished);
    assert_eq!(bench.completed, [2, 0, 1]);
    assert_eq!(bench.bodies(), ["read", "first", "second"]);
    let replay = replay_trace(&bench.events);
    assert_eq!(&replay.messages, bench.messages());
    assert!(replay.dangling_tool_calls.is_empty());
    let results = bench.results();
    assert!(results[0]
        .attributes
        .get(attrs::APPROVAL_REQUEST_ID)
        .is_none());
    assert!(results[0]
        .attributes
        .get(attrs::APPROVAL_CALL_INDEX)
        .is_none());
    assert_eq!(
        replay.tool_results,
        vec![
            ToolResultProjection {
                message_index: 1,
                request_id: request.clone(),
                call_index: 0
            },
            ToolResultProjection {
                message_index: 2,
                request_id: request.clone(),
                call_index: 1
            },
        ]
    );
}

#[test]
fn interrupt_preserves_the_later_results_approval_address_with_duplicate_ids() {
    let mut bench = Bench::open(
        &[("A", PARALLEL, MUTATION), ("B", PARALLEL, MUTATION)],
        vec![call("duplicate", "A"), call("duplicate", "B")],
    );
    let (request, _) = bench.request();
    bench.send(answer(&request, "approve-b", 1, Approval::Approved));
    assert_eq!(bench.starts, [1]);
    bench.release(1);
    assert_eq!(bench.completions()[0].1.name, "B");
    bench.interrupt();
    assert_eq!(bench.end, End::Interrupted);
    assert_eq!(bench.completed, [1]);
    assert_eq!(
        bench.messages(),
        &vec![Message::tool_result("duplicate", Value::string("B"))]
    );
    let event = bench.results()[0];
    assert_eq!(
        event
            .attributes
            .string(attrs::APPROVAL_REQUEST_ID)
            .as_deref(),
        Some(request.as_str())
    );
    assert_eq!(
        event.attributes.unsigned(attrs::APPROVAL_CALL_INDEX),
        Some(1)
    );
    // After B drained and before the terminal record.
    let before_terminal: Vec<Event> = bench
        .events
        .iter()
        .take_while(|event| !matches!(event.kind, EventKind::RunFinished { .. }))
        .cloned()
        .collect();
    let replay = replay_trace(&before_terminal);
    assert!(replay.finished.is_none());
    assert_eq!(&replay.messages, bench.messages());
    assert_eq!(
        replay.tool_results,
        [ToolResultProjection {
            message_index: 0,
            request_id: request.clone(),
            call_index: 1,
        }]
    );
}

#[test]
fn retries_conflicts_invalid_indices_and_late_answers_have_no_effect() {
    let mut bench = Bench::open(
        &[
            ("first", PARALLEL, MUTATION),
            ("second", PARALLEL, MUTATION),
        ],
        vec![call("c1", "first"), call("c2", "second")],
    );
    let (request, _) = bench.request();
    bench.send(answer("unknown", "unknown", 0, Approval::Approved));
    bench.send(answer(&request, "invalid", usize::MAX, Approval::Approved));
    let first = answer(&request, "first", 1, Approval::Approved);
    bench.send(first.clone());
    bench.send(first);
    bench.send(answer(&request, "conflict", 1, rejected()));
    assert_eq!(bench.starts, [1]);
    bench.send(answer(&request, "other", 0, Approval::Approved));
    assert_eq!(bench.starts, [1, 0]);
    bench.send(answer(&request, "late", 0, rejected()));
    bench.send(Command::ResolveApproval {
        command_id: "late-batch".into(),
        request_id: request,
        decisions: Vec::new(),
    });
    bench.run_out();
    assert_eq!(bench.end, End::Finished);
    assert!(bench.messages().iter().all(|message| !message.is_error));
    let ids: Vec<Option<&str>> = recorded_resolutions(&bench.events)
        .iter()
        .map(|command| command.command_id())
        .collect();
    assert_eq!(ids, [Some("first"), Some("other")]);
}

#[test]
fn mixed_serial_batches_skip_undecided_and_completed_calls_without_overlap() {
    let mut bench = Bench::open(
        &[
            ("first", PARALLEL, MUTATION),
            ("second", PARALLEL, MUTATION),
            ("serial", SERIAL, MUTATION),
        ],
        vec![
            call("c1", "first"),
            call("c2", "second"),
            call("c3", "serial"),
        ],
    );
    let (request, _) = bench.request();
    bench.send(answer(&request, "third", 2, Approval::Approved));
    assert_eq!(
        bench.starts,
        [2],
        "a ready serial call skips undecided siblings"
    );
    bench.send(answer(&request, "second", 1, Approval::Approved));
    assert_eq!(recorded_resolutions(&bench.events).len(), 2);
    assert_eq!(
        bench.starts,
        [2],
        "a mixed batch has only one invocation at a time"
    );
    bench.release(2);
    assert_eq!(bench.starts, [2, 1]);
    assert_eq!(bench.completed, [2]);
    bench.release(1);
    assert_eq!(bench.completed, [2, 1]);
    // Both later slots are completed, not blockers or restart candidates.
    let announced: Vec<usize> = bench
        .completions()
        .iter()
        .map(|(_, completion)| completion.message_call_index)
        .collect();
    assert_eq!(announced, [2, 1]);
    bench.send(answer(&request, "first", 0, Approval::Approved));
    assert_eq!(bench.starts, [2, 1, 0]);
    bench.release(0);
    assert_eq!(bench.end, End::Finished);
    assert_eq!(bench.completed, [2, 1, 0]);
    assert_eq!(bench.bodies(), ["first", "second", "serial"]);
    assert_eq!(&replay_trace(&bench.events).messages, bench.messages());
}

fn completion_before_sibling_answer(fail: bool, concurrency: Concurrency) {
    let mut second = call("duplicate", "second");
    second.arguments = json(if fail {
        "{\"fail\":true}"
    } else {
        "{\"fail\":false}"
    });
    let mut bench = Bench::open(
        &[
            ("read", concurrency, Effect::Perception),
            ("first", concurrency, MUTATION),
            ("second", concurrency, MUTATION),
        ],
        vec![call("read", "read"), call("duplicate", "first"), second],
    );
    let (request, _) = bench.request();
    assert_eq!(bench.starts, [0]);
    bench.release(0);
    bench.send(answer(&request, "second", 1, Approval::Approved));
    assert_eq!(bench.starts, [0, 2]);
    bench.release(2);
    {
        let completion = bench.completions()[0].1;
        assert_eq!(
            completion.message_call_index, 2,
            "completion uses the full batch index"
        );
        assert_eq!(completion.call_id, "duplicate");
        assert_eq!(completion.name, "second");
        assert_eq!(completion.turn, 1);
        assert_eq!(completion.error.is_some(), fail);
        if fail {
            assert_eq!(
                completion.error.as_ref().map(|error| error.kind.as_str()),
                Some(error_kinds::TOOL)
            );
            assert!(completion
                .result
                .as_str()
                .expect("a text")
                .contains("probe failed"));
        } else {
            assert_eq!(completion.result, Value::string("second"));
        }
        assert_eq!(
            bench.results().len(),
            1,
            "only the ungated prefix is durable while the sibling remains unanswered"
        );
        assert_eq!(recorded_resolutions(&bench.events).len(), 1);
        assert!(bench
            .events
            .iter()
            .any(|event| event.span_id == completion.span_id
                && matches!(&event.kind, EventKind::ToolCall { call } if call.name == "second")));
    }
    bench.send(answer(&request, "first", 0, Approval::Approved));
    assert_eq!(bench.starts, [0, 2, 1]);
    bench.release(1);
    assert_eq!(bench.end, End::Finished);
    let completions = bench.completions();
    assert_eq!(
        completions.len(),
        1,
        "immediately flushable outcomes need no provisional event"
    );
    let (seq, completion) = completions[0];
    let durable: Vec<(&Event, &Value)> = bench
        .events
        .iter()
        .filter_map(|event| match &event.kind {
            EventKind::ToolResult { result, .. } => Some((event, result)),
            _ => None,
        })
        .collect();
    assert_eq!(durable.len(), 3);
    assert_eq!(durable[0].1, &Value::string("read"));
    assert_eq!(durable[1].1, &Value::string("first"));
    assert_eq!(durable[2].0.span_id, completion.span_id);
    assert_eq!(durable[2].1, &completion.result);
    assert_eq!(durable[2].0.error, completion.error);
    assert!(seq < durable[1].0.seq && durable[1].0.seq < durable[2].0.seq);
    assert_eq!(bench.messages()[2].is_error, fail);
    assert_eq!(&replay_trace(&bench.events).messages, bench.messages());
}

#[test]
fn early_success_is_visible_before_sibling_answer_and_reconciles_by_span() {
    for concurrency in [PARALLEL, SERIAL] {
        completion_before_sibling_answer(false, concurrency);
    }
}

#[test]
fn early_failure_is_visible_before_sibling_answer_and_reconciles_by_span() {
    for concurrency in [PARALLEL, SERIAL] {
        completion_before_sibling_answer(true, concurrency);
    }
}

#[test]
fn serial_batch_approved_together_keeps_original_order_without_provisional_results() {
    let mut bench = decided(
        &[("first", SERIAL, MUTATION), ("second", SERIAL, MUTATION)],
        vec![call("c1", "first"), call("c2", "second")],
        approved(2),
    );
    assert_eq!(bench.starts, [0]);
    bench.release(0);
    assert_eq!(bench.starts, [0, 1]);
    bench.release(1);
    assert_eq!(bench.end, End::Finished);
    assert_eq!(bench.completed, [0, 1]);
    assert!(bench.completions().is_empty());
}

#[test]
fn legacy_short_batch_uses_original_indices_and_preserves_partial_decisions() {
    let mut bench = Bench::open(
        &[
            ("first", PARALLEL, MUTATION),
            ("second", PARALLEL, MUTATION),
            ("last", PARALLEL, MUTATION),
        ],
        vec![
            call("c1", "first"),
            call("c2", "second"),
            call("c3", "last"),
        ],
    );
    let (request, _) = bench.request();
    bench.send(answer(&request, "reject-first", 0, rejected()));
    bench.send(Command::ResolveApproval {
        command_id: "batch".into(),
        request_id: request,
        decisions: approved(2),
    });
    assert_eq!(bench.starts, [1]);
    bench.release(1);
    assert_eq!(bench.end, End::Finished);
    assert_eq!(bench.completed, [1]);
    let marks: Vec<bool> = bench
        .messages()
        .iter()
        .map(|message| message.is_error)
        .collect();
    assert_eq!(marks, [true, false, true]);
    assert_eq!(recorded_resolutions(&bench.events).len(), 2);
}

#[test]
fn timeout_after_partial_approval_denies_only_unanswered_and_drains_execution() {
    let mut bench = Bench::open(
        &[
            ("first", PARALLEL, MUTATION),
            ("second", PARALLEL, MUTATION),
        ],
        vec![call("c1", "first"), call("c2", "second")],
    );
    let (request, _) = bench.request();
    bench.send(answer(&request, "second", 1, Approval::Approved));
    assert_eq!(bench.starts, [1]);
    bench.receive(TimedRecv::TimedOut);
    {
        let resolutions = recorded_resolutions(&bench.events);
        let Command::ResolveApproval { decisions, .. } = resolutions[1] else {
            panic!("timeout resolves the remainder");
        };
        assert!(
            matches!(&decisions[0], Approval::Rejected { comment: Some(comment) } if comment.contains("timed out"))
        );
        assert_eq!(decisions[1], Approval::Approved);
    }
    assert_eq!(bench.waits.last(), Some(&None), "nothing is awaited any more");
    bench.run.note(answer(&request, "too-late", 0, Approval::Approved));
    bench.release(1);
    assert_eq!(bench.end, End::Finished);
    assert_eq!(bench.completed, [1]);
    assert!(bench.messages()[0].is_error);
    assert!(!bench.messages()[1].is_error);
    assert_eq!(recorded_resolutions(&bench.events).len(), 2);
}

#[test]
fn closed_channel_after_partial_approval_preserves_the_approved_call() {
    let mut bench = Bench::open(
        &[
            ("first", PARALLEL, MUTATION),
            ("second", PARALLEL, MUTATION),
        ],
        vec![call("c1", "first"), call("c2", "second")],
    );
    let (request, _) = bench.request();
    bench.send(answer(&request, "second", 1, Approval::Approved));
    assert_eq!(bench.starts, [1]);
    bench.receive(TimedRecv::Closed);
    {
        let resolutions = recorded_resolutions(&bench.events);
        let Command::ResolveApproval { decisions, .. } = resolutions[1] else {
            panic!("closure resolves the remainder");
        };
        assert_eq!(decisions, &vec![rejected(), Approval::Approved]);
    }
    bench.release(1);
    assert_eq!(bench.end, End::Finished);
    assert_eq!(bench.completed, [1]);
    assert!(bench.messages()[0].is_error);
    assert!(!bench.messages()[1].is_error);
    assert_eq!(&replay_trace(&bench.events).messages, bench.messages());
}

#[test]
fn partial_answers_strays_and_invalid_commands_do_not_restart_the_wait_budget() {
    let mut bench = Bench::open(
        &[
            ("first", PARALLEL, MUTATION),
            ("second", PARALLEL, MUTATION),
        ],
        vec![call("c1", "first"), call("c2", "second")],
    );
    let (request, _) = bench.request();
    assert_eq!(bench.waits.last(), Some(&Some(300_000)));
    bench.now = 60_000;
    bench.send(answer(&request, "second", 1, Approval::Approved));
    assert_eq!(bench.starts, [1]);
    assert_eq!(bench.waits.last(), Some(&Some(240_000)));
    bench.now = 120_000;
    bench.send(answer("unknown", "stray", 0, Approval::Approved));
    assert_eq!(bench.waits.last(), Some(&Some(180_000)));
    bench.now = 299_000;
    bench.send(answer(&request, "invalid", 2, Approval::Approved));
    assert_eq!(bench.waits.last(), Some(&Some(1_000)));
    bench.now = 300_000;
    bench.send(answer(&request, "at-deadline", 0, Approval::Approved));
    assert!(matches!(
        recorded_resolutions(&bench.events)[1],
        Command::ResolveApproval { .. }
    ));
    bench.release(1);
    assert_eq!(bench.end, End::Finished);
    assert_eq!(bench.completed, [1]);
    assert!(bench.messages()[0].is_error);
    assert_eq!(recorded_resolutions(&bench.events).len(), 2);
}

#[test]
fn interrupt_drains_in_flight_calls_and_records_completed_work_before_terminal() {
    let mut bench = Bench::open(
        &[
            ("first", PARALLEL, MUTATION),
            ("second", PARALLEL, MUTATION),
            ("last", PARALLEL, MUTATION),
        ],
        vec![
            call("c1", "first"),
            call("c2", "second"),
            call("c3", "last"),
        ],
    );
    let (request, _) = bench.request();
    bench.send(answer(&request, "second", 1, Approval::Approved));
    bench.send(answer(&request, "last", 2, Approval::Approved));
    assert_eq!(bench.starts, [1, 2]);
    bench.interrupt();
    bench.release(2);
    assert_eq!(bench.completed, [2]);
    assert!(!bench
        .events
        .iter()
        .any(|event| matches!(event.kind, EventKind::RunFinished { .. })));
    bench.release(1);
    assert_eq!(bench.end, End::Interrupted);
    assert_eq!(bench.completed, [2, 1]);
    let answered: Vec<Option<&str>> = bench
        .messages()
        .iter()
        .map(|message| message.tool_call_id.as_deref())
        .collect();
    assert_eq!(answered, [Some("c2"), Some("c3")]);
    assert!(matches!(
        bench.events.last().expect("terminal record").kind,
        EventKind::RunFinished { .. }
    ));
    let replay = replay_trace(&bench.events);
    assert!(replay.dangling_tool_calls.is_empty());
    assert_eq!(&replay.messages, bench.messages());
    assert_eq!(
        replay
            .finished
            .expect("finished")
            .error
            .expect("error")
            .kind,
        error_kinds::INTERRUPTED
    );
}

#[test]
fn parked_receiver_interrupt_beats_serial_admission_on_tool_completion() {
    let mut bench = Bench::open(
        &[
            ("first", SERIAL, MUTATION),
            ("second", SERIAL, MUTATION),
            ("unanswered", SERIAL, MUTATION),
        ],
        vec![
            call("c1", "first"),
            call("c2", "second"),
            call("c3", "unanswered"),
        ],
    );
    let (request, _) = bench.request();
    bench.send(answer(&request, "first", 0, Approval::Approved));
    bench.send(answer(&request, "second", 1, Approval::Approved));
    assert_eq!(bench.starts, [0]);
    assert_eq!(recorded_resolutions(&bench.events).len(), 2);
    bench.send(answer(&request, "park", usize::MAX, Approval::Approved));
    assert_eq!(bench.waits.last(), Some(&Some(300_000)));
    // Both the command and the completion are there before the next step.
    bench.run.note(Command::Interrupt {
        command_id: "stop".into(),
    });
    bench.release(0);
    assert_eq!(bench.end, End::Interrupted);
    assert_eq!(
        bench.completed,
        [0],
        "the queued interrupt must prevent the second from starting"
    );
    assert_eq!(bench.messages().len(), 1);
    assert!(!bench
        .events
        .iter()
        .any(|event| matches!(&event.kind, EventKind::ToolCall { call } if call.id == "c2")));
}

#[test]
fn interrupt_stops_unstarted_serial_calls_even_after_all_approvals() {
    let mut bench = decided(
        &[("first", SERIAL, MUTATION), ("second", SERIAL, MUTATION)],
        vec![call("c1", "first"), call("c2", "second")],
        approved(2),
    );
    assert_eq!(bench.starts, [0]);
    bench.interrupt();
    bench.release(0);
    assert_eq!(bench.end, End::Interrupted);
    assert_eq!(bench.completed, [0]);
    assert_eq!(bench.messages().len(), 1);
}

#[test]
fn a_call_that_is_not_in_flight_cannot_complete() {
    let mut bench = Bench::open(&[("w", SERIAL, MUTATION)], vec![call("c1", "w")]);
    let outcome = tool_answer(Value::string("early"), None);
    assert!(!bench.batch.complete(&bench.run, 0, outcome.clone()));
    assert!(!bench.batch.complete(&bench.run, 7, outcome));
    assert!(!bench.batch.in_flight());
    assert!(bench.messages().is_empty());
}

// --- Denials of a whole batch.

#[test]
fn every_position_is_denied_without_a_reason() {
    let denied = deny_all(&[1, 4]);
    assert_eq!(denied, HashMap::from([(1, None), (4, None)]));
}

#[test]
fn a_batch_reply_denies_what_it_rejects_and_what_it_leaves_out() {
    let denied = batch_denials(
        &[0, 2, 3],
        &[
            Approval::Approved,
            Approval::Rejected {
                comment: Some("no".into()),
            },
        ],
    );
    assert_eq!(
        denied,
        HashMap::from([(2, Some("no".to_owned())), (3, None)])
    );
}
