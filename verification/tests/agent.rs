//! The agent loop, driven to its end with a scripted provider and recorded
//! effects.
use cadmus::contract::testing::QueuedResponse;
use cadmus::json::Value;
use cadmus::runtime::agent::dispatch::Execution;
use cadmus::runtime::agent::ledger::Output;
use cadmus::runtime::agent::outcome::{tool_answer, tool_failure, ToolOutcome};
use cadmus::runtime::agent::session::{Action, Report, Session};
use cadmus::runtime::context::format_injected;
use cadmus::runtime::testing::{test_context, RecordingArtifacts};
use cadmus::{
    attrs, error_kinds, replay_trace, AgentError, AgentLoop, Approval, Attributes, CacheSupport,
    Capabilities, ChatRequest, Command, Concurrency, ContentPart, ContextBundle, Effect,
    EstimateSource, Event, EventKind, FinishReason, FoldPolicy, FoldedRef, FrozenPrefix, GitStatus,
    InstructionFile, LiveItem, LiveKind, LogError, Message, MessageAssembler, ModelError,
    ReplayProvider, Role, RunOutcome, SoSupport, Status, SteerMode, StreamChunk, Support,
    TimedRecv, TodoItem, TodoStatus, ToolDeclaration, ToolError, ToolSpec, TurnOutcome, Usage,
};
use std::cell::RefCell;
use std::collections::VecDeque;
use std::rc::Rc;

type Script = Vec<Result<StreamChunk, ModelError>>;
type Queue = Rc<RefCell<VecDeque<Command>>>;
type Client = Box<dyn FnMut(&LiveItem) -> Vec<Command>>;
type Invoke = Box<dyn FnMut(&Value) -> ToolOutcome>;

const NOW: u64 = 1_788_393_600_000;

fn json(text: &str) -> Value {
    Value::parse(text).expect("valid JSON")
}

fn test_capabilities() -> Capabilities {
    Capabilities {
        tools: true,
        parallel_tools: Support::Yes,
        structured_output: SoSupport::NativeStrict,
        reasoning: None,
        prompt_cache: CacheSupport::Automatic,
        logprobs: false,
        max_context: 128_000,
        max_output: 8_000,
        opaque_echo: vec![],
    }
}

fn declare(name: &str, concurrency: Concurrency, effect: Effect) -> ToolDeclaration {
    ToolDeclaration {
        spec: ToolSpec {
            name: name.into(),
            description: name.into(),
            parameters: json("{\"type\":\"object\"}"),
        },
        concurrency,
        effect,
    }
}

/// A tool together with what it does when it is invoked.
struct Tool {
    declaration: ToolDeclaration,
    invoke: Invoke,
}

fn echo() -> Tool {
    Tool {
        declaration: declare("echo", Concurrency::Serial, Effect::Mutation),
        invoke: Box::new(|arguments: &Value| tool_answer(arguments.clone(), None)),
    }
}

fn logging(name: &'static str, concurrency: Concurrency, log: &Rc<RefCell<Vec<String>>>) -> Tool {
    let log = log.clone();
    Tool {
        declaration: declare(name, concurrency, Effect::Mutation),
        invoke: Box::new(move |_: &Value| {
            log.borrow_mut().push(format!("start {name}"));
            log.borrow_mut().push(format!("end {name}"));
            tool_answer(Value::string(name), None)
        }),
    }
}

fn big(size: usize) -> Tool {
    Tool {
        declaration: declare("big", Concurrency::Serial, Effect::Mutation),
        invoke: Box::new(move |_: &Value| tool_answer(Value::string(&"x".repeat(size)), None)),
    }
}

fn tool_call_script(id: &str, args: &str) -> Script {
    ReplayProvider::script(vec![
        StreamChunk::ToolCallStart {
            index: 0,
            id: id.into(),
            name: "echo".into(),
        },
        StreamChunk::ToolArgsDelta {
            index: 0,
            fragment: args.into(),
        },
        StreamChunk::ToolCallEnd { index: 0 },
        StreamChunk::Done {
            finish: FinishReason::ToolCalls,
        },
    ])
}

fn named_call_script(id: &str, name: &str) -> Script {
    ReplayProvider::script(vec![
        StreamChunk::ToolCallStart {
            index: 0,
            id: id.into(),
            name: name.into(),
        },
        StreamChunk::ToolCallEnd { index: 0 },
        StreamChunk::Done {
            finish: FinishReason::ToolCalls,
        },
    ])
}

fn text_script(text: &str) -> Script {
    ReplayProvider::script(vec![
        StreamChunk::TextDelta(text.into()),
        StreamChunk::Done {
            finish: FinishReason::Stop,
        },
    ])
}

fn text_of(message: &Message) -> String {
    message
        .content
        .iter()
        .filter_map(|part| match part {
            ContentPart::Text { text } => Some(text.as_str()),
            _ => None,
        })
        .collect()
}

fn kind_name(event: &Event) -> &'static str {
    match &event.kind {
        EventKind::Command(Command::StartRun { .. }) => "start_run",
        EventKind::Command(Command::ResolveApproval { .. }) => "resolve_approval",
        EventKind::Command(Command::ResolveApprovalCall { .. }) => "resolve_approval_call",
        EventKind::Command(Command::Steer { .. }) => "steer",
        EventKind::Command(Command::Interrupt { .. }) => "interrupt",
        EventKind::LlmRequest { .. } => "llm_request",
        EventKind::Fold { .. } => "fold",
        EventKind::InstructionInjected { .. } => "instruction_injected",
        EventKind::LlmResponse { .. } => "llm_response",
        EventKind::ToolCall { .. } => "tool_call",
        EventKind::ToolResult { .. } => "tool_result",
        EventKind::EvalScore(_) => "eval_score",
        EventKind::RunFinished { .. } => "run_finished",
    }
}

fn kinds(events: &[Event]) -> Vec<&'static str> {
    events.iter().map(kind_name).collect()
}

fn error_kind(event: &Event) -> Option<&str> {
    event.error.as_ref().map(|error| error.kind.as_str())
}

/// Answers each approval request with the decisions of a policy.
fn resolving(policy: impl Fn(usize) -> Vec<Approval> + 'static) -> Client {
    Box::new(move |item: &LiveItem| match &item.kind {
        LiveKind::ApprovalRequested {
            request_id, calls, ..
        } => vec![Command::ResolveApproval {
            command_id: format!("auto-{request_id}"),
            request_id: request_id.clone(),
            decisions: policy(calls.len()),
        }],
        _ => vec![],
    })
}

fn approving() -> Client {
    resolving(|n| (0..n).map(|_| Approval::Approved).collect())
}

/// Sends one command the first time an item matches, and otherwise answers
/// like `inner`.
fn send_on_match(
    predicate: impl Fn(&LiveItem) -> bool + 'static,
    command: Command,
    mut inner: Client,
) -> Client {
    let mut command = Some(command);
    Box::new(move |item: &LiveItem| {
        let mut out = Vec::new();
        if predicate(item) {
            out.extend(command.take());
        }
        out.extend(inner(item));
        out
    })
}

fn silent() -> Client {
    Box::new(|_: &LiveItem| vec![])
}

/// Draws the numbers that the next step may take, and reads the clock for it.
fn restock(session: &mut Session, last: &mut u64, clock: impl FnMut() -> u64) {
    let need = session.need() as usize;
    let mut numbers = Vec::new();
    while session.numbers_left() + numbers.len() < need {
        *last += 1;
        numbers.push(*last);
    }
    assert!(session.accepts(&numbers));
    session.supply(numbers, std::iter::repeat_with(clock).take(need).collect());
}

/// Everything outside of the loop.
struct World {
    provider: ReplayProvider,
    tools: Vec<Tool>,
    context: ContextBundle,
    max_turns: usize,
    client: Client,
    queue: Queue,
    /// No client is left to send a command.
    closed: bool,
    git: Option<GitStatus>,
    offset_minutes: i32,
    nested: Option<Vec<InstructionFile>>,
    fail_append_at: Option<usize>,
    fail_spill: bool,
    requests: Vec<ChatRequest>,
    events: Vec<Event>,
    live: Vec<LiveItem>,
    /// The conversation as it last stood.
    history: Vec<Message>,
    artifacts: RecordingArtifacts,
}

impl World {
    fn new(scripts: Vec<Script>, tools: Vec<Tool>) -> World {
        World {
            provider: ReplayProvider::new(scripts).with_capabilities(test_capabilities()),
            tools,
            context: test_context(),
            max_turns: 8,
            client: approving(),
            queue: Rc::new(RefCell::new(VecDeque::new())),
            closed: false,
            git: None,
            offset_minutes: 0,
            nested: None,
            fail_append_at: None,
            fail_spill: false,
            requests: Vec::new(),
            events: Vec::new(),
            live: Vec::new(),
            history: Vec::new(),
            artifacts: RecordingArtifacts::default(),
        }
    }

    fn with_context_limit(mut self, max_context: u32, policy: FoldPolicy) -> World {
        self.provider = self.provider.with_capabilities(Capabilities {
            max_context,
            ..test_capabilities()
        });
        self.context.fold_policy = policy;
        self
    }

    fn send(&self, command: Command) {
        self.queue.borrow_mut().push_back(command);
    }

    /// Performs the outputs in order, and hands on the commands received.
    fn perform(&mut self, session: &mut Session) -> Result<(), AgentError> {
        for output in session.take_outputs() {
            match output {
                Output::Append(event) => {
                    if self.fail_append_at == Some(self.events.len()) {
                        return Err(AgentError::Log(LogError::Io("sink boom".into())));
                    }
                    self.events.push(event);
                }
                Output::Publish(item) => {
                    let answers = (self.client)(&item);
                    self.queue.borrow_mut().extend(answers);
                    self.live.push(item);
                }
            }
        }
        let received: Vec<Command> = self.queue.borrow_mut().drain(..).collect();
        for command in received {
            session.note(command);
        }
        Ok(())
    }

    fn execute(&mut self, session: &Session, position: usize) -> ToolOutcome {
        match session.execution(position).expect("a started call") {
            Execution::Answer(outcome) => outcome,
            Execution::Invoke { name, arguments } => {
                let tool = self
                    .tools
                    .iter_mut()
                    .find(|tool| tool.declaration.spec.name == name)
                    .expect("a declared tool");
                (tool.invoke)(&arguments)
            }
        }
    }

    fn run(&mut self, base: &ChatRequest) -> Result<RunOutcome, AgentError> {
        let context = ContextBundle {
            prefix: std::mem::replace(
                &mut self.context.prefix,
                FrozenPrefix::assemble("", &vec![], &vec![]),
            ),
            cwd: self.context.cwd.clone(),
            fold_policy: self.context.fold_policy,
        };
        let wiring = AgentLoop {
            tools: self
                .tools
                .iter()
                .map(|tool| tool.declaration.clone())
                .collect(),
            context,
            max_context: self.provider.capabilities().max_context,
            max_turns: self.max_turns,
            trace_id: "tr-test".into(),
            run_attributes: Attributes { entries: vec![] },
        };
        let mut session = Session::start(wiring, base, vec![1, 2], vec![NOW]);
        let mut last = 2;
        let mut stream: VecDeque<Result<StreamChunk, ModelError>> = VecDeque::new();
        let mut ready: VecDeque<usize> = VecDeque::new();
        let mut action = Action::Go;
        loop {
            self.history = session.messages().clone();
            self.perform(&mut session)?;
            let report = match action {
                Action::Go => Report::Ready,
                Action::Spill(orders) => {
                    let mut paths = Vec::new();
                    for order in &orders {
                        if self.fail_spill {
                            let detail = format!("cannot write {}", order.name);
                            return Err(AgentError::Log(LogError::Io(detail)));
                        }
                        paths.push(self.artifacts.spill(&order.name, &order.content));
                    }
                    Report::Spilled(paths)
                }
                Action::Probe => Report::Probed {
                    git: self.git.clone(),
                    offset_minutes: self.offset_minutes,
                },
                Action::Call(request) => {
                    self.requests.push(request.clone());
                    match self.provider.next_stream(&request) {
                        Ok(items) => {
                            stream = items.into();
                            Report::Opened
                        }
                        Err(error) => Report::Refused(error),
                    }
                }
                Action::Read => match stream.pop_front() {
                    Some(Ok(chunk)) => Report::Chunk(chunk),
                    Some(Err(error)) => Report::Broke(error),
                    None => Report::Ended,
                },
                Action::Track(calls) => {
                    let files = if calls.is_empty() {
                        None
                    } else {
                        self.nested.take()
                    };
                    Report::Located(files.unwrap_or_default())
                }
                Action::Work { starts, listen } => {
                    ready.extend(starts);
                    match ready.pop_front() {
                        Some(position) => Report::Completed {
                            position,
                            outcome: self.execute(&session, position),
                        },
                        None if self.closed => Report::Received(TimedRecv::Closed),
                        None => {
                            assert!(listen.is_some(), "nothing in flight and nobody to wait for");
                            Report::Received(TimedRecv::TimedOut)
                        }
                    }
                }
                Action::Finish(outcome) => return Ok(outcome),
                Action::Fail(error) => return Err(error),
                Action::Stay => panic!("the session refused a report"),
            };
            restock(&mut session, &mut last, || NOW);
            assert!(session.can_step());
            action = session.step(report, NOW);
        }
    }
}

// --- The run spine.

#[test]
fn mod_runs_tool_call_round_trip() {
    let mut world = World::new(
        vec![
            tool_call_script("c1", "{\"text\":\"ping\"}"),
            text_script("pong received"),
        ],
        vec![echo()],
    );
    let outcome = world
        .run(&ChatRequest::user_text("say ping", 1_024))
        .expect("run");

    assert_eq!(outcome.turns, 2);
    // user → assistant(call) → tool(result) → assistant(text)
    assert_eq!(outcome.messages.len(), 4);
    assert_eq!(
        outcome.messages[2].content[0],
        ContentPart::Text {
            text: "{\"text\":\"ping\"}".into()
        }
    );
    assert_eq!(outcome.messages[2].tool_call_id.as_deref(), Some("c1"));
}

#[test]
fn mod_unknown_tool_is_feedback_not_failure() {
    let mut world = World::new(
        vec![
            named_call_script("c1", "does_not_exist"),
            text_script("sorry"),
        ],
        vec![],
    );
    let outcome = world
        .run(&ChatRequest::user_text("hi", 1_024))
        .expect("run");
    assert!(matches!(
        &outcome.messages[2].content[0],
        ContentPart::Text { text } if text.contains("unknown tool")
    ));
    assert!(outcome.messages[2].is_error);
    // Both channels carry the failure.
    let tool_result = world
        .events
        .iter()
        .find(|event| matches!(event.kind, EventKind::ToolResult { .. }))
        .expect("a tool_result event");
    assert_eq!(tool_result.status, Status::Error);
    assert_eq!(error_kind(tool_result), Some(error_kinds::UNKNOWN_TOOL));
}

#[test]
fn mod_empty_turn_is_an_error_carrying_the_finish_reason() {
    let mut world = World::new(
        vec![ReplayProvider::script(vec![StreamChunk::Done {
            finish: FinishReason::Length,
        }])],
        vec![],
    );
    let err = world
        .run(&ChatRequest::user_text("hi", 1_024))
        .expect_err("empty turn must fail");
    assert!(matches!(
        err,
        AgentError::EmptyTurn {
            finish: FinishReason::Length
        }
    ));
    let events = &world.events;
    assert_eq!(
        kinds(events),
        ["start_run", "llm_request", "llm_response", "run_finished"]
    );
    let EventKind::LlmResponse { outcome, .. } = &events[2].kind else {
        panic!("expected llm_response");
    };
    assert_eq!(*outcome, TurnOutcome::Empty);
    assert_eq!(events[2].status, Status::Error);
    assert_eq!(error_kind(&events[2]), Some(error_kinds::EMPTY_TURN));
    assert_eq!(events[3].status, Status::Error);
    assert!(matches!(
        events[3].kind,
        EventKind::RunFinished { turns: 0 }
    ));
}

#[test]
fn mod_turn_limit_is_enforced() {
    let scripts: Vec<_> = (0..3)
        .map(|i| tool_call_script(&format!("c{i}"), "{\"text\":\"x\"}"))
        .collect();
    let mut world = World::new(scripts, vec![echo()]);
    world.max_turns = 3;
    let err = world
        .run(&ChatRequest::user_text("loop", 1_024))
        .expect_err("must hit the turn limit");
    assert!(matches!(err, AgentError::TurnLimit(3)));
    assert_eq!(err.to_text(), "assistant turn limit (3) exceeded");
    let last = world.events.last().expect("a terminal event");
    assert!(matches!(last.kind, EventKind::RunFinished { turns: 3 }));
    assert_eq!(last.status, Status::Error);
    assert_eq!(error_kind(last), Some(error_kinds::TURN_LIMIT));
}

#[test]
fn mod_call_level_failure_leaves_the_turn_span_unclosed() {
    let mut world = World::new(vec![], vec![]);
    world
        .provider
        .queue(QueuedResponse::CallError(ModelError::RateLimited {
            retry_after: None,
        }));
    let err = world
        .run(&ChatRequest::user_text("hi", 1_024))
        .expect_err("the call fails");
    assert!(matches!(
        err,
        AgentError::Provider(ModelError::RateLimited { .. })
    ));
    assert_eq!(
        kinds(&world.events),
        ["start_run", "llm_request", "run_finished"]
    );
    let finished = world.events.last().expect("terminal record");
    assert_eq!(finished.status, Status::Error);
    assert!(matches!(finished.kind, EventKind::RunFinished { turns: 0 }));
    assert_eq!(error_kind(finished), Some(error_kinds::RATE_LIMITED));
}

#[test]
fn mod_mid_stream_failure_records_the_partial_turn() {
    let mut world = World::new(vec![], vec![]);
    world.provider.queue(QueuedResponse::StreamError {
        chunks: vec![StreamChunk::TextDelta("partial".into())],
        error: ModelError::Network("connection reset".into()),
    });
    let err = world
        .run(&ChatRequest::user_text("hi", 1_024))
        .expect_err("the stream fails");
    assert!(matches!(err, AgentError::Provider(ModelError::Network(_))));
    let events = &world.events;
    assert_eq!(
        kinds(events),
        ["start_run", "llm_request", "llm_response", "run_finished"]
    );
    let response = &events[2];
    assert_eq!(response.status, Status::Error);
    assert_eq!(error_kind(response), Some(error_kinds::NETWORK));
    let EventKind::LlmResponse {
        message, outcome, ..
    } = &response.kind
    else {
        panic!("expected llm_response");
    };
    assert_eq!(*outcome, TurnOutcome::Truncated);
    assert!(matches!(
        message.content.first(),
        Some(ContentPart::Text { text }) if text == "partial"
    ));
    assert_eq!(
        events.last().expect("terminal record").status,
        Status::Error
    );
}

#[test]
fn mod_requests_render_three_segments_and_start_run_records_the_prefix() {
    let mut world = World::new(vec![text_script("done")], vec![]);
    world.context = ContextBundle {
        prefix: FrozenPrefix::assemble(
            "test prompt",
            &vec![InstructionFile {
                path: "/repo/AGENTS.md".into(),
                content: "project rules".into(),
            }],
            &vec![],
        ),
        cwd: "/repo".into(),
        fold_policy: FoldPolicy::default(),
    };
    world.git = Some(GitStatus {
        branch: "main".into(),
        dirty_count: 3,
    });
    world
        .run(&ChatRequest::user_text("hi", 1_024))
        .expect("run");

    assert_eq!(world.requests.len(), 1);
    let messages = &world.requests[0].messages;
    assert_eq!(messages.len(), 3, "prefix + prompt + trailer");
    assert_eq!(messages[0].role, Role::System);
    let system = text_of(&messages[0]);
    assert!(system.contains("test prompt"));
    assert!(system.contains("## /repo/AGENTS.md"));
    assert!(system.contains("project rules"));
    assert_eq!(messages[1], Message::user("hi"));
    let trailer = text_of(&messages[2]);
    assert!(trailer.contains("[cadmus status]"));
    assert!(trailer.contains("cwd: /repo"));
    assert!(trailer.contains("git: main, dirty(3)"));

    let events = &world.events;
    let EventKind::Command(Command::StartRun { prefix, .. }) = &events[0].kind else {
        panic!("first event is start_run");
    };
    let record = prefix.as_ref().expect("prefix recorded on start_run");
    assert!(record.system.contains("test prompt"));
    assert_eq!(record.instructions.len(), 1);
    assert_eq!(
        Some(record.hash.as_str()),
        events[0]
            .attributes
            .get(attrs::PREFIX_HASH)
            .and_then(Value::as_str),
        "the hash attribute matches the record"
    );
    let recorded = events.iter().find_map(|event| match &event.kind {
        EventKind::LlmRequest { trailer } => Some(trailer.clone()),
        _ => None,
    });
    assert_eq!(
        recorded.expect("request event").as_deref(),
        Some(trailer.as_str()),
        "the request event carries the exact rendered trailer"
    );
}

#[test]
fn every_turn_shares_the_prefix_and_the_parameters() {
    let mut world = World::new(
        vec![
            tool_call_script("c1", "{\"text\":\"ping\"}"),
            text_script("done"),
        ],
        vec![echo()],
    );
    world
        .run(&ChatRequest::user_text("go", 1_024))
        .expect("run");
    let (first, second) = (&world.requests[0], &world.requests[1]);
    assert_eq!(first.messages[0], second.messages[0]);
    let as_first = ChatRequest {
        messages: first.messages.clone(),
        ..second.clone()
    };
    assert_eq!(&as_first, first);
    assert_eq!(first.tools.len(), 1);
}

#[test]
fn a_report_that_does_not_fit_changes_nothing() {
    let wiring = AgentLoop {
        tools: vec![],
        context: test_context(),
        max_context: 10_000,
        max_turns: 1,
        trace_id: "tr-test".into(),
        run_attributes: Attributes { entries: vec![] },
    };
    let mut session = Session::start(
        wiring,
        &ChatRequest::user_text("hi", 64),
        vec![1, 2],
        vec![NOW],
    );
    let mut last = 2;
    restock(&mut session, &mut last, || NOW);
    assert_eq!(session.take_outputs().len(), 2);
    assert!(matches!(session.step(Report::Opened, NOW), Action::Stay));
    assert!(session.take_outputs().is_empty());
    assert!(matches!(session.step(Report::Ready, NOW), Action::Probe));
    restock(&mut session, &mut last, || NOW);
    assert!(matches!(session.step(Report::Ready, NOW), Action::Stay));
    assert!(session.execution(0).is_none());
}

#[test]
fn a_closed_session_stays_closed() {
    let wiring = AgentLoop {
        tools: vec![],
        context: test_context(),
        max_context: 10_000,
        max_turns: 0,
        trace_id: "tr-test".into(),
        run_attributes: Attributes { entries: vec![] },
    };
    let mut session = Session::start(
        wiring,
        &ChatRequest::user_text("hi", 64),
        vec![1, 2],
        vec![NOW],
    );
    let mut last = 2;
    restock(&mut session, &mut last, || NOW);
    assert!(matches!(
        session.step(Report::Ready, NOW),
        Action::Fail(AgentError::TurnLimit(0))
    ));
    session.take_outputs();
    assert!(matches!(session.step(Report::Ready, NOW), Action::Stay));
    assert!(session.take_outputs().is_empty());
}

// --- The event plumbing.

#[test]
fn a_failed_append_never_reaches_the_live_stream() {
    let mut world = World::new(vec![text_script("done")], vec![]);
    // start_run lands; the llm_request append fails.
    world.fail_append_at = Some(1);
    let err = world
        .run(&ChatRequest::user_text("hi", 1_024))
        .expect_err("the log failure aborts the run");
    assert!(matches!(err, AgentError::Log(_)));
    assert_eq!(world.events.len(), 1, "only start_run landed in the log");
    assert_eq!(
        world.live.len(),
        world.events.len(),
        "the live stream observes exactly what the trajectory holds"
    );
    assert!(matches!(
        &world.live[0].kind,
        LiveKind::Recorded { event }
            if matches!(event.kind, EventKind::Command(Command::StartRun { .. }))
    ));
}

/// Folds what a subscriber saw, and holds it against the recorded turns.
fn reconciled_turns(live: &[LiveItem]) -> usize {
    let mut assembler = MessageAssembler::new();
    let mut turns = 0;
    for item in live {
        match &item.kind {
            LiveKind::AssistantDelta { chunk, .. } => assembler.push(chunk.clone()),
            LiveKind::Recorded { event } => match &event.kind {
                EventKind::LlmRequest { .. } => assembler = MessageAssembler::new(),
                EventKind::LlmResponse {
                    message, outcome, ..
                } => {
                    let folded =
                        std::mem::replace(&mut assembler, MessageAssembler::new()).complete();
                    assert_eq!(&folded.message, message);
                    assert_eq!(&folded.outcome, outcome);
                    turns += 1;
                }
                _ => {}
            },
            _ => {}
        }
    }
    turns
}

#[test]
fn a_subscribers_fold_is_the_recorded_turn() {
    let mut world = World::new(
        vec![
            tool_call_script("c1", "{\"text\":\"ping\"}"),
            text_script("pong received"),
        ],
        vec![echo()],
    );
    world
        .run(&ChatRequest::user_text("say ping", 1_024))
        .expect("run");
    assert_eq!(reconciled_turns(&world.live), 2);

    let mut broken = World::new(vec![], vec![]);
    broken.provider.queue(QueuedResponse::StreamError {
        chunks: vec![StreamChunk::TextDelta("partial".into())],
        error: ModelError::Network("connection reset".into()),
    });
    broken
        .run(&ChatRequest::user_text("hi", 1_024))
        .expect_err("the stream fails");
    assert_eq!(reconciled_turns(&broken.live), 1);
}

#[test]
fn a_replay_knows_how_the_run_ended() {
    let mut world = World::new(vec![text_script("done")], vec![]);
    world
        .run(&ChatRequest::user_text("hi", 1_024))
        .expect("run");
    let finished = replay_trace(&world.events).finished.expect("an ending");
    assert_eq!(finished.turns, 1);
    assert_eq!(finished.status, Status::Success);
    assert!(finished.error.is_none());
    let open = &world.events[..world.events.len() - 1];
    assert!(replay_trace(open).finished.is_none());

    let mut limited = World::new(vec![text_script("done")], vec![]);
    limited.max_turns = 0;
    limited
        .run(&ChatRequest::user_text("hi", 1_024))
        .expect_err("no turn is allowed");
    let finished = replay_trace(&limited.events).finished.expect("an ending");
    assert_eq!(finished.turns, 0);
    assert_eq!(finished.status, Status::Error);
    assert_eq!(
        finished.error.expect("a detail").kind,
        error_kinds::TURN_LIMIT
    );
}

#[test]
fn every_event_of_a_step_has_a_number_and_a_reading_of_its_own() {
    let wiring = AgentLoop {
        tools: vec![],
        context: test_context(),
        max_context: 128_000,
        max_turns: 1,
        trace_id: "tr-test".into(),
        run_attributes: Attributes { entries: vec![] },
    };
    let base = ChatRequest::user_text("hi", 64);
    let mut session = Session::start(wiring, &base, vec![10, 20], vec![100]);
    for id in ["a", "b"] {
        session.note(Command::Steer {
            command_id: id.into(),
            mode: SteerMode::Inject,
            text: id.into(),
        });
    }
    let (mut last, mut clock) = (20, 200);
    restock(&mut session, &mut last, || {
        clock += 1;
        clock
    });
    assert!(matches!(session.step(Report::Ready, NOW), Action::Probe));
    let stamps: Vec<(u64, u64)> = session
        .take_outputs()
        .into_iter()
        .filter_map(|output| match output {
            Output::Append(event) => Some((event.seq, event.time_unix_ms)),
            Output::Publish(_) => None,
        })
        .collect();
    assert_eq!(stamps, [(20, 100), (22, 201), (24, 202)]);
}

#[test]
fn a_successful_run_is_whole() {
    let mut world = World::new(
        vec![
            tool_call_script("c1", "{\"text\":\"ping\"}"),
            text_script("pong received"),
        ],
        vec![echo()],
    );
    let base = ChatRequest::user_text("say ping", 1_024);
    let outcome = world.run(&base).expect("run");
    assert_eq!(replay_trace(&world.events).messages, outcome.messages);
    assert_eq!(outcome.messages[..1], base.messages[..]);
    assert!(outcome.final_turn.message.tool_calls().is_empty());
    assert!(1 <= outcome.turns && outcome.turns <= world.max_turns);
    let last = world.events.last().expect("a terminal record");
    assert!(matches!(last.kind, EventKind::RunFinished { turns: 2 }));
    assert_eq!(last.status, Status::Success);
    assert!(last.error.is_none());
}

#[test]
fn every_run_ends_with_one_terminal_record() {
    let mut finished = World::new(vec![text_script("done")], vec![]);
    finished
        .run(&ChatRequest::user_text("hi", 1_024))
        .expect("run");
    let mut limited = World::new(vec![tool_call_script("c", "{}")], vec![echo()]);
    limited.max_turns = 1;
    limited
        .run(&ChatRequest::user_text("hi", 1_024))
        .expect_err("limit");
    for world in [&finished, &limited] {
        let terminal: Vec<usize> = world
            .events
            .iter()
            .enumerate()
            .filter(|(_, event)| matches!(event.kind, EventKind::RunFinished { .. }))
            .map(|(at, _)| at)
            .collect();
        assert_eq!(terminal, [world.events.len() - 1]);
        let mut seen: Vec<&str> = world.events.iter().map(|event| event.id.as_str()).collect();
        seen.sort_unstable();
        seen.dedup();
        assert_eq!(seen.len(), world.events.len(), "no id is minted twice");
        assert!(world.live.windows(2).all(|pair| pair[0].seq < pair[1].seq));
    }
}

// --- Client commands.

#[test]
fn inbox_a_resolve_for_an_unknown_request_is_dropped() {
    let mut world = World::new(
        vec![
            tool_call_script("c1", "{\"text\":\"ping\"}"),
            text_script("done"),
        ],
        vec![echo()],
    );
    // A bogus resolve sits in the channel before the real request exists.
    world.send(Command::ResolveApproval {
        command_id: "cmd-bogus".into(),
        request_id: "ap-bogus".into(),
        decisions: vec![Approval::Rejected {
            comment: Some("stray".into()),
        }],
    });
    let outcome = world
        .run(&ChatRequest::user_text("hi", 1_024))
        .expect("the stray resolve must not poison the run");
    assert_eq!(outcome.turns, 2);
    let resolves = world
        .events
        .iter()
        .filter(|event| kind_name(event) == "resolve_approval")
        .count();
    assert_eq!(resolves, 1, "only the real request's resolve is recorded");
    assert!(!outcome.messages[2].is_error, "the call was approved");
}

#[test]
fn inbox_a_retried_command_applies_exactly_once() {
    let mut world = World::new(vec![text_script("one"), text_script("two")], vec![]);
    let steer = || Command::Steer {
        command_id: "cmd-dup".into(),
        text: "one more thing".into(),
        mode: SteerMode::Queue,
    };
    world.send(steer());
    world.send(steer());
    let outcome = world
        .run(&ChatRequest::user_text("hi", 1_024))
        .expect("the queued steer extends the run");
    let steered = outcome
        .messages
        .iter()
        .filter(|message| {
            matches!(&message.content[0], ContentPart::Text { text } if text == "one more thing")
        })
        .count();
    assert_eq!(steered, 1, "the retry deduped on the command id");
    let steers = world
        .events
        .iter()
        .filter(|event| kind_name(event) == "steer")
        .count();
    assert_eq!(steers, 1, "one command event, not two");
}

#[test]
fn inbox_an_injected_steer_lands_at_the_next_request_boundary() {
    let mut world = World::new(
        vec![
            tool_call_script("c1", "{\"text\":\"ping\"}"),
            text_script("pong received"),
        ],
        vec![echo()],
    );
    world.client = send_on_match(
        |item| {
            matches!(
                &item.kind,
                LiveKind::Recorded { event } if matches!(event.kind, EventKind::LlmResponse { .. })
            )
        },
        Command::Steer {
            command_id: "cmd-steer".into(),
            text: "also say thanks".into(),
            mode: SteerMode::Inject,
        },
        approving(),
    );
    let outcome = world
        .run(&ChatRequest::user_text("say ping", 1_024))
        .expect("run");
    // user → assistant(call) → tool(result) → user(steer) → assistant(text)
    let roles: Vec<_> = outcome
        .messages
        .iter()
        .map(|message| message.role)
        .collect();
    assert_eq!(
        roles,
        [
            Role::User,
            Role::Assistant,
            Role::Tool,
            Role::User,
            Role::Assistant,
        ]
    );
    assert!(
        matches!(&outcome.messages[3].content[0], ContentPart::Text { text } if text == "also say thanks")
    );
    assert_eq!(replay_trace(&world.events).messages, outcome.messages);
}

#[test]
fn inbox_a_queued_steer_continues_a_run_that_would_finish() {
    let mut world = World::new(vec![text_script("first"), text_script("second")], vec![]);
    world.send(Command::Steer {
        command_id: "cmd-queue".into(),
        text: "one more thing".into(),
        mode: SteerMode::Queue,
    });
    let outcome = world
        .run(&ChatRequest::user_text("hi", 1_024))
        .expect("the queued steer extends the run");
    assert_eq!(outcome.turns, 2);
    // user → assistant("first") → user(steer) → assistant("second")
    assert_eq!(text_of(&outcome.messages[1]), "first");
    assert_eq!(text_of(&outcome.messages[2]), "one more thing");
    assert_eq!(replay_trace(&world.events).messages, outcome.messages);
}

#[test]
fn inbox_an_interrupt_mid_stream_truncates_the_turn() {
    let mut world = World::new(
        vec![ReplayProvider::script(vec![
            StreamChunk::TextDelta("par".into()),
            StreamChunk::TextDelta("tial".into()),
            StreamChunk::Done {
                finish: FinishReason::Stop,
            },
        ])],
        vec![],
    );
    world.client = send_on_match(
        |item| matches!(item.kind, LiveKind::AssistantDelta { .. }),
        Command::Interrupt {
            command_id: "cmd-esc".into(),
        },
        silent(),
    );
    let err = world
        .run(&ChatRequest::user_text("hi", 1_024))
        .expect_err("the run is interrupted");
    assert!(matches!(err, AgentError::Interrupted));
    let events = &world.events;
    assert_eq!(
        kinds(events),
        [
            "start_run",
            "llm_request",
            "interrupt",
            "llm_response",
            "run_finished"
        ],
        "the command lands before its consequences"
    );
    let response = &events[3];
    assert_eq!(response.status, Status::Error);
    assert_eq!(error_kind(response), Some(error_kinds::INTERRUPTED));
    let EventKind::LlmResponse { message, .. } = &response.kind else {
        panic!("expected llm_response");
    };
    assert!(matches!(
        message.content.first(),
        Some(ContentPart::Text { text }) if text == "par"
    ));
    let finished = events.last().expect("terminal record");
    assert_eq!(finished.status, Status::Error);
    assert!(matches!(finished.kind, EventKind::RunFinished { turns: 0 }));
}

#[test]
fn inbox_an_interrupt_at_the_boundary_lets_dispatch_settle() {
    let mut world = World::new(
        vec![
            tool_call_script("c1", "{\"text\":\"x\"}"),
            text_script("never reached"),
        ],
        vec![],
    );
    // Sends the interrupt when invoked: a client action at a fixed point.
    let queue = world.queue.clone();
    world.tools.push(Tool {
        declaration: declare("echo", Concurrency::Serial, Effect::Mutation),
        invoke: Box::new(move |arguments: &Value| {
            queue.borrow_mut().push_back(Command::Interrupt {
                command_id: "cmd-esc".into(),
            });
            tool_answer(arguments.clone(), None)
        }),
    });
    let err = world
        .run(&ChatRequest::user_text("hi", 1_024))
        .expect_err("interrupted at the boundary");
    assert!(matches!(err, AgentError::Interrupted));
    assert!(world.events.iter().any(
        |event| matches!(&event.kind, EventKind::ToolResult { call_id, .. } if call_id == "c1")
    ));
    let finished = world.events.last().expect("terminal record");
    assert!(matches!(finished.kind, EventKind::RunFinished { turns: 1 }));
    assert_eq!(finished.status, Status::Error);
}

#[test]
fn inbox_an_interrupt_at_the_finish_line_is_moot() {
    let mut world = World::new(vec![text_script("one")], vec![]);
    world.send(Command::Steer {
        command_id: "cmd-queue".into(),
        text: "one more thing".into(),
        mode: SteerMode::Queue,
    });
    // The interrupt lands when turn 1's response is recorded: after the
    // stream, before the finish line.
    world.client = send_on_match(
        |item| {
            matches!(
                &item.kind,
                LiveKind::Recorded { event } if matches!(event.kind, EventKind::LlmResponse { .. })
            )
        },
        Command::Interrupt {
            command_id: "cmd-esc".into(),
        },
        silent(),
    );
    let outcome = world
        .run(&ChatRequest::user_text("hi", 1_024))
        .expect("the run finished before the interrupt applied");
    assert_eq!(outcome.turns, 1);
    assert_eq!(
        outcome.messages.len(),
        2,
        "the queued steer was canceled with the interrupt"
    );
    assert!(
        world.events.iter().all(|event| !matches!(
            event.kind,
            EventKind::Command(Command::Steer { .. } | Command::Interrupt { .. })
        )),
        "moot commands are never recorded"
    );
    let finished = world.events.last().expect("terminal record");
    assert_eq!(finished.status, Status::Success);
}

// --- The approval gate, through the run.

#[test]
fn gate_a_rejected_mutation_never_executes_and_enters_the_trajectory() {
    let log = Rc::new(RefCell::new(Vec::new()));
    let mut world = World::new(
        vec![named_call_script("c1", "step"), text_script("understood")],
        vec![logging("step", Concurrency::Serial, &log)],
    );
    world.client = resolving(|_| {
        vec![Approval::Rejected {
            comment: Some("not today".into()),
        }]
    });
    let outcome = world
        .run(&ChatRequest::user_text("hi", 1_024))
        .expect("run");

    assert!(log.borrow().is_empty(), "a rejected call must not execute");
    let request = world
        .live
        .iter()
        .position(|item| matches!(item.kind, LiveKind::ApprovalRequested { .. }))
        .expect("an approval request was published");
    let call = world
        .live
        .iter()
        .position(|item| {
            matches!(
                &item.kind,
                LiveKind::Recorded { event } if matches!(event.kind, EventKind::ToolCall { .. })
            )
        })
        .expect("a tool call was recorded");
    assert!(request < call, "the request comes before any execution");
    let events = &world.events;
    let (request_id, decisions) = events
        .iter()
        .find_map(|event| match &event.kind {
            EventKind::Command(Command::ResolveApproval {
                request_id,
                decisions,
                ..
            }) => Some((request_id.clone(), decisions.clone())),
            _ => None,
        })
        .expect("the resolve command must be recorded");
    assert!(
        world.live.iter().any(|item| matches!(
            &item.kind,
            LiveKind::ApprovalRequested { request_id: rid, .. } if *rid == request_id
        )),
        "the recorded resolve answers the published request"
    );
    assert_eq!(
        decisions,
        vec![Approval::Rejected {
            comment: Some("not today".into())
        }]
    );
    let message = &outcome.messages[2];
    assert!(message.is_error);
    assert!(
        matches!(&message.content[0], ContentPart::Text { text } if text.contains("rejected") && text.contains("not today")),
        "got: {:?}",
        message.content
    );
    let tool_result = events
        .iter()
        .find(|event| matches!(event.kind, EventKind::ToolResult { .. }))
        .expect("a tool_result event");
    assert_eq!(tool_result.status, Status::Error);
    assert_eq!(
        error_kind(tool_result),
        Some(error_kinds::APPROVAL_REJECTED)
    );
    assert!(events
        .iter()
        .any(|event| matches!(&event.kind, EventKind::ToolCall { call } if call.id == "c1")));
    let state = replay_trace(events);
    assert!(state.dangling_tool_calls.is_empty());
    assert_eq!(state.messages, outcome.messages);
}

#[test]
fn gate_an_interrupt_during_the_approval_wait_ends_the_run() {
    let log = Rc::new(RefCell::new(Vec::new()));
    let mut world = World::new(
        vec![named_call_script("c1", "step")],
        vec![logging("step", Concurrency::Serial, &log)],
    );
    world.client = send_on_match(
        |item| matches!(item.kind, LiveKind::ApprovalRequested { .. }),
        Command::Interrupt {
            command_id: "cmd-esc".into(),
        },
        silent(),
    );
    let err = world
        .run(&ChatRequest::user_text("hi", 1_024))
        .expect_err("interrupted at the wait");
    assert!(matches!(err, AgentError::Interrupted));
    assert!(log.borrow().is_empty(), "the gated call never executed");
    assert_eq!(
        kinds(&world.events),
        [
            "start_run",
            "llm_request",
            "llm_response",
            "interrupt",
            "run_finished"
        ]
    );
    let finished = world.events.last().expect("terminal record");
    assert_eq!(finished.status, Status::Error);
    assert!(matches!(finished.kind, EventKind::RunFinished { turns: 1 }));
}

#[test]
fn gate_a_closed_command_channel_denies_the_gate() {
    let mut world = World::new(
        vec![
            tool_call_script("c1", "{\"text\":\"x\"}"),
            text_script("skipped"),
        ],
        vec![echo()],
    );
    world.client = silent();
    world.closed = true;
    let outcome = world
        .run(&ChatRequest::user_text("hi", 1_024))
        .expect("the run adapts to the denial");
    assert!(outcome.messages[2].is_error);
    assert!(matches!(
        &outcome.messages[2].content[0],
        ContentPart::Text { text } if text.contains("no reason given")
    ));
    let result = world
        .events
        .iter()
        .find(|event| matches!(event.kind, EventKind::ToolResult { .. }))
        .expect("a tool_result event");
    assert_eq!(error_kind(result), Some(error_kinds::APPROVAL_REJECTED));
}

#[test]
fn per_call_resolution_round_trips_through_the_run_and_replay() {
    let mut world = World::new(
        vec![
            tool_call_script("call", "{\"text\":\"done\"}"),
            text_script("finished"),
        ],
        vec![echo()],
    );
    world.client = Box::new(|item: &LiveItem| match &item.kind {
        LiveKind::ApprovalRequested {
            request_id, calls, ..
        } => (0..calls.len())
            .rev()
            .map(|index| Command::ResolveApprovalCall {
                command_id: format!("call-{index}"),
                request_id: request_id.clone(),
                call_index: index,
                decision: Approval::Approved,
            })
            .collect(),
        _ => vec![],
    });
    let outcome = world
        .run(&ChatRequest::user_text("test", 1_024))
        .expect("run");
    let resolutions: Vec<&str> = kinds(&world.events)
        .into_iter()
        .filter(|kind| kind.starts_with("resolve"))
        .collect();
    assert_eq!(resolutions, ["resolve_approval_call"]);
    assert_eq!(outcome.turns, 2);
    let replay = replay_trace(&world.events);
    assert_eq!(replay.messages, outcome.messages);
    assert!(replay.dangling_tool_calls.is_empty());
}

#[test]
fn a_failed_per_call_record_never_permits_execution() {
    let log = Rc::new(RefCell::new(Vec::new()));
    let mut world = World::new(
        vec![named_call_script("call", "step")],
        vec![logging("step", Concurrency::Serial, &log)],
    );
    world.client = Box::new(|item: &LiveItem| match &item.kind {
        LiveKind::ApprovalRequested { request_id, .. } => vec![Command::ResolveApprovalCall {
            command_id: "call-0".into(),
            request_id: request_id.clone(),
            call_index: 0,
            decision: Approval::Approved,
        }],
        _ => vec![],
    });
    // start_run, llm_request and llm_response land; the resolution does not.
    world.fail_append_at = Some(3);
    let err = world
        .run(&ChatRequest::user_text("go", 1_024))
        .expect_err("the append failure is fatal");
    assert!(matches!(err, AgentError::Log(_)));
    assert_eq!(
        kinds(&world.events),
        ["start_run", "llm_request", "llm_response"],
        "no tool call may precede a durable approval"
    );
    assert!(log.borrow().is_empty());
    let roles: Vec<Role> = world.history.iter().map(|message| message.role).collect();
    assert_eq!(
        roles,
        [Role::User, Role::Assistant],
        "the batch appended no message"
    );
}

// --- The trailer.

fn trailer_on_offset(offset_minutes: i32) -> String {
    let mut world = World::new(vec![text_script("done")], vec![]);
    world.offset_minutes = offset_minutes;
    world
        .run(&ChatRequest::user_text("hi", 1_024))
        .expect("run");
    text_of(world.requests[0].messages.last().expect("trailer message"))
}

#[test]
fn the_trailer_clock_renders_at_the_clock_offset() {
    let trailer = trailer_on_offset(480);
    assert!(
        trailer.contains("time: 2026-09-03T08:00:00+08:00 (run elapsed 0s)"),
        "{trailer}"
    );
}

#[test]
fn a_garbage_offset_falls_back_to_utc() {
    let trailer = trailer_on_offset(i32::MAX);
    assert!(
        trailer.contains("time: 2026-09-03T00:00:00Z (run elapsed 0s)"),
        "{trailer}"
    );
}

#[test]
fn trailer_todo_write_folds_into_the_next_trailer() {
    let mut world = World::new(
        vec![
            ReplayProvider::script(vec![
                StreamChunk::ToolCallStart {
                    index: 0,
                    id: "c1".into(),
                    name: "todo_write".into(),
                },
                StreamChunk::ToolArgsDelta {
                    index: 0,
                    fragment: "{\"items\":[{\"content\":\"write tests\",\"status\":\"in_progress\"},{\"content\":\"ship it\",\"status\":\"pending\"}]}".into(),
                },
                StreamChunk::ToolCallEnd { index: 0 },
                StreamChunk::Done {
                    finish: FinishReason::ToolCalls,
                },
            ]),
            text_script("done"),
        ],
        vec![],
    );
    world.tools.push(Tool {
        declaration: declare("todo_write", Concurrency::Serial, Effect::Mutation),
        invoke: Box::new(|_: &Value| {
            let item = |content: &str, status: TodoStatus| TodoItem {
                content: content.into(),
                status,
                active_form: None,
            };
            tool_answer(
                Value::string("recorded"),
                Some(vec![
                    item("write tests", TodoStatus::InProgress),
                    item("ship it", TodoStatus::Pending),
                ]),
            )
        }),
    });
    world
        .run(&ChatRequest::user_text("plan it", 1_024))
        .expect("run");
    assert_eq!(world.requests.len(), 2);
    let trailer = text_of(world.requests[1].messages.last().expect("trailer message"));
    assert!(
        trailer.contains("tools: todo_write: 1"),
        "counter: {trailer}"
    );
    assert!(
        trailer.contains("[>] write tests"),
        "in-progress: {trailer}"
    );
    assert!(trailer.contains("[ ] ship it"), "pending: {trailer}");
}

#[test]
fn trailer_rejected_calls_stay_out_of_the_tool_counters() {
    let log = Rc::new(RefCell::new(Vec::new()));
    let mut world = World::new(
        vec![named_call_script("c1", "step"), text_script("done")],
        vec![logging("step", Concurrency::Serial, &log)],
    );
    world.client = resolving(|n| {
        (0..n)
            .map(|_| Approval::Rejected { comment: None })
            .collect()
    });
    world
        .run(&ChatRequest::user_text("try", 1_024))
        .expect("run");
    let trailer = text_of(world.requests[1].messages.last().expect("trailer message"));
    assert!(
        !trailer.contains("tools:"),
        "a rejected call never executed, so no counter line: {trailer}"
    );
}

#[test]
fn trailer_nested_instructions_land_in_history_event_and_fold() {
    let file = InstructionFile {
        path: "/repo/crates/x/AGENTS.md".into(),
        content: "crate rules\n".into(),
    };
    let mut world = World::new(
        vec![
            tool_call_script("c1", "{\"text\":\"ping\"}"),
            text_script("done"),
        ],
        vec![echo()],
    );
    world.nested = Some(vec![file.clone()]);
    let outcome = world
        .run(&ChatRequest::user_text("go", 1_024))
        .expect("run");
    // The injected message lands behind the tool results.
    let roles: Vec<Role> = outcome
        .messages
        .iter()
        .map(|message| message.role)
        .collect();
    assert_eq!(
        roles,
        vec![
            Role::User,
            Role::Assistant,
            Role::Tool,
            Role::User,
            Role::Assistant
        ]
    );
    assert_eq!(text_of(&outcome.messages[3]), format_injected(&file));
    assert!(world.events.iter().any(|event| matches!(
        &event.kind,
        EventKind::InstructionInjected { path, content }
            if path == &file.path && content == &file.content
    )));
    assert_eq!(replay_trace(&world.events).messages, outcome.messages);
}

// --- Folding.

fn test_fold_policy(recent_turns: usize) -> FoldPolicy {
    FoldPolicy {
        recent_turns,
        min_bytes: 64,
        growth_max_tokens: 100_000,
        ceiling_percent: 80,
    }
}

fn big_result_script(id: &str, input_tokens: Option<u64>) -> Script {
    let mut chunks = vec![
        StreamChunk::ToolCallStart {
            index: 0,
            id: id.into(),
            name: "big".into(),
        },
        StreamChunk::ToolCallEnd { index: 0 },
    ];
    if let Some(input) = input_tokens {
        chunks.push(StreamChunk::Usage(Usage {
            input,
            ..Usage::default()
        }));
    }
    chunks.push(StreamChunk::Done {
        finish: FinishReason::ToolCalls,
    });
    ReplayProvider::script(chunks)
}

fn folds(events: &[Event]) -> Vec<&Vec<FoldedRef>> {
    events
        .iter()
        .filter_map(|event| match &event.kind {
            EventKind::Fold { folded, .. } => Some(folded),
            _ => None,
        })
        .collect()
}

fn fold_scenario(
    scripts: Vec<Script>,
    max_context: u32,
    policy: FoldPolicy,
    tool_size: usize,
) -> World {
    let mut world =
        World::new(scripts, vec![big(tool_size)]).with_context_limit(max_context, policy);
    world
        .run(&ChatRequest::user_text("go", 1_024))
        .expect("run");
    world
}

#[test]
fn fold_fold_directive_records_refs_and_the_render_substitutes() {
    // A growth of a tenth of the context, 1000 tokens, makes a fold due; the
    // reported 1500 is beyond it.
    let mut world = World::new(
        vec![big_result_script("c1", Some(1_500)), text_script("done")],
        vec![big(3_000)],
    )
    .with_context_limit(10_000, test_fold_policy(0));
    let outcome = world
        .run(&ChatRequest::user_text("go", 1_024))
        .expect("run");
    let events = &world.events;
    let (folded_refs, estimate, estimator) = events
        .iter()
        .find_map(|event| match &event.kind {
            EventKind::Fold {
                folded,
                estimate,
                estimator,
            } => Some((folded, estimate, estimator)),
            _ => None,
        })
        .expect("a fold directive at the turn-2 boundary");
    assert_eq!(*estimate, 1_500);
    assert_eq!(*estimator, EstimateSource::Provider);
    assert_eq!(folded_refs.len(), 1);
    let fold_ref = &folded_refs[0];
    assert_eq!(fold_ref.call_id, "c1");
    assert_eq!(fold_ref.original_bytes, 3_000);
    // The directive refers to the result's event in the same log.
    assert!(events.iter().any(|event| event.id == fold_ref.event_id
        && matches!(event.kind, EventKind::ToolResult { .. })));
    // The spill keeps the full text outside the log.
    assert_eq!(
        world
            .artifacts
            .spills()
            .first()
            .map(|(_, content)| content.len()),
        Some(3_000)
    );
    // The render substituted the placeholder; the live history and the
    // replayed fold keep the full text.
    let rendered = &world.requests[1].messages[3];
    assert_eq!(rendered.tool_call_id.as_deref(), Some("c1"));
    let placeholder = text_of(rendered);
    assert!(placeholder.contains("[COMPRESSED"), "{placeholder}");
    assert!(placeholder.len() < 3_000);
    assert_eq!(text_of(&outcome.messages[2]).len(), 3_000);
    assert_eq!(replay_trace(events).messages, outcome.messages);
}

#[test]
fn fold_fold_estimator_falls_back_to_chars4_without_reported_usage() {
    let world = fold_scenario(
        vec![big_result_script("c1", None), text_script("done")],
        4_000,
        test_fold_policy(0),
        3_000,
    );
    let estimator = world.events.iter().find_map(|event| match &event.kind {
        EventKind::Fold { estimator, .. } => Some(*estimator),
        _ => None,
    });
    assert_eq!(estimator, Some(EstimateSource::Chars4));
}

#[test]
fn fold_recent_results_stay_verbatim_within_the_scope() {
    let world = fold_scenario(
        vec![
            big_result_script("c1", Some(1_500)),
            big_result_script("c2", Some(1_500)),
            text_script("done"),
        ],
        10_000,
        test_fold_policy(1),
        3_000,
    );
    let folds = folds(&world.events);
    assert_eq!(folds.len(), 1, "only the turn-3 boundary can fold");
    assert_eq!(folds[0].len(), 1);
    assert_eq!(folds[0][0].call_id, "c1", "turn 2's result stays verbatim");
    let last = &world.requests[2].messages;
    assert!(text_of(&last[3]).contains("[COMPRESSED"), "c1 folded");
    assert_eq!(text_of(&last[5]).len(), 3_000, "c2 verbatim");
}

#[test]
fn fold_a_spill_failure_is_fatal_not_silent() {
    let mut world = World::new(
        vec![big_result_script("c1", Some(1_500))],
        vec![big(3_000)],
    )
    .with_context_limit(10_000, test_fold_policy(0));
    world.fail_spill = true;
    let err = world
        .run(&ChatRequest::user_text("go", 1_024))
        .expect_err("a spill failure aborts the run");
    assert!(matches!(err, AgentError::Log(_)));
}

#[test]
fn fold_ceiling_fires_without_new_growth_after_a_fold() {
    let world = fold_scenario(
        vec![
            big_result_script("c1", Some(8_500)),
            big_result_script("c2", Some(8_600)),
            text_script("done"),
        ],
        10_000,
        test_fold_policy(0),
        3_000,
    );
    let folds = folds(&world.events);
    assert_eq!(folds.len(), 2, "cadence folds t1, the ceiling folds t2");
    assert_eq!(folds[1][0].call_id, "c2");
}

#[test]
fn fold_ceiling_with_nothing_foldable_just_continues() {
    let world = fold_scenario(
        vec![big_result_script("c1", Some(8_500)), text_script("done")],
        10_000,
        test_fold_policy(5),
        3_000,
    );
    assert!(folds(&world.events).is_empty());
}

#[test]
fn fold_the_second_fold_waits_for_delta_of_new_growth() {
    let world = fold_scenario(
        vec![
            big_result_script("c1", Some(1_500)),
            big_result_script("c2", Some(1_800)),
            big_result_script("c3", Some(2_200)),
            text_script("done"),
        ],
        10_000,
        test_fold_policy(0),
        3_000,
    );
    let folds = folds(&world.events);
    assert_eq!(folds.len(), 2, "boundaries 2 and 4 fold, 3 waits");
    assert_eq!(folds[0].len(), 1);
    assert_eq!(folds[0][0].call_id, "c1");
    let second: Vec<&str> = folds[1].iter().map(|r| r.call_id.as_str()).collect();
    assert_eq!(second, vec!["c2", "c3"], "already-folded results skip");
}

#[test]
fn fold_results_under_the_size_floor_are_never_folded() {
    let world = fold_scenario(
        vec![big_result_script("c1", Some(8_500)), text_script("done")],
        10_000,
        FoldPolicy {
            min_bytes: 2_048,
            ..test_fold_policy(0)
        },
        1_000,
    );
    assert!(folds(&world.events).is_empty());
}

// --- Whole conversations.

fn conversation(scripts: Vec<Script>) -> Vec<Message> {
    let answering = |name: &'static str, key: &'static str, prefix: &'static str| Tool {
        declaration: declare(name, Concurrency::Serial, Effect::Mutation),
        invoke: Box::new(move |arguments: &Value| {
            let value = arguments
                .get(key)
                .and_then(|value| value.as_str().map(str::to_owned))
                .unwrap_or_else(|| "?".into());
            tool_answer(Value::string(&format!("{prefix}{value}")), None)
        }),
    };
    let mut world = World::new(
        scripts,
        vec![
            answering("read_file", "path", "contents of "),
            answering("grep", "pattern", "3 matches for "),
        ],
    );
    world
        .run(&ChatRequest::user_text("look up TODOs in main.rs", 4_096))
        .expect("run")
        .messages
}

fn tool_turn(calls: &[(&str, &str, &str)]) -> Script {
    let mut chunks = Vec::new();
    for (index, (id, name, args)) in calls.iter().enumerate() {
        let index = u32::try_from(index).expect("tool call index");
        chunks.push(StreamChunk::ToolCallStart {
            index,
            id: (*id).into(),
            name: (*name).into(),
        });
        chunks.push(StreamChunk::ToolArgsDelta {
            index,
            fragment: (*args).into(),
        });
    }
    for index in 0..calls.len() {
        chunks.push(StreamChunk::ToolCallEnd {
            index: u32::try_from(index).expect("tool call index"),
        });
    }
    chunks.push(StreamChunk::Done {
        finish: FinishReason::ToolCalls,
    });
    ReplayProvider::script(chunks)
}

#[test]
fn snapshot_plain_qa() {
    let messages = conversation(vec![text_script("There is one TODO at line 42.")]);
    assert_eq!(
        messages,
        vec![
            Message::user("look up TODOs in main.rs"),
            Message::text(Role::Assistant, "There is one TODO at line 42."),
        ]
    );
}

#[test]
fn snapshot_single_tool_call() {
    let messages = conversation(vec![
        tool_turn(&[("call_1", "read_file", "{\"path\":\"src/main.rs\"}")]),
        text_script("The file has one TODO at line 42."),
    ]);
    assert_eq!(messages.len(), 4);
    let calls = messages[1].tool_calls();
    assert_eq!(calls.len(), 1);
    assert_eq!(calls[0].id, "call_1");
    assert_eq!(calls[0].name, "read_file");
    assert_eq!(calls[0].arguments, json("{\"path\":\"src/main.rs\"}"));
    assert_eq!(
        messages[2],
        Message::tool_result("call_1", Value::string("contents of src/main.rs"))
    );
    assert_eq!(
        messages[3],
        Message::text(Role::Assistant, "The file has one TODO at line 42.")
    );
}

#[test]
fn snapshot_parallel_tool_calls() {
    let messages = conversation(vec![
        tool_turn(&[
            ("call_1", "read_file", "{\"path\":\"src/main.rs\"}"),
            ("call_2", "grep", "{\"pattern\":\"TODO\"}"),
        ]),
        text_script("main.rs line 42 has a TODO; 3 matches in total."),
    ]);
    assert_eq!(messages.len(), 5);
    assert_eq!(messages[1].tool_calls().len(), 2);
    assert_eq!(
        messages[2],
        Message::tool_result("call_1", Value::string("contents of src/main.rs"))
    );
    assert_eq!(
        messages[3],
        Message::tool_result("call_2", Value::string("3 matches for TODO"))
    );
    assert_eq!(
        messages[4],
        Message::text(
            Role::Assistant,
            "main.rs line 42 has a TODO; 3 matches in total."
        )
    );
}

#[test]
fn a_failing_tool_feeds_back_its_error() {
    let mut world = World::new(
        vec![named_call_script("c1", "fail"), text_script("noted")],
        vec![Tool {
            declaration: declare("fail", Concurrency::Serial, Effect::Perception),
            invoke: Box::new(|_: &Value| {
                tool_failure(&ToolError {
                    tool: "fail".into(),
                    message: "boom".into(),
                })
            }),
        }],
    );
    let outcome = world
        .run(&ChatRequest::user_text("go", 1_024))
        .expect("run");
    assert!(outcome.messages[2].is_error);
    assert!(text_of(&outcome.messages[2]).contains("boom"));
    assert!(
        !world
            .live
            .iter()
            .any(|item| matches!(item.kind, LiveKind::ApprovalRequested { .. })),
        "a perception call asks for no approval"
    );
}
