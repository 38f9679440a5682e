//! Trajectory events: the per-trace append-only log.
use crate::contract::attrs;
use crate::contract::approval::{Approval, ApprovalView};
use crate::contract::context::{PrefixRecord, PrefixRecordView};
use crate::contract::message::{Message, MessageView, ToolCall, ToolCallView};
use crate::contract::request::{ChatRequest, ChatRequestView};
use crate::contract::stream::{FinishReason, FinishReasonView, Usage, UsageView};
use crate::copies::{clone_option, clone_texts, clone_vec};
use crate::json;
use crate::json::{Value, ValueView};
use crate::pairs;
use crate::text;
use vstd::prelude::*;

verus! {

/// When a steering message takes effect.
#[derive(Debug, Clone, Copy, PartialEq, Eq, Structural)]
pub enum SteerMode {
    /// At the next turn boundary.
    Inject,
    /// When the run would otherwise finish.
    Queue,
}

/// Where a context estimate came from.
#[derive(Debug, Clone, Copy, PartialEq, Eq, Structural)]
pub enum EstimateSource {
    /// The provider's own token count.
    Provider,
    /// Four characters to a token.
    Chars4,
}

/// Outcome classification of an event.
#[derive(Debug, Clone, Copy, PartialEq, Eq, Structural)]
pub enum Status {
    Success,
    Error,
}

/// How an assembled assistant turn ended.
#[derive(Debug, Clone, Copy, PartialEq, Eq, Structural)]
pub enum TurnOutcome {
    /// Text and/or tool calls present.
    Content,
    /// The stream ended with open tool calls or without a terminal record.
    Truncated,
    /// No text, no reasoning, no tool calls.
    Empty,
}

/// Machine-readable failure detail: `kind` is the routing signal, `message`
/// is for humans.
#[derive(Debug, PartialEq, Eq)]
pub struct EventError {
    pub kind: String,
    pub message: String,
}

/// What a [`EventError`] holds.
#[verifier::ext_equal]
pub struct EventErrorView {
    pub kind: Seq<char>,
    pub message: Seq<char>,
}

impl View for EventError {
    type V = EventErrorView;

    open spec fn view(&self) -> EventErrorView {
        EventErrorView {
            kind: self.kind@,
            message: self.message@,
        }
    }
}

impl DeepView for EventError {
    type V = EventErrorView;

    open spec fn deep_view(&self) -> EventErrorView {
        self@
    }
}

impl Clone for EventError {
    fn clone(&self) -> (r: Self)
        ensures
            r@ == self@,
    {
        EventError {
            kind: self.kind.clone(),
            message: self.message.clone(),
        }
    }
}

/// One tool result replaced by a placeholder in the requests to come.
#[derive(Debug, PartialEq, Eq)]
pub struct FoldedRef {
    pub event_id: String,
    pub call_id: String,
    /// Where the full text was written.
    pub spill: String,
    pub original_bytes: u64,
}

/// What a [`FoldedRef`] holds.
#[verifier::ext_equal]
pub struct FoldedRefView {
    pub event_id: Seq<char>,
    pub call_id: Seq<char>,
    pub spill: Seq<char>,
    pub original_bytes: u64,
}

impl View for FoldedRef {
    type V = FoldedRefView;

    open spec fn view(&self) -> FoldedRefView {
        FoldedRefView {
            event_id: self.event_id@,
            call_id: self.call_id@,
            spill: self.spill@,
            original_bytes: self.original_bytes,
        }
    }
}

impl DeepView for FoldedRef {
    type V = FoldedRefView;

    open spec fn deep_view(&self) -> FoldedRefView {
        self@
    }
}

impl Clone for FoldedRef {
    fn clone(&self) -> (r: Self)
        ensures
            r@ == self@,
    {
        FoldedRef {
            event_id: self.event_id.clone(),
            call_id: self.call_id.clone(),
            spill: self.spill.clone(),
            original_bytes: self.original_bytes,
        }
    }
}

/// One (case, metric) eval score recorded against a run. The score is held as
/// the bits of an IEEE double.
#[derive(Debug, PartialEq, Eq)]
pub struct ScoreEvent {
    pub case_id: String,
    pub metric: String,
    pub score: u64,
    pub passed: Option<bool>,
}

/// What a [`ScoreEvent`] holds.
#[verifier::ext_equal]
pub struct ScoreEventView {
    pub case_id: Seq<char>,
    pub metric: Seq<char>,
    pub score: u64,
    pub passed: Option<bool>,
}

impl View for ScoreEvent {
    type V = ScoreEventView;

    open spec fn view(&self) -> ScoreEventView {
        ScoreEventView {
            case_id: self.case_id@,
            metric: self.metric@,
            score: self.score,
            passed: self.passed,
        }
    }
}

impl DeepView for ScoreEvent {
    type V = ScoreEventView;

    open spec fn deep_view(&self) -> ScoreEventView {
        self@
    }
}

impl Clone for ScoreEvent {
    fn clone(&self) -> (r: Self)
        ensures
            r@ == self@,
    {
        ScoreEvent {
            case_id: self.case_id.clone(),
            metric: self.metric.clone(),
            score: self.score,
            passed: self.passed,
        }
    }
}

/// A client operation: the only event kind that a client may produce.
#[derive(Debug, PartialEq, Eq)]
pub enum Command {
    /// Opens a run: the base request the loop started from, with the frozen
    /// prefix where there is one.
    StartRun {
        base: Box<ChatRequest>,
        prefix: Option<PrefixRecord>,
    },
    /// Decides a gated batch, one decision per call in the batch's order.
    ResolveApproval {
        command_id: String,
        request_id: String,
        decisions: Vec<Approval>,
    },
    /// Decides one call of a gated batch.
    ResolveApprovalCall {
        command_id: String,
        request_id: String,
        call_index: usize,
        decision: Approval,
    },
    /// A user message for the running conversation.
    Steer {
        command_id: String,
        text: String,
        mode: SteerMode,
    },
    /// Ends the run.
    Interrupt {
        command_id: String,
    },
}

/// What a [`Command`] holds.
#[verifier::ext_equal]
pub enum CommandView {
    StartRun { base: ChatRequestView, prefix: Option<PrefixRecordView> },
    ResolveApproval { command_id: Seq<char>, request_id: Seq<char>, decisions: Seq<ApprovalView> },
    ResolveApprovalCall { command_id: Seq<char>, request_id: Seq<char>, call_index: usize, decision: ApprovalView },
    Steer { command_id: Seq<char>, text: Seq<char>, mode: SteerMode },
    Interrupt { command_id: Seq<char> },
}

impl View for Command {
    type V = CommandView;

    open spec fn view(&self) -> CommandView {
        match *self {
            Command::StartRun { base, prefix } => CommandView::StartRun {
                base: base@,
                prefix: prefix.deep_view(),
            },
            Command::ResolveApproval { command_id, request_id, decisions } => CommandView::ResolveApproval {
                command_id: command_id@,
                request_id: request_id@,
                decisions: decisions.deep_view(),
            },
            Command::ResolveApprovalCall { command_id, request_id, call_index, decision } => CommandView::ResolveApprovalCall {
                command_id: command_id@,
                request_id: request_id@,
                call_index,
                decision: decision@,
            },
            Command::Steer { command_id, text, mode } => CommandView::Steer {
                command_id: command_id@,
                text: text@,
                mode,
            },
            Command::Interrupt { command_id } => CommandView::Interrupt {
                command_id: command_id@,
            },
        }
    }
}

impl DeepView for Command {
    type V = CommandView;

    open spec fn deep_view(&self) -> CommandView {
        self@
    }
}

impl Clone for Command {
    fn clone(&self) -> (r: Self)
        ensures
            r@ == self@,
    {
        match self {
            Command::StartRun { base, prefix } => Command::StartRun {
                base: Box::new((**base).clone()),
                prefix: clone_option(prefix),
            },
            Command::ResolveApproval { command_id, request_id, decisions } => Command::ResolveApproval {
                command_id: command_id.clone(),
                request_id: request_id.clone(),
                decisions: clone_vec(decisions),
            },
            Command::ResolveApprovalCall { command_id, request_id, call_index, decision } => Command::ResolveApprovalCall {
                command_id: command_id.clone(),
                request_id: request_id.clone(),
                call_index: *call_index,
                decision: decision.clone(),
            },
            Command::Steer { command_id, text, mode } => Command::Steer {
                command_id: command_id.clone(),
                text: text.clone(),
                mode: *mode,
            },
            Command::Interrupt { command_id } => Command::Interrupt {
                command_id: command_id.clone(),
            },
        }
    }
}

/// The payload of an event.
#[derive(Debug, PartialEq, Eq)]
pub enum EventKind {
    /// Opens the span of one provider call.
    LlmRequest {
        trailer: Option<String>,
    },
    /// The assembled assistant turn. An error status with a partial `message`
    /// records a stream that died mid-flight.
    LlmResponse {
        message: Message,
        usage: Option<Usage>,
        finish: FinishReason,
        outcome: TurnOutcome,
        warnings: Vec<String>,
    },
    /// A tool invocation starts.
    ToolCall {
        call: ToolCall,
    },
    /// The tool's answer.
    ToolResult {
        call_id: String,
        result: Value,
    },
    /// One score for this run.
    EvalScore(ScoreEvent),
    /// A client command, recorded when it takes effect.
    Command(Command),
    /// Clean terminal record of the run.
    RunFinished {
        turns: u32,
    },
    /// A nested instruction file entered the conversation.
    InstructionInjected {
        path: String,
        content: String,
    },
    /// Tool results folded out of the requests to come.
    Fold {
        folded: Vec<FoldedRef>,
        estimate: u64,
        estimator: EstimateSource,
    },
}

/// What a [`EventKind`] holds.
#[verifier::ext_equal]
pub enum EventKindView {
    LlmRequest { trailer: Option<Seq<char>> },
    LlmResponse { message: MessageView, usage: Option<UsageView>, finish: FinishReasonView, outcome: TurnOutcome, warnings: Seq<Seq<char>> },
    ToolCall { call: ToolCallView },
    ToolResult { call_id: Seq<char>, result: ValueView },
    EvalScore(ScoreEventView),
    Command(CommandView),
    RunFinished { turns: u32 },
    InstructionInjected { path: Seq<char>, content: Seq<char> },
    Fold { folded: Seq<FoldedRefView>, estimate: u64, estimator: EstimateSource },
}

impl View for EventKind {
    type V = EventKindView;

    open spec fn view(&self) -> EventKindView {
        match *self {
            EventKind::LlmRequest { trailer } => EventKindView::LlmRequest {
                trailer: trailer.deep_view(),
            },
            EventKind::LlmResponse { message, usage, finish, outcome, warnings } => EventKindView::LlmResponse {
                message: message@,
                usage: usage.deep_view(),
                finish: finish@,
                outcome,
                warnings: warnings.deep_view(),
            },
            EventKind::ToolCall { call } => EventKindView::ToolCall {
                call: call@,
            },
            EventKind::ToolResult { call_id, result } => EventKindView::ToolResult {
                call_id: call_id@,
                result: result@,
            },
            EventKind::EvalScore(inner) => EventKindView::EvalScore(inner@),
            EventKind::Command(inner) => EventKindView::Command(inner@),
            EventKind::RunFinished { turns } => EventKindView::RunFinished {
                turns,
            },
            EventKind::InstructionInjected { path, content } => EventKindView::InstructionInjected {
                path: path@,
                content: content@,
            },
            EventKind::Fold { folded, estimate, estimator } => EventKindView::Fold {
                folded: folded.deep_view(),
                estimate,
                estimator,
            },
        }
    }
}

impl DeepView for EventKind {
    type V = EventKindView;

    open spec fn deep_view(&self) -> EventKindView {
        self@
    }
}

impl Clone for EventKind {
    fn clone(&self) -> (r: Self)
        ensures
            r@ == self@,
    {
        match self {
            EventKind::LlmRequest { trailer } => EventKind::LlmRequest {
                trailer: trailer.clone(),
            },
            EventKind::LlmResponse { message, usage, finish, outcome, warnings } => EventKind::LlmResponse {
                message: message.clone(),
                usage: clone_option(usage),
                finish: finish.clone(),
                outcome: *outcome,
                warnings: clone_texts(warnings),
            },
            EventKind::ToolCall { call } => EventKind::ToolCall {
                call: call.clone(),
            },
            EventKind::ToolResult { call_id, result } => EventKind::ToolResult {
                call_id: call_id.clone(),
                result: result.clone(),
            },
            EventKind::EvalScore(inner) => EventKind::EvalScore(inner.clone()),
            EventKind::Command(inner) => EventKind::Command(inner.clone()),
            EventKind::RunFinished { turns } => EventKind::RunFinished {
                turns: *turns,
            },
            EventKind::InstructionInjected { path, content } => EventKind::InstructionInjected {
                path: path.clone(),
                content: content.clone(),
            },
            EventKind::Fold { folded, estimate, estimator } => EventKind::Fold {
                folded: clone_vec(folded),
                estimate: *estimate,
                estimator: *estimator,
            },
        }
    }
}

/// One event of a trajectory log.
#[derive(Debug, PartialEq, Eq)]
pub struct Event {
    /// Position in the run's total order, shared with the live stream.
    pub seq: u64,
    /// Unique within the trace.
    pub id: String,
    pub trace_id: String,
    /// The span this event belongs to.
    pub span_id: String,
    pub parent_span_id: Option<String>,
    /// Milliseconds since the Unix epoch, from the injected clock.
    pub time_unix_ms: u64,
    pub kind: EventKind,
    pub status: Status,
    /// Present exactly when `status` is [`Status::Error`].
    pub error: Option<EventError>,
    /// Free attribute bag.
    pub attributes: Attributes,
}

/// What a [`Event`] holds.
#[verifier::ext_equal]
pub struct EventView {
    pub seq: u64,
    pub id: Seq<char>,
    pub trace_id: Seq<char>,
    pub span_id: Seq<char>,
    pub parent_span_id: Option<Seq<char>>,
    pub time_unix_ms: u64,
    pub kind: EventKindView,
    pub status: Status,
    pub error: Option<EventErrorView>,
    pub attributes: Seq<(Seq<char>, ValueView)>,
}

impl View for Event {
    type V = EventView;

    open spec fn view(&self) -> EventView {
        EventView {
            seq: self.seq,
            id: self.id@,
            trace_id: self.trace_id@,
            span_id: self.span_id@,
            parent_span_id: self.parent_span_id.deep_view(),
            time_unix_ms: self.time_unix_ms,
            kind: self.kind@,
            status: self.status,
            error: self.error.deep_view(),
            attributes: self.attributes@,
        }
    }
}

impl DeepView for Event {
    type V = EventView;

    open spec fn deep_view(&self) -> EventView {
        self@
    }
}

impl Clone for Event {
    fn clone(&self) -> (r: Self)
        ensures
            r@ == self@,
    {
        Event {
            seq: self.seq,
            id: self.id.clone(),
            trace_id: self.trace_id.clone(),
            span_id: self.span_id.clone(),
            parent_span_id: self.parent_span_id.clone(),
            time_unix_ms: self.time_unix_ms,
            kind: self.kind.clone(),
            status: self.status,
            error: clone_option(&self.error),
            attributes: self.attributes.clone(),
        }
    }
}

/// An event's attribute bag.
#[derive(Debug, PartialEq, Eq)]
pub struct Attributes {
    pub entries: Vec<(String, Value)>,
}

impl View for Attributes {
    type V = Seq<(Seq<char>, ValueView)>;

    open spec fn view(&self) -> Seq<(Seq<char>, ValueView)> {
        self.entries.deep_view()
    }
}

impl Clone for Attributes {
    fn clone(&self) -> (r: Self)
        ensures
            r@ == self@,
    {
        let mut entries: Vec<(String, Value)> = Vec::new();
        let mut i: usize = 0;
        while i < self.entries.len()
            invariant
                i <= self.entries.len(),
                entries.len() == i,
                entries.deep_view() == self@.take(i as int),
            decreases self.entries.len() - i,
        {
            entries.push((self.entries[i].0.clone(), self.entries[i].1.clone()));
            i += 1;
            assert(entries.deep_view() =~= self@.take(i as int));
        }
        assert(self@.take(i as int) =~= self@);
        Attributes { entries }
    }
}

/// The string under `key` in an attribute bag.
pub open spec fn string_under(attributes: Seq<(Seq<char>, ValueView)>, key: Seq<char>) -> Option<
    Seq<char>,
> {
    match pairs::lookup(attributes, key) {
        Some(ValueView::String(text)) => Some(text),
        _ => None,
    }
}

/// The `u64` under `key` in an attribute bag.
pub open spec fn unsigned_under(attributes: Seq<(Seq<char>, ValueView)>, key: Seq<char>) -> Option<
    u64,
> {
    match pairs::lookup(attributes, key) {
        Some(value) => json::as_unsigned(value),
        None => None,
    }
}

impl Attributes {
    /// The value under `key`.
    pub fn get(&self, key: &str) -> (r: Option<&Value>)
        ensures
            match r {
                Some(value) => pairs::lookup(self@, key@) == Some(value@),
                None => pairs::lookup(self@, key@) is None,
            },
    {
        let ghost all = self.entries.deep_view();
        let mut i: usize = 0;
        while i < self.entries.len()
            invariant
                i <= self.entries.len(),
                all == self.entries.deep_view(),
                forall|j: int| 0 <= j < i ==> (#[trigger] all[j]).0 != key@,
            decreases self.entries.len() - i,
        {
            assert(all[i as int] == self.entries[i as int].deep_view());
            if text::same(self.entries[i].0.as_str(), key) {
                proof {
                    pairs::first_match(all, key@, i as int);
                }
                return Some(&self.entries[i].1);
            }
            i += 1;
        }
        proof {
            pairs::first_match(all, key@, all.len() as int);
        }
        None
    }

    /// Writes `value` under `key`.
    pub fn insert(&mut self, key: &str, value: Value)
        ensures
            final(self)@ == pairs::put(old(self)@, key@, value@),
    {
        let ghost before = self.entries.deep_view();
        let mut i: usize = 0;
        while i < self.entries.len() && !text::same(self.entries[i].0.as_str(), key)
            && !text::comes_before(key, self.entries[i].0.as_str())
            invariant
                i <= self.entries.len(),
                before == self.entries.deep_view(),
                forall|j: int|
                    0 <= j < i ==> (#[trigger] before[j]).0 != key@ && !text::precedes(
                        key@,
                        before[j].0,
                    ),
            decreases self.entries.len() - i,
        {
            assert(before[i as int] == self.entries[i as int].deep_view());
            i += 1;
        }
        proof {
            if i < self.entries.len() {
                assert(before[i as int] == self.entries[i as int].deep_view());
            }
            pairs::write_position(before, key@, i as int, value@);
        }
        if i < self.entries.len() && text::same(self.entries[i].0.as_str(), key) {
            self.entries.set(i, (key.to_owned(), value));
            assert(self.entries.deep_view() =~= before.update(i as int, (key@, value@)));
        } else {
            self.entries.insert(i, (key.to_owned(), value));
            assert(self.entries.deep_view() =~= before.insert(i as int, (key@, value@)));
        }
    }

    pub fn is_empty(&self) -> (r: bool)
        ensures
            r == (self@.len() == 0),
    {
        self.entries.len() == 0
    }

    /// The string under `key`.
    pub fn string(&self, key: &str) -> (r: Option<String>)
        ensures
            r.deep_view() == string_under(self@, key@),
    {
        match self.get(key) {
            Some(value) => match value.as_str() {
                Some(text) => Some(text.to_owned()),
                None => None,
            },
            None => None,
        }
    }

    /// The `u64` under `key`.
    pub fn unsigned(&self, key: &str) -> (r: Option<u64>)
        ensures
            r == unsigned_under(self@, key@),
    {
        match self.get(key) {
            Some(value) => value.as_u64(),
            None => None,
        }
    }
}

/// An event as it is minted: without failure and without attributes.
pub open spec fn plain_event(
    seq: u64,
    id: Seq<char>,
    trace_id: Seq<char>,
    span_id: Seq<char>,
    parent_span_id: Option<Seq<char>>,
    time_unix_ms: u64,
    kind: EventKindView,
) -> EventView {
    EventView {
        seq,
        id,
        trace_id,
        span_id,
        parent_span_id,
        time_unix_ms,
        kind,
        status: Status::Success,
        error: None,
        attributes: Seq::empty(),
    }
}

/// `event`, failed with the given detail.
pub open spec fn failed(event: EventView, error: EventErrorView) -> EventView {
    EventView { status: Status::Error, error: Some(error), ..event }
}

/// `event` with one more attribute.
pub open spec fn attributed(event: EventView, key: Seq<char>, value: ValueView) -> EventView {
    EventView { attributes: pairs::put(event.attributes, key, value), ..event }
}

/// The failure detail is present exactly when the status says so.
pub open spec fn status_agrees(event: EventView) -> bool {
    (event.status == Status::Error) == (event.error is Some)
}

/// The 1-based turn that an event is marked with.
pub open spec fn turn_of(event: EventView) -> Option<u32> {
    match unsigned_under(event.attributes, attrs::TURN@) {
        Some(turn) => if turn <= u32::MAX {
            Some(turn as u32)
        } else {
            None
        },
        None => None,
    }
}

impl Event {
    pub fn new(
        seq: u64,
        id: String,
        trace_id: String,
        span_id: String,
        parent_span_id: Option<String>,
        time_unix_ms: u64,
        kind: EventKind,
    ) -> (r: Event)
        ensures
            r@ == plain_event(
                seq,
                id@,
                trace_id@,
                span_id@,
                parent_span_id.deep_view(),
                time_unix_ms,
                kind@,
            ),
    {
        let entries: Vec<(String, Value)> = Vec::new();
        assert(entries.deep_view() =~= Seq::empty());
        Event {
            seq,
            id,
            trace_id,
            span_id,
            parent_span_id,
            time_unix_ms,
            kind,
            status: Status::Success,
            error: None,
            attributes: Attributes { entries },
        }
    }

    /// Marks the event failed and attaches the structured detail.
    pub fn errored(self, error: EventError) -> (r: Event)
        ensures
            r@ == failed(self@, error@),
            status_agrees(r@),
    {
        Event {
            seq: self.seq,
            id: self.id,
            trace_id: self.trace_id,
            span_id: self.span_id,
            parent_span_id: self.parent_span_id,
            time_unix_ms: self.time_unix_ms,
            kind: self.kind,
            status: Status::Error,
            error: Some(error),
            attributes: self.attributes,
        }
    }

    pub fn with_attribute(self, key: &str, value: Value) -> (r: Event)
        ensures
            r@ == attributed(self@, key@, value@),
    {
        let mut attributes = self.attributes;
        attributes.insert(key, value);
        Event {
            seq: self.seq,
            id: self.id,
            trace_id: self.trace_id,
            span_id: self.span_id,
            parent_span_id: self.parent_span_id,
            time_unix_ms: self.time_unix_ms,
            kind: self.kind,
            status: self.status,
            error: self.error,
            attributes,
        }
    }

    /// The 1-based turn that the event is marked with.
    pub fn turn(&self) -> (r: Option<u32>)
        ensures
            r == turn_of(self@),
    {
        match self.attributes.unsigned(attrs::TURN) {
            Some(turn) => if turn <= u32::MAX as u64 {
                Some(turn as u32)
            } else {
                None
            },
            None => None,
        }
    }
}

/// The id by which a retried command is recognised.
pub open spec fn id_of(command: CommandView) -> Option<Seq<char>> {
    match command {
        CommandView::StartRun { .. } => None,
        CommandView::ResolveApproval { command_id, .. } => Some(command_id),
        CommandView::ResolveApprovalCall { command_id, .. } => Some(command_id),
        CommandView::Steer { command_id, .. } => Some(command_id),
        CommandView::Interrupt { command_id } => Some(command_id),
    }
}

impl Command {
    /// The id by which a retried command is recognised.
    pub fn command_id(&self) -> (r: Option<&str>)
        ensures
            match r {
                Some(id) => id_of(self@) == Some(id@),
                None => id_of(self@) is None,
            },
    {
        match self {
            Command::StartRun { .. } => None,
            Command::ResolveApproval { command_id, .. } => Some(command_id.as_str()),
            Command::ResolveApprovalCall { command_id, .. } => Some(command_id.as_str()),
            Command::Steer { command_id, .. } => Some(command_id.as_str()),
            Command::Interrupt { command_id } => Some(command_id.as_str()),
        }
    }
}

/// The injected wall clock: every event timestamp comes from here.
pub trait Clock: Send + Sync {
    fn now_unix_ms(&self) -> u64;

    /// Minutes east of UTC, for the times shown to the model.
    fn utc_offset_minutes(&self) -> i32 {
        0
    }
}

/// Trace-unique sequence numbers: ascending within a run. Whoever drives a run
/// draws from here what the run is supplied with.
pub trait IdSequence: Send + Sync {
    fn next(&self) -> u64;
}

} // verus!
