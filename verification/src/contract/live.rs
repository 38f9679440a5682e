//! The live stream: the ephemeral half of the client protocol.
use crate::contract::approval::{Approval, ApprovalView};
use crate::contract::event::{Command, CommandView, Event, EventError, EventErrorView, EventView};
use crate::contract::message::{ToolCall, ToolCallView};
use crate::contract::state::{RunState, RunStateView};
use crate::contract::stream::{StreamChunk, StreamChunkView, Usage, UsageView};
use crate::copies::{clone_option, clone_vec};
use crate::json::{Value, ValueView};
use vstd::prelude::*;

verus! {

/// A finished call whose durable result still waits for its place in order.
#[derive(Debug, PartialEq, Eq)]
pub struct ToolCompletion {
    pub span_id: String,
    pub turn: u32,
    pub message_call_index: usize,
    pub call_id: String,
    pub name: String,
    pub result: Value,
    pub error: Option<EventError>,
}

/// What a [`ToolCompletion`] holds.
#[verifier::ext_equal]
pub struct ToolCompletionView {
    pub span_id: Seq<char>,
    pub turn: u32,
    pub message_call_index: usize,
    pub call_id: Seq<char>,
    pub name: Seq<char>,
    pub result: ValueView,
    pub error: Option<EventErrorView>,
}

impl View for ToolCompletion {
    type V = ToolCompletionView;

    open spec fn view(&self) -> ToolCompletionView {
        ToolCompletionView {
            span_id: self.span_id@,
            turn: self.turn,
            message_call_index: self.message_call_index,
            call_id: self.call_id@,
            name: self.name@,
            result: self.result@,
            error: self.error.deep_view(),
        }
    }
}

impl DeepView for ToolCompletion {
    type V = ToolCompletionView;

    open spec fn deep_view(&self) -> ToolCompletionView {
        self@
    }
}

impl Clone for ToolCompletion {
    fn clone(&self) -> (r: Self)
        ensures
            r@ == self@,
    {
        ToolCompletion {
            span_id: self.span_id.clone(),
            turn: self.turn,
            message_call_index: self.message_call_index,
            call_id: self.call_id.clone(),
            name: self.name.clone(),
            result: self.result.clone(),
            error: clone_option(&self.error),
        }
    }
}

/// The live payload vocabulary.
#[derive(Debug, PartialEq, Eq)]
pub enum LiveKind {
    /// A durable event, republished right after its append.
    Recorded {
        event: Box<Event>,
    },
    /// One increment of the open assistant turn. Never logged.
    AssistantDelta {
        turn: u32,
        chunk: StreamChunk,
    },
    /// A gated tool batch awaits resolution.
    ApprovalRequested {
        request_id: String,
        turn: u32,
        calls: Vec<ToolCall>,
    },
    /// A call finished ahead of an earlier sibling.
    ToolCompleted {
        completion: ToolCompletion,
    },
}

/// What a [`LiveKind`] holds.
#[verifier::ext_equal]
pub enum LiveKindView {
    Recorded { event: EventView },
    AssistantDelta { turn: u32, chunk: StreamChunkView },
    ApprovalRequested { request_id: Seq<char>, turn: u32, calls: Seq<ToolCallView> },
    ToolCompleted { completion: ToolCompletionView },
}

impl View for LiveKind {
    type V = LiveKindView;

    open spec fn view(&self) -> LiveKindView {
        match *self {
            LiveKind::Recorded { event } => LiveKindView::Recorded {
                event: event@,
            },
            LiveKind::AssistantDelta { turn, chunk } => LiveKindView::AssistantDelta {
                turn,
                chunk: chunk@,
            },
            LiveKind::ApprovalRequested { request_id, turn, calls } => LiveKindView::ApprovalRequested {
                request_id: request_id@,
                turn,
                calls: calls.deep_view(),
            },
            LiveKind::ToolCompleted { completion } => LiveKindView::ToolCompleted {
                completion: completion@,
            },
        }
    }
}

impl DeepView for LiveKind {
    type V = LiveKindView;

    open spec fn deep_view(&self) -> LiveKindView {
        self@
    }
}

impl Clone for LiveKind {
    fn clone(&self) -> (r: Self)
        ensures
            r@ == self@,
    {
        match self {
            LiveKind::Recorded { event } => LiveKind::Recorded {
                event: Box::new((**event).clone()),
            },
            LiveKind::AssistantDelta { turn, chunk } => LiveKind::AssistantDelta {
                turn: *turn,
                chunk: chunk.clone(),
            },
            LiveKind::ApprovalRequested { request_id, turn, calls } => LiveKind::ApprovalRequested {
                request_id: request_id.clone(),
                turn: *turn,
                calls: clone_vec(calls),
            },
            LiveKind::ToolCompleted { completion } => LiveKind::ToolCompleted {
                completion: completion.clone(),
            },
        }
    }
}

/// One item on a run's live stream.
#[derive(Debug, PartialEq, Eq)]
pub struct LiveItem {
    /// Drawn from the same sequence as [`Event::seq`].
    pub seq: u64,
    pub trace_id: String,
    pub kind: LiveKind,
}

/// What a [`LiveItem`] holds.
#[verifier::ext_equal]
pub struct LiveItemView {
    pub seq: u64,
    pub trace_id: Seq<char>,
    pub kind: LiveKindView,
}

impl View for LiveItem {
    type V = LiveItemView;

    open spec fn view(&self) -> LiveItemView {
        LiveItemView {
            seq: self.seq,
            trace_id: self.trace_id@,
            kind: self.kind@,
        }
    }
}

impl DeepView for LiveItem {
    type V = LiveItemView;

    open spec fn deep_view(&self) -> LiveItemView {
        self@
    }
}

impl Clone for LiveItem {
    fn clone(&self) -> (r: Self)
        ensures
            r@ == self@,
    {
        LiveItem {
            seq: self.seq,
            trace_id: self.trace_id.clone(),
            kind: self.kind.clone(),
        }
    }
}

/// What a subscription yields. [`LiveUpdate::Lagged`] means that the stream has
/// a gap: drop everything and attach again.
#[derive(Debug, PartialEq, Eq)]
pub enum LiveUpdate {
    Item {
        item: Box<LiveItem>,
    },
    Lagged,
}

/// What a [`LiveUpdate`] holds.
#[verifier::ext_equal]
pub enum LiveUpdateView {
    Item { item: LiveItemView },
    Lagged,
}

impl View for LiveUpdate {
    type V = LiveUpdateView;

    open spec fn view(&self) -> LiveUpdateView {
        match *self {
            LiveUpdate::Item { item } => LiveUpdateView::Item {
                item: item@,
            },
            LiveUpdate::Lagged => LiveUpdateView::Lagged,
        }
    }
}

impl DeepView for LiveUpdate {
    type V = LiveUpdateView;

    open spec fn deep_view(&self) -> LiveUpdateView {
        self@
    }
}

impl Clone for LiveUpdate {
    fn clone(&self) -> (r: Self)
        ensures
            r@ == self@,
    {
        match self {
            LiveUpdate::Item { item } => LiveUpdate::Item {
                item: Box::new((**item).clone()),
            },
            LiveUpdate::Lagged => LiveUpdate::Lagged,
        }
    }
}

/// What a bounded wait for a command came to.
#[derive(Debug, PartialEq, Eq)]
pub enum TimedRecv {
    Command(Command),
    /// Every client is gone.
    Closed,
    TimedOut,
}

/// What a [`TimedRecv`] holds.
#[verifier::ext_equal]
pub enum TimedRecvView {
    Command(CommandView),
    Closed,
    TimedOut,
}

impl View for TimedRecv {
    type V = TimedRecvView;

    open spec fn view(&self) -> TimedRecvView {
        match *self {
            TimedRecv::Command(inner) => TimedRecvView::Command(inner@),
            TimedRecv::Closed => TimedRecvView::Closed,
            TimedRecv::TimedOut => TimedRecvView::TimedOut,
        }
    }
}

impl DeepView for TimedRecv {
    type V = TimedRecvView;

    open spec fn deep_view(&self) -> TimedRecvView {
        self@
    }
}

impl Clone for TimedRecv {
    fn clone(&self) -> (r: Self)
        ensures
            r@ == self@,
    {
        match self {
            TimedRecv::Command(inner) => TimedRecv::Command(inner.clone()),
            TimedRecv::Closed => TimedRecv::Closed,
            TimedRecv::TimedOut => TimedRecv::TimedOut,
        }
    }
}

/// One tool call inside an in-flight turn.
#[derive(Debug, PartialEq, Eq)]
pub enum CallSnapshot {
    /// Aggregation finished: arguments parsed.
    Sealed {
        index: u32,
        call: Box<ToolCall>,
    },
    /// Still streaming: `arguments` is the raw fragment so far.
    Open {
        index: u32,
        id: String,
        name: String,
        arguments: String,
    },
}

/// What a [`CallSnapshot`] holds.
#[verifier::ext_equal]
pub enum CallSnapshotView {
    Sealed { index: u32, call: ToolCallView },
    Open { index: u32, id: Seq<char>, name: Seq<char>, arguments: Seq<char> },
}

impl View for CallSnapshot {
    type V = CallSnapshotView;

    open spec fn view(&self) -> CallSnapshotView {
        match *self {
            CallSnapshot::Sealed { index, call } => CallSnapshotView::Sealed {
                index,
                call: call@,
            },
            CallSnapshot::Open { index, id, name, arguments } => CallSnapshotView::Open {
                index,
                id: id@,
                name: name@,
                arguments: arguments@,
            },
        }
    }
}

impl DeepView for CallSnapshot {
    type V = CallSnapshotView;

    open spec fn deep_view(&self) -> CallSnapshotView {
        self@
    }
}

impl Clone for CallSnapshot {
    fn clone(&self) -> (r: Self)
        ensures
            r@ == self@,
    {
        match self {
            CallSnapshot::Sealed { index, call } => CallSnapshot::Sealed {
                index: *index,
                call: Box::new((**call).clone()),
            },
            CallSnapshot::Open { index, id, name, arguments } => CallSnapshot::Open {
                index: *index,
                id: id.clone(),
                name: name.clone(),
                arguments: arguments.clone(),
            },
        }
    }
}

/// The mid-stream fold of one assistant turn.
#[derive(Debug, PartialEq, Eq)]
pub struct TurnSnapshot {
    pub text: String,
    pub reasoning: String,
    /// Sealed calls plus still-open partials, ordered by stream index.
    pub calls: Vec<CallSnapshot>,
    pub usage: Option<Usage>,
}

/// What a [`TurnSnapshot`] holds.
#[verifier::ext_equal]
pub struct TurnSnapshotView {
    pub text: Seq<char>,
    pub reasoning: Seq<char>,
    pub calls: Seq<CallSnapshotView>,
    pub usage: Option<UsageView>,
}

impl View for TurnSnapshot {
    type V = TurnSnapshotView;

    open spec fn view(&self) -> TurnSnapshotView {
        TurnSnapshotView {
            text: self.text@,
            reasoning: self.reasoning@,
            calls: self.calls.deep_view(),
            usage: self.usage.deep_view(),
        }
    }
}

impl DeepView for TurnSnapshot {
    type V = TurnSnapshotView;

    open spec fn deep_view(&self) -> TurnSnapshotView {
        self@
    }
}

impl Clone for TurnSnapshot {
    fn clone(&self) -> (r: Self)
        ensures
            r@ == self@,
    {
        TurnSnapshot {
            text: self.text.clone(),
            reasoning: self.reasoning.clone(),
            calls: clone_vec(&self.calls),
            usage: clone_option(&self.usage),
        }
    }
}

/// One in-flight assistant turn.
#[derive(Debug, PartialEq, Eq)]
pub struct OpenTurn {
    /// The 1-based assistant-turn index.
    pub turn: u32,
    pub partial: TurnSnapshot,
}

/// What a [`OpenTurn`] holds.
#[verifier::ext_equal]
pub struct OpenTurnView {
    pub turn: u32,
    pub partial: TurnSnapshotView,
}

impl View for OpenTurn {
    type V = OpenTurnView;

    open spec fn view(&self) -> OpenTurnView {
        OpenTurnView {
            turn: self.turn,
            partial: self.partial@,
        }
    }
}

impl DeepView for OpenTurn {
    type V = OpenTurnView;

    open spec fn deep_view(&self) -> OpenTurnView {
        self@
    }
}

impl Clone for OpenTurn {
    fn clone(&self) -> (r: Self)
        ensures
            r@ == self@,
    {
        OpenTurn {
            turn: self.turn,
            partial: self.partial.clone(),
        }
    }
}

/// One gated batch presented and not yet resolved.
#[derive(Debug, PartialEq, Eq)]
pub struct PendingApproval {
    pub request_id: String,
    pub turn: u32,
    pub calls: Vec<ToolCall>,
    /// The decisions made so far.
    pub decisions: Vec<Approval>,
    pub message_index: Option<usize>,
}

/// What a [`PendingApproval`] holds.
#[verifier::ext_equal]
pub struct PendingApprovalView {
    pub request_id: Seq<char>,
    pub turn: u32,
    pub calls: Seq<ToolCallView>,
    pub decisions: Seq<ApprovalView>,
    pub message_index: Option<usize>,
}

impl View for PendingApproval {
    type V = PendingApprovalView;

    open spec fn view(&self) -> PendingApprovalView {
        PendingApprovalView {
            request_id: self.request_id@,
            turn: self.turn,
            calls: self.calls.deep_view(),
            decisions: self.decisions.deep_view(),
            message_index: self.message_index,
        }
    }
}

impl DeepView for PendingApproval {
    type V = PendingApprovalView;

    open spec fn deep_view(&self) -> PendingApprovalView {
        self@
    }
}

impl Clone for PendingApproval {
    fn clone(&self) -> (r: Self)
        ensures
            r@ == self@,
    {
        PendingApproval {
            request_id: self.request_id.clone(),
            turn: self.turn,
            calls: clone_vec(&self.calls),
            decisions: clone_vec(&self.decisions),
            message_index: self.message_index,
        }
    }
}

/// One gated batch after its resolution.
#[derive(Debug, PartialEq, Eq)]
pub struct SettledApproval {
    pub request_id: String,
    pub calls: Vec<ToolCall>,
    pub decisions: Vec<Approval>,
    pub message_index: Option<usize>,
}

/// What a [`SettledApproval`] holds.
#[verifier::ext_equal]
pub struct SettledApprovalView {
    pub request_id: Seq<char>,
    pub calls: Seq<ToolCallView>,
    pub decisions: Seq<ApprovalView>,
    pub message_index: Option<usize>,
}

impl View for SettledApproval {
    type V = SettledApprovalView;

    open spec fn view(&self) -> SettledApprovalView {
        SettledApprovalView {
            request_id: self.request_id@,
            calls: self.calls.deep_view(),
            decisions: self.decisions.deep_view(),
            message_index: self.message_index,
        }
    }
}

impl DeepView for SettledApproval {
    type V = SettledApprovalView;

    open spec fn deep_view(&self) -> SettledApprovalView {
        self@
    }
}

impl Clone for SettledApproval {
    fn clone(&self) -> (r: Self)
        ensures
            r@ == self@,
    {
        SettledApproval {
            request_id: self.request_id.clone(),
            calls: clone_vec(&self.calls),
            decisions: clone_vec(&self.decisions),
            message_index: self.message_index,
        }
    }
}

/// The part of a run's state that has not landed in the log yet.
#[derive(Debug, PartialEq, Eq)]
pub struct InFlight {
    pub open_turn: Option<OpenTurn>,
    pub pending_approvals: Vec<PendingApproval>,
    pub completed_tools: Vec<ToolCompletion>,
}

/// What a [`InFlight`] holds.
#[verifier::ext_equal]
pub struct InFlightView {
    pub open_turn: Option<OpenTurnView>,
    pub pending_approvals: Seq<PendingApprovalView>,
    pub completed_tools: Seq<ToolCompletionView>,
}

impl View for InFlight {
    type V = InFlightView;

    open spec fn view(&self) -> InFlightView {
        InFlightView {
            open_turn: self.open_turn.deep_view(),
            pending_approvals: self.pending_approvals.deep_view(),
            completed_tools: self.completed_tools.deep_view(),
        }
    }
}

impl DeepView for InFlight {
    type V = InFlightView;

    open spec fn deep_view(&self) -> InFlightView {
        self@
    }
}

impl Clone for InFlight {
    fn clone(&self) -> (r: Self)
        ensures
            r@ == self@,
    {
        InFlight {
            open_turn: clone_option(&self.open_turn),
            pending_approvals: clone_vec(&self.pending_approvals),
            completed_tools: clone_vec(&self.completed_tools),
        }
    }
}

/// The attach handshake's reply: the render baseline plus the position it is
/// current as of.
#[derive(Debug, PartialEq, Eq)]
pub struct Sync {
    /// The log fold.
    pub history: RunState,
    pub in_flight: InFlight,
    /// Apply only live items with a `seq` greater than this.
    pub as_of_seq: u64,
}

/// What a [`Sync`] holds.
#[verifier::ext_equal]
pub struct SyncView {
    pub history: RunStateView,
    pub in_flight: InFlightView,
    pub as_of_seq: u64,
}

impl View for Sync {
    type V = SyncView;

    open spec fn view(&self) -> SyncView {
        SyncView {
            history: self.history@,
            in_flight: self.in_flight@,
            as_of_seq: self.as_of_seq,
        }
    }
}

impl DeepView for Sync {
    type V = SyncView;

    open spec fn deep_view(&self) -> SyncView {
        self@
    }
}

impl Clone for Sync {
    fn clone(&self) -> (r: Self)
        ensures
            r@ == self@,
    {
        Sync {
            history: self.history.clone(),
            in_flight: self.in_flight.clone(),
            as_of_seq: self.as_of_seq,
        }
    }
}

/// The downstream port: frontends subscribe behind it. Best-effort and
/// synchronous: a slow subscriber lags and is told so, it never slows the loop.
pub trait LiveSink: Send + std::marker::Sync {
    fn publish(&self, item: &LiveItem);
}

} // verus!
