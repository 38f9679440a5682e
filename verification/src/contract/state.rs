//! The folded state of one trace.
use crate::contract::event::{EventError, EventErrorView, ScoreEvent, ScoreEventView, Status};
use crate::contract::message::{Message, MessageView};
use crate::copies::{clone_option, clone_texts, clone_vec};
use vstd::prelude::*;

verus! {

/// A durable result's approval address, kept outside provider-facing messages.
#[derive(Debug, PartialEq, Eq)]
pub struct ToolResultProjection {
    /// Index of the result in [`RunState::messages`], including seeded history.
    pub message_index: usize,
    pub request_id: String,
    /// Zero-based position in the request's gated batch.
    pub call_index: usize,
}

/// What a [`ToolResultProjection`] holds.
#[verifier::ext_equal]
pub struct ToolResultProjectionView {
    pub message_index: usize,
    pub request_id: Seq<char>,
    pub call_index: usize,
}

impl View for ToolResultProjection {
    type V = ToolResultProjectionView;

    open spec fn view(&self) -> ToolResultProjectionView {
        ToolResultProjectionView {
            message_index: self.message_index,
            request_id: self.request_id@,
            call_index: self.call_index,
        }
    }
}

impl DeepView for ToolResultProjection {
    type V = ToolResultProjectionView;

    open spec fn deep_view(&self) -> ToolResultProjectionView {
        self@
    }
}

impl Clone for ToolResultProjection {
    fn clone(&self) -> (r: Self)
        ensures
            r@ == self@,
    {
        ToolResultProjection {
            message_index: self.message_index,
            request_id: self.request_id.clone(),
            call_index: self.call_index,
        }
    }
}

/// How the run ended, from its terminal event's envelope.
#[derive(Debug, PartialEq, Eq)]
pub struct FinishRecord {
    pub turns: u32,
    pub status: Status,
    pub error: Option<EventError>,
}

/// What a [`FinishRecord`] holds.
#[verifier::ext_equal]
pub struct FinishRecordView {
    pub turns: u32,
    pub status: Status,
    pub error: Option<EventErrorView>,
}

impl View for FinishRecord {
    type V = FinishRecordView;

    open spec fn view(&self) -> FinishRecordView {
        FinishRecordView {
            turns: self.turns,
            status: self.status,
            error: self.error.deep_view(),
        }
    }
}

impl DeepView for FinishRecord {
    type V = FinishRecordView;

    open spec fn deep_view(&self) -> FinishRecordView {
        self@
    }
}

impl Clone for FinishRecord {
    fn clone(&self) -> (r: Self)
        ensures
            r@ == self@,
    {
        FinishRecord {
            turns: self.turns,
            status: self.status,
            error: clone_option(&self.error),
        }
    }
}

/// The folded state of one trace: what replaying its event log reconstructs.
#[derive(Debug, PartialEq, Eq)]
pub struct RunState {
    pub trace_id: String,
    /// Provider and model from the start-run command, when recorded.
    pub provider: Option<String>,
    pub model: Option<String>,
    /// The start-run seed plus every assistant, tool and steered user message,
    /// in log order.
    pub messages: Vec<Message>,
    /// Durable tool results with their approval addresses.
    pub tool_results: Vec<ToolResultProjection>,
    /// Completed assistant turns.
    pub turns: u32,
    /// Every turn warning, in log order.
    pub warnings: Vec<String>,
    pub scores: Vec<ScoreEvent>,
    /// Tool calls never closed by a result, in the order they opened.
    pub dangling_tool_calls: Vec<String>,
    /// The terminal record; `None` means the trace ended mid-run.
    pub finished: Option<FinishRecord>,
}

/// What a [`RunState`] holds.
#[verifier::ext_equal]
pub struct RunStateView {
    pub trace_id: Seq<char>,
    pub provider: Option<Seq<char>>,
    pub model: Option<Seq<char>>,
    pub messages: Seq<MessageView>,
    pub tool_results: Seq<ToolResultProjectionView>,
    pub turns: u32,
    pub warnings: Seq<Seq<char>>,
    pub scores: Seq<ScoreEventView>,
    pub dangling_tool_calls: Seq<Seq<char>>,
    pub finished: Option<FinishRecordView>,
}

impl View for RunState {
    type V = RunStateView;

    open spec fn view(&self) -> RunStateView {
        RunStateView {
            trace_id: self.trace_id@,
            provider: self.provider.deep_view(),
            model: self.model.deep_view(),
            messages: self.messages.deep_view(),
            tool_results: self.tool_results.deep_view(),
            turns: self.turns,
            warnings: self.warnings.deep_view(),
            scores: self.scores.deep_view(),
            dangling_tool_calls: self.dangling_tool_calls.deep_view(),
            finished: self.finished.deep_view(),
        }
    }
}

impl DeepView for RunState {
    type V = RunStateView;

    open spec fn deep_view(&self) -> RunStateView {
        self@
    }
}

impl Clone for RunState {
    fn clone(&self) -> (r: Self)
        ensures
            r@ == self@,
    {
        RunState {
            trace_id: self.trace_id.clone(),
            provider: self.provider.clone(),
            model: self.model.clone(),
            messages: clone_vec(&self.messages),
            tool_results: clone_vec(&self.tool_results),
            turns: self.turns,
            warnings: clone_texts(&self.warnings),
            scores: clone_vec(&self.scores),
            dangling_tool_calls: clone_texts(&self.dangling_tool_calls),
            finished: clone_option(&self.finished),
        }
    }
}

} // verus!
