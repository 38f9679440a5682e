//! How a run fails, and the structured details that the trajectory carries.
use crate::contract::error;
use crate::contract::error::{ModelError, ModelErrorView};
use crate::contract::error_kinds;
use crate::contract::event::{EventError, EventErrorView, EventKind, EventKindView};
use crate::contract::log;
use crate::contract::log::{LogError, LogErrorView};
use crate::contract::stream;
use crate::contract::stream::{FinishReason, FinishReasonView};
use crate::copies::{clone_option, clone_texts};
use crate::runtime::assembler::{AssembledTurn, AssembledTurnView};
use crate::text;
use vstd::prelude::*;

verus! {

/// How a run failed.
#[derive(Debug, PartialEq, Eq)]
pub enum AgentError {
    Provider(ModelError),
    /// The trajectory log failed mid-run; the run stops rather than continuing
    /// unrecorded.
    Log(LogError),
    TurnLimit(usize),
    /// No content at all; the finish reason distinguishes "spent everything on
    /// hidden thinking" from a protocol anomaly.
    EmptyTurn {
        finish: FinishReason,
    },
    /// The client interrupted the run.
    Interrupted,
}

/// What a [`AgentError`] holds.
#[verifier::ext_equal]
pub enum AgentErrorView {
    Provider(ModelErrorView),
    Log(LogErrorView),
    TurnLimit(usize),
    EmptyTurn { finish: FinishReasonView },
    Interrupted,
}

impl View for AgentError {
    type V = AgentErrorView;

    open spec fn view(&self) -> AgentErrorView {
        match *self {
            AgentError::Provider(inner) => AgentErrorView::Provider(inner@),
            AgentError::Log(inner) => AgentErrorView::Log(inner@),
            AgentError::TurnLimit(inner) => AgentErrorView::TurnLimit(inner),
            AgentError::EmptyTurn { finish } => AgentErrorView::EmptyTurn {
                finish: finish@,
            },
            AgentError::Interrupted => AgentErrorView::Interrupted,
        }
    }
}

impl DeepView for AgentError {
    type V = AgentErrorView;

    open spec fn deep_view(&self) -> AgentErrorView {
        self@
    }
}

impl Clone for AgentError {
    fn clone(&self) -> (r: Self)
        ensures
            r@ == self@,
    {
        match self {
            AgentError::Provider(inner) => AgentError::Provider(inner.clone()),
            AgentError::Log(inner) => AgentError::Log(inner.clone()),
            AgentError::TurnLimit(inner) => AgentError::TurnLimit(*inner),
            AgentError::EmptyTurn { finish } => AgentError::EmptyTurn {
                finish: finish.clone(),
            },
            AgentError::Interrupted => AgentError::Interrupted,
        }
    }
}

/// The text of an agent error.
pub open spec fn agent_error_text(error: AgentErrorView) -> Seq<char> {
    match error {
        AgentErrorView::Provider(inner) => error::error_text(inner),
        AgentErrorView::Log(inner) => "trajectory log failed: "@ + log::log_error_text(inner),
        AgentErrorView::TurnLimit(limit) => "assistant turn limit ("@ + text::decimal(limit as nat)
            + ") exceeded"@,
        AgentErrorView::EmptyTurn { finish } => "empty assistant turn (finish: "@
            + stream::finish_text(finish) + ")"@,
        AgentErrorView::Interrupted => "run interrupted by the client"@,
    }
}

impl AgentError {
    /// The error for humans.
    pub fn to_text(&self) -> (r: String)
        ensures
            r@ == agent_error_text(self@),
    {
        match self {
            AgentError::Provider(inner) => inner.to_text(),
            AgentError::Log(inner) => text::prefixed(
                "trajectory log failed: ",
                inner.to_text().as_str(),
            ),
            AgentError::TurnLimit(limit) => {
                let mut out = text::prefixed(
                    "assistant turn limit (",
                    text::decimal_of(*limit as u64).as_str(),
                );
                out.append(") exceeded");
                out
            },
            AgentError::EmptyTurn { finish } => {
                let mut out = text::prefixed(
                    "empty assistant turn (finish: ",
                    finish.to_text().as_str(),
                );
                out.append(")");
                out
            },
            AgentError::Interrupted => "run interrupted by the client".to_owned(),
        }
    }
}

/// The detail of an interrupted run.
pub open spec fn interruption() -> EventErrorView {
    EventErrorView {
        kind: error_kinds::INTERRUPTED@,
        message: agent_error_text(AgentErrorView::Interrupted),
    }
}

/// The detail of an interrupted run, carried by the truncated turn and the
/// terminal record alike.
pub fn interrupted_detail() -> (r: EventError)
    ensures
        r@ == interruption(),
{
    EventError {
        kind: error_kinds::INTERRUPTED.to_owned(),
        message: AgentError::Interrupted.to_text(),
    }
}

/// The machine string of a model error.
pub open spec fn model_error_kind(error: ModelErrorView) -> Seq<char> {
    match error {
        ModelErrorView::RateLimited { .. } => error_kinds::RATE_LIMITED@,
        ModelErrorView::Server { .. } => error_kinds::SERVER@,
        ModelErrorView::Network(_) => error_kinds::NETWORK@,
        ModelErrorView::Protocol(_) => error_kinds::PROTOCOL@,
        ModelErrorView::InvalidRequest(_) => error_kinds::INVALID_REQUEST@,
        ModelErrorView::CapabilityMismatch(_) => error_kinds::CAPABILITY_MISMATCH@,
        ModelErrorView::Auth(_) => error_kinds::AUTH@,
        ModelErrorView::ContextLength => error_kinds::CONTEXT_LENGTH@,
    }
}

/// The failure detail of a model error.
pub open spec fn model_detail(error: ModelErrorView) -> EventErrorView {
    EventErrorView { kind: model_error_kind(error), message: error::error_text(error) }
}

/// The failure detail of a model error.
pub fn model_event_error(error: &ModelError) -> (r: EventError)
    ensures
        r@ == model_detail(error@),
{
    let kind = match error {
        ModelError::RateLimited { .. } => error_kinds::RATE_LIMITED,
        ModelError::Server { .. } => error_kinds::SERVER,
        ModelError::Network(_) => error_kinds::NETWORK,
        ModelError::Protocol(_) => error_kinds::PROTOCOL,
        ModelError::InvalidRequest(_) => error_kinds::INVALID_REQUEST,
        ModelError::CapabilityMismatch(_) => error_kinds::CAPABILITY_MISMATCH,
        ModelError::Auth(_) => error_kinds::AUTH,
        ModelError::ContextLength => error_kinds::CONTEXT_LENGTH,
    };
    EventError { kind: kind.to_owned(), message: error.to_text() }
}

/// The payload of the event that records a turn.
pub open spec fn response_payload(turn: AssembledTurnView) -> EventKindView {
    EventKindView::LlmResponse {
        message: turn.message,
        usage: turn.usage,
        finish: turn.finish,
        outcome: turn.outcome,
        warnings: turn.warnings,
    }
}

/// The payload of the event that records a turn.
pub fn response_kind(turn: &AssembledTurn) -> (r: EventKind)
    ensures
        r@ == response_payload(turn@),
{
    EventKind::LlmResponse {
        message: turn.message.clone(),
        usage: clone_option(&turn.usage),
        finish: turn.finish.clone(),
        outcome: turn.outcome,
        warnings: clone_texts(&turn.warnings),
    }
}

} // verus!
