//! What failures are called and how they are told, in terms of their causes.
use crate::contract::error;
use crate::contract::error::ModelErrorView;
use crate::contract::event::{EventErrorView, EventKindView};
use crate::contract::log;
use crate::contract::log::LogErrorView;
use crate::contract::stream;
use crate::contract::stream::FinishReasonView;
use crate::json::ValueView;
use crate::runtime::agent::dispatch;
use crate::runtime::agent::dispatch::{DispatchView, ExecutionView};
use crate::runtime::agent::failure;
use crate::runtime::agent::failure::AgentErrorView;
use crate::runtime::agent::outcome;
use crate::runtime::agent::outcome::ToolOutcomeView;
use crate::runtime::agent::tool;
use crate::runtime::agent::tool::{ToolDeclarationView, ToolErrorView};
use crate::runtime::assembler::AssembledTurnView;
use crate::text;
use vstd::prelude::*;

verus! {

/// Every kind of model error is recorded under its own name, with its text.
pub proof fn model_errors_are_named(error: ModelErrorView)
    ensures
        ({
            let detail = failure::model_detail(error);
            &&& detail.message == error::error_text(error)
            &&& detail.kind == (match error {
                ModelErrorView::RateLimited { .. } => "rate_limited"@,
                ModelErrorView::Server { .. } => "server"@,
                ModelErrorView::Network(_) => "network"@,
                ModelErrorView::Protocol(_) => "protocol"@,
                ModelErrorView::InvalidRequest(_) => "invalid_request"@,
                ModelErrorView::CapabilityMismatch(_) => "capability_mismatch"@,
                ModelErrorView::Auth(_) => "auth"@,
                ModelErrorView::ContextLength => "context_length"@,
            })
        }),
{
}

/// An error's text tells what it is and quotes what it carries.
pub proof fn model_errors_are_told(shown: Seq<char>, status: u16, retriable: bool)
    ensures
        error::error_text(ModelErrorView::Network(shown)) == "network error: "@ + shown,
        error::error_text(ModelErrorView::Protocol(shown)) == "wire protocol violation: "@ + shown,
        error::error_text(ModelErrorView::InvalidRequest(shown)) == "invalid request: "@ + shown,
        error::error_text(ModelErrorView::CapabilityMismatch(shown)) == "capability mismatch: "@
            + shown,
        error::error_text(ModelErrorView::Auth(shown)) == "authentication failed: "@ + shown,
        error::error_text(ModelErrorView::ContextLength) == "context length exceeded"@,
        error::error_text(ModelErrorView::RateLimited { retry_after: None }) == "rate limited"@,
        error::error_text(
            ModelErrorView::Server { status, retriable, detail: Some(shown) },
        ) == "provider server error (HTTP "@ + text::decimal(status as nat) + "): "@ + shown,
        error::error_text(ModelErrorView::Server { status, retriable, detail: None })
            == "provider server error (HTTP "@ + text::decimal(status as nat) + ")"@,
{
    reveal_strlit(")");
    reveal_strlit(": ");
    reveal_strlit("): ");
    assert("): "@ =~= ")"@ + ": "@);
    assert(error::error_text(
        ModelErrorView::Server { status, retriable, detail: Some(shown) },
    ) =~= "provider server error (HTTP "@ + text::decimal(status as nat) + "): "@ + shown);
}

/// A run's error tells its cause: the provider's text, the log's behind a word,
/// the limit, the finish reason, or the interrupt.
pub proof fn run_errors_are_told(
    inner: ModelErrorView,
    log_error: LogErrorView,
    limit: usize,
    finish: FinishReasonView,
)
    ensures
        failure::agent_error_text(AgentErrorView::Provider(inner)) == error::error_text(inner),
        failure::agent_error_text(AgentErrorView::Log(log_error)) == "trajectory log failed: "@
            + log::log_error_text(log_error),
        failure::agent_error_text(AgentErrorView::TurnLimit(limit)) == "assistant turn limit ("@
            + text::decimal(limit as nat) + ") exceeded"@,
        failure::agent_error_text(AgentErrorView::EmptyTurn { finish })
            == "empty assistant turn (finish: "@ + stream::finish_text(finish) + ")"@,
        failure::agent_error_text(AgentErrorView::Interrupted) == "run interrupted by the client"@,
        failure::interruption() == (EventErrorView {
            kind: "interrupted"@,
            message: "run interrupted by the client"@,
        }),
{
}

/// A finish reason is shown by its name, and any other word between quotation
/// marks.
pub proof fn finish_reasons_are_shown(word: Seq<char>)
    ensures
        stream::finish_text(FinishReasonView::Stop) == "Stop"@,
        stream::finish_text(FinishReasonView::ToolCalls) == "ToolCalls"@,
        stream::finish_text(FinishReasonView::Length) == "Length"@,
        stream::finish_text(FinishReasonView::ContentFilter) == "ContentFilter"@,
        stream::finish_text(FinishReasonView::Other(word)) == "Other("@ + text::debug_text(word)
            + ")"@,
{
}

/// Whether an outcome is feedback on a failure: the model reads the text, and
/// the record keeps it with its kind; no list is written.
pub open spec fn is_feedback(
    outcome: ToolOutcomeView,
    kind: Seq<char>,
    message: Seq<char>,
) -> bool {
    &&& outcome.result == ValueView::String(message)
    &&& outcome.error == Some(EventErrorView { kind, message })
    &&& outcome.todos is None
}

/// What a call comes to without its tool's answer is feedback to the model: an
/// unknown tool is named, a rejected call is named with the reason given, and a
/// failed tool is named with its message. Only the last was executed.
pub proof fn failed_calls_are_fed_back(
    name: Seq<char>,
    comment: Seq<char>,
    failed: ToolErrorView,
)
    ensures
        is_feedback(outcome::unknown_outcome(name), "unknown_tool"@, "unknown tool: "@ + name),
        is_feedback(
            outcome::rejected_outcome(name, Some(comment)),
            "approval_rejected"@,
            name + " call rejected ("@ + comment
                + "); it was not executed — do not assume its effect happened. Adjust the approach or continue without it."@,
        ),
        is_feedback(
            outcome::rejected_outcome(name, None),
            "approval_rejected"@,
            name
                + " call rejected ("@ + "no reason given"@
                + "); it was not executed — do not assume its effect happened. Adjust the approach or continue without it."@,
        ),
        is_feedback(
            outcome::failed_with("tool"@, tool::tool_error_text(failed)),
            "tool"@,
            "tool `"@ + failed.tool + "` failed: "@ + failed.message,
        ),
        outcome::never_executed(outcome::unknown_outcome(name).error),
        outcome::never_executed(outcome::rejected_outcome(name, Some(comment)).error),
        !outcome::never_executed(
            outcome::failed_with("tool"@, tool::tool_error_text(failed)).error,
        ),
        !outcome::never_executed(None),
{
    reveal_strlit("tool");
    reveal_strlit("approval_rejected");
    reveal_strlit("unknown_tool");
    assert("tool"@.len() == 4);
    assert("approval_rejected"@.len() == 17);
    assert("unknown_tool"@.len() == 12);
}

/// A tool's answer is passed on as it is, with the list it wrote.
pub proof fn answers_are_passed_on(
    result: ValueView,
    todos: Option<Seq<crate::contract::context::TodoItemView>>,
)
    ensures
        outcome::answered(result, todos).result == result,
        outcome::answered(result, todos).error is None,
        outcome::answered(result, todos).todos == todos,
{
}

/// A started call is executed by its tool, under the call's own name and with
/// its own arguments; a call of a tool that is not there is answered as
/// unknown.
pub proof fn calls_are_executed_as_asked(
    d: DispatchView,
    tools: Seq<ToolDeclarationView>,
    position: usize,
)
    requires
        position < d.calls.len(),
    ensures
        ({
            let call = d.calls[position as int];
            let how = dispatch::execution_of(d, tools, position);
            let known = exists|i: int|
                0 <= i < tools.len() && (#[trigger] tools[i]).spec.name == call.name;
            &&& known ==> how == Some(
                ExecutionView::Invoke { name: call.name, arguments: call.arguments },
            )
            &&& !known ==> (how matches Some(ExecutionView::Answer(told)) && is_feedback(
                told,
                "unknown_tool"@,
                "unknown tool: "@ + call.name,
            ))
        }),
{
    let call = d.calls[position as int];
    known_tools_are_declared(tools, call.name);
}

proof fn known_tools_are_declared(tools: Seq<ToolDeclarationView>, name: Seq<char>)
    ensures
        tool::declared(tools, name) is Some <==> exists|i: int|
            0 <= i < tools.len() && (#[trigger] tools[i]).spec.name == name,
    decreases tools.len(),
{
    if tools.len() > 0 {
        let before = tools.drop_last();
        known_tools_are_declared(before, name);
        assert(tools[tools.len() - 1] == tools.last());
        if tool::declared(before, name) is Some {
            let i = choose|i: int|
                0 <= i < before.len() && (#[trigger] before[i]).spec.name == name;
            assert(tools[i] == before[i]);
        }
        if exists|i: int| 0 <= i < tools.len() && (#[trigger] tools[i]).spec.name == name {
            let i = choose|i: int| 0 <= i < tools.len() && (#[trigger] tools[i]).spec.name == name;
            if i < before.len() {
                assert(before[i] == tools[i]);
            }
        }
    }
}

/// The record of a turn keeps all that was assembled.
pub proof fn turns_are_recorded_whole(turn: AssembledTurnView)
    ensures
        failure::response_payload(turn) matches EventKindView::LlmResponse {
            message,
            usage,
            finish,
            outcome,
            warnings,
        } && message == turn.message && usage == turn.usage && finish == turn.finish && outcome
            == turn.outcome && warnings == turn.warnings,
{
}

} // verus!
