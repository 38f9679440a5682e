//! What comes of a call.
use crate::contract::context::{TodoItem, TodoItemView};
use crate::contract::error_kinds;
use crate::contract::event::{EventError, EventErrorView};
use crate::contract::message::ToolCall;
use crate::copies::{clone_option, clone_vec};
use crate::json::{Value, ValueView};
use crate::runtime::agent::tool;
use crate::runtime::agent::tool::ToolError;
use crate::text;
use vstd::prelude::*;

verus! {

/// What came of a call: the value for the model, and for a failure the
/// structured error.
#[derive(Debug, PartialEq, Eq)]
pub struct ToolOutcome {
    pub result: Value,
    pub error: Option<EventError>,
    /// The todo list that the call's arguments carry, where they carry one.
    pub todos: Option<Vec<TodoItem>>,
}

/// What a [`ToolOutcome`] holds.
#[verifier::ext_equal]
pub struct ToolOutcomeView {
    pub result: ValueView,
    pub error: Option<EventErrorView>,
    pub todos: Option<Seq<TodoItemView>>,
}

impl View for ToolOutcome {
    type V = ToolOutcomeView;

    open spec fn view(&self) -> ToolOutcomeView {
        ToolOutcomeView {
            result: self.result@,
            error: self.error.deep_view(),
            todos: self.todos.deep_view(),
        }
    }
}

impl DeepView for ToolOutcome {
    type V = ToolOutcomeView;

    open spec fn deep_view(&self) -> ToolOutcomeView {
        self@
    }
}

impl Clone for ToolOutcome {
    fn clone(&self) -> (r: Self)
        ensures
            r@ == self@,
    {
        ToolOutcome {
            result: self.result.clone(),
            error: clone_option(&self.error),
            todos: clone_list(&self.todos),
        }
    }
}

/// A copy of an optional todo list.
fn clone_list(list: &Option<Vec<TodoItem>>) -> (r: Option<Vec<TodoItem>>)
    ensures
        r.deep_view() == list.deep_view(),
{
    match list {
        Some(items) => Some(clone_vec(items)),
        None => None,
    }
}

/// The outcome of a tool that answered.
pub open spec fn answered(
    result: ValueView,
    todos: Option<Seq<TodoItemView>>,
) -> ToolOutcomeView {
    ToolOutcomeView { result, error: None, todos }
}

/// A failure outcome: the model reads the text, the trajectory keeps the
/// kind.
pub open spec fn failed_with(kind: Seq<char>, message: Seq<char>) -> ToolOutcomeView {
    ToolOutcomeView {
        result: ValueView::String(message),
        error: Some(EventErrorView { kind, message }),
        todos: None,
    }
}

/// The outcome of a call to a tool that is not wired in: feedback, not a
/// fatal error.
pub open spec fn unknown_outcome(name: Seq<char>) -> ToolOutcomeView {
    failed_with(error_kinds::UNKNOWN_TOOL@, "unknown tool: "@ + name)
}

/// The outcome of a rejected call, phrased so that the model cannot read the
/// effect as having happened.
pub open spec fn rejected_outcome(name: Seq<char>, comment: Option<Seq<char>>) -> ToolOutcomeView {
    let reason = match comment {
        Some(comment) => comment,
        None => "no reason given"@,
    };
    failed_with(
        error_kinds::APPROVAL_REJECTED@,
        name + " call rejected ("@ + reason + REJECTION_TAIL@,
    )
}

/// The end of a rejection's text.
pub const REJECTION_TAIL: &'static str = "); it was not executed — do not assume its effect happened. Adjust the approach or continue without it.";

fn failure_of(kind: &str, message: String) -> (r: ToolOutcome)
    ensures
        r@ == failed_with(kind@, message@),
{
    ToolOutcome {
        result: Value::String(message.clone()),
        error: Some(EventError { kind: kind.to_owned(), message }),
        todos: None,
    }
}

/// The outcome of a tool that answered.
pub fn tool_answer(result: Value, todos: Option<Vec<TodoItem>>) -> (r: ToolOutcome)
    ensures
        r@ == answered(result@, todos.deep_view()),
{
    ToolOutcome { result, error: None, todos }
}

/// The outcome of a tool that failed.
pub fn tool_failure(error: &ToolError) -> (r: ToolOutcome)
    ensures
        r@ == failed_with(error_kinds::TOOL@, tool::tool_error_text(error@)),
{
    failure_of(error_kinds::TOOL, error.to_text())
}

/// The outcome of a call to a tool that is not wired in.
pub fn unknown_tool(call: &ToolCall) -> (r: ToolOutcome)
    ensures
        r@ == unknown_outcome(call@.name),
{
    failure_of(error_kinds::UNKNOWN_TOOL, text::prefixed("unknown tool: ", call.name.as_str()))
}

/// The outcome of a rejected call.
pub fn rejection(call: &ToolCall, comment: &Option<String>) -> (r: ToolOutcome)
    ensures
        r@ == rejected_outcome(call@.name, comment.deep_view()),
{
    let mut message = call.name.clone();
    message.append(" call rejected (");
    match comment {
        Some(comment) => message.append(comment.as_str()),
        None => message.append("no reason given"),
    }
    message.append(REJECTION_TAIL);
    failure_of(error_kinds::APPROVAL_REJECTED, message)
}

/// Whether a call with this error was never executed.
pub open spec fn never_executed(error: Option<EventErrorView>) -> bool {
    match error {
        Some(error) => error.kind == error_kinds::APPROVAL_REJECTED@ || error.kind
            == error_kinds::UNKNOWN_TOOL@,
        None => false,
    }
}

/// Whether a call with this error was never executed.
pub fn was_never_executed(error: &Option<EventError>) -> (r: bool)
    ensures
        r == never_executed(error.deep_view()),
{
    match error {
        Some(error) => text::same(error.kind.as_str(), error_kinds::APPROVAL_REJECTED)
            || text::same(error.kind.as_str(), error_kinds::UNKNOWN_TOOL),
        None => false,
    }
}

} // verus!
