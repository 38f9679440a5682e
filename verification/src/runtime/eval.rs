//! Eval scoring: one score per expectation of a case, from the folded run.
//!
//! Every metric is binary: full marks or none, with the verdict beside the
//! score.
use crate::contract::eval;
use crate::contract::eval::{EvalCase, EvalCaseView, Expectation, ExpectationView};
use crate::contract::event::{ScoreEvent, ScoreEventView, Status};
use crate::contract::message;
use crate::contract::message::{Message, MessageView, Role};
use crate::contract::state::{RunState, RunStateView};
use crate::text;
use vstd::prelude::*;

verus! {

/// The IEEE 754 bits of 1.
pub const FULL_MARKS: u64 = 0x3ff0_0000_0000_0000;

/// The IEEE 754 bits of 0.
pub const NO_MARKS: u64 = 0;

/// Whether the run ended with a clean terminal record.
pub open spec fn completed(state: RunStateView) -> bool {
    match state.finished {
        Some(finish) => finish.status == Status::Success && finish.error is None,
        None => false,
    }
}

/// The last assistant message.
pub open spec fn final_answer(messages: Seq<MessageView>) -> Option<MessageView>
    decreases messages.len(),
{
    if messages.len() == 0 {
        None
    } else if messages.last().role == Role::Assistant {
        Some(messages.last())
    } else {
        final_answer(messages.drop_last())
    }
}

/// Whether the text of the last assistant message holds `needle`; a run
/// without one holds nothing.
pub open spec fn answer_holds(messages: Seq<MessageView>, needle: Seq<char>) -> bool {
    match final_answer(messages) {
        Some(message) => text::occurs(message::body_text(message.content), needle),
        None => false,
    }
}

/// Whether a message carries a call of the tool `name`.
pub open spec fn calls_tool(message: MessageView, name: Seq<char>) -> bool {
    exists|j: int|
        0 <= j < message::calls_in(message.content).len() && (#[trigger] message::calls_in(
            message.content,
        )[j]).name == name
}

/// Whether the tool `name` was called at all.
pub open spec fn called(messages: Seq<MessageView>, name: Seq<char>) -> bool {
    exists|i: int| 0 <= i < messages.len() && calls_tool(#[trigger] messages[i], name)
}

/// Whether an expectation holds of a folded run.
pub open spec fn holds(expectation: ExpectationView, state: RunStateView) -> bool {
    match expectation {
        ExpectationView::RunCompleted => completed(state),
        ExpectationView::AnswerContains { needle } => answer_holds(state.messages, needle),
        ExpectationView::ToolCalled { name } => called(state.messages, name),
        ExpectationView::TurnsWithin { max } => state.turns <= max,
    }
}

/// The score of one expectation.
pub open spec fn scored(
    case_id: Seq<char>,
    expectation: ExpectationView,
    state: RunStateView,
) -> ScoreEventView {
    ScoreEventView {
        case_id,
        metric: eval::metric(expectation),
        score: if holds(expectation, state) {
            FULL_MARKS
        } else {
            NO_MARKS
        },
        passed: Some(holds(expectation, state)),
    }
}

/// The scores of a case: one per expectation, in order.
pub open spec fn scores_of(case: EvalCaseView, state: RunStateView) -> Seq<ScoreEventView> {
    Seq::new(case.expect.len(), |i: int| scored(case.id, case.expect[i], state))
}

/// Every score is binary, and full marks are given exactly where the verdict
/// is a pass.
pub proof fn scores_are_binary(case: EvalCaseView, state: RunStateView, i: int)
    requires
        0 <= i < case.expect.len(),
    ensures
        scores_of(case, state)[i].score == FULL_MARKS || scores_of(case, state)[i].score
            == NO_MARKS,
        scores_of(case, state)[i].passed == Some(scores_of(case, state)[i].score == FULL_MARKS),
{
}

/// A run that died before its first assistant message answers nothing and
/// completes nothing, but is scored all the same.
pub proof fn crashes_score_nothing(case: EvalCaseView, state: RunStateView, i: int)
    requires
        0 <= i < case.expect.len(),
        state.messages.len() == 0,
        state.finished is None,
    ensures
        scores_of(case, state).len() == case.expect.len(),
        case.expect[i] !is TurnsWithin ==> scores_of(case, state)[i].passed == Some(false),
{
}

/// Whether the loop's own terminal record is clean: a missing one and an
/// errored one both mean that the run did not complete.
fn run_completed(state: &RunState) -> (r: bool)
    ensures
        r == completed(state@),
{
    match &state.finished {
        Some(finish) => finish.status == Status::Success && finish.error.is_none(),
        None => false,
    }
}

/// The text of the last assistant message: the answer, since the loop ends on
/// the assistant turn without a tool call.
fn final_answer_text(messages: &Vec<Message>) -> (r: Option<String>)
    ensures
        match r {
            Some(text) => final_answer(messages.deep_view()) matches Some(message) && text@
                == message::body_text(message.content),
            None => final_answer(messages.deep_view()) is None,
        },
{
    let ghost all = messages.deep_view();
    let mut left: usize = messages.len();
    assert(all.take(left as int) =~= all);
    while left > 0
        invariant
            left <= messages.len(),
            all == messages.deep_view(),
            final_answer(all) == final_answer(all.take(left as int)),
        decreases left,
    {
        let message = &messages[left - 1];
        assert(all.take(left as int).last() == message@);
        assert(all.take(left as int).drop_last() =~= all.take(left as int - 1));
        if message.role == Role::Assistant {
            return Some(message.text_body());
        }
        left -= 1;
    }
    None
}

/// Verbatim, case-sensitive containment in the final assistant text.
fn answer_contains(state: &RunState, needle: &str) -> (r: bool)
    ensures
        r == answer_holds(state@.messages, needle@),
{
    match final_answer_text(&state.messages) {
        Some(answer) => text::contains(answer.as_str(), needle),
        None => false,
    }
}

fn has_call(message: &Message, name: &str) -> (r: bool)
    ensures
        r == calls_tool(message@, name@),
{
    let calls = message.tool_calls();
    let ghost all = calls.deep_view();
    let mut j: usize = 0;
    while j < calls.len()
        invariant
            j <= calls.len(),
            all == calls.deep_view(),
            all == message::calls_in(message@.content),
            forall|k: int| 0 <= k < j ==> (#[trigger] all[k]).name != name@,
        decreases calls.len() - j,
    {
        assert(all[j as int] == calls[j as int]@);
        if text::same(calls[j].name.as_str(), name) {
            assert(message::calls_in(message@.content)[j as int].name == name@);
            return true;
        }
        j += 1;
    }
    assert(calls.deep_view().len() == calls.len());
    false
}

fn tool_called(state: &RunState, name: &str) -> (r: bool)
    ensures
        r == called(state@.messages, name@),
{
    let ghost all = state.messages.deep_view();
    let mut i: usize = 0;
    while i < state.messages.len()
        invariant
            i <= state.messages.len(),
            all == state.messages.deep_view(),
            forall|k: int| 0 <= k < i ==> !calls_tool(#[trigger] all[k], name@),
        decreases state.messages.len() - i,
    {
        assert(all[i as int] == state.messages[i as int]@);
        if has_call(&state.messages[i], name) {
            assert(calls_tool(state@.messages[i as int], name@));
            return true;
        }
        i += 1;
    }
    assert(state.messages.deep_view().len() == state.messages.len());
    false
}

/// Scores every expectation of `case` against the folded run, in the case's
/// order. A run that broke off still scores: a crash is a zero, not an
/// exception.
pub fn score_case(case: &EvalCase, state: &RunState) -> (r: Vec<ScoreEvent>)
    ensures
        r.deep_view() == scores_of(case@, state@),
{
    let mut out: Vec<ScoreEvent> = Vec::new();
    let mut i: usize = 0;
    while i < case.expect.len()
        invariant
            i <= case.expect.len(),
            out.len() == i,
            forall|k: int| 0 <= k < i ==> #[trigger] out[k]@ == scored(case@.id, case@.expect[k], state@),
        decreases case.expect.len() - i,
    {
        let expectation = &case.expect[i];
        assert(case@.expect[i as int] == expectation@);
        let passed = match expectation {
            Expectation::RunCompleted => run_completed(state),
            Expectation::AnswerContains { needle } => answer_contains(state, needle.as_str()),
            Expectation::ToolCalled { name } => tool_called(state, name.as_str()),
            Expectation::TurnsWithin { max } => state.turns <= *max,
        };
        let score: u64 = if passed {
            FULL_MARKS
        } else {
            NO_MARKS
        };
        out.push(
            ScoreEvent {
                case_id: case.id.clone(),
                metric: expectation.metric_name().to_owned(),
                score,
                passed: Some(passed),
            },
        );
        i += 1;
    }
    assert(case@.expect.len() == case.expect.len());
    assert(out.deep_view() =~= scores_of(case@, state@));
    out
}

} // verus!
