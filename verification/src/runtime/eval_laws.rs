//! What a case is scored by, in terms of the run's messages.
use crate::contract::eval::{EvalCaseView, EvalSplit, ExpectationView};
use crate::contract::event::Status;
use crate::contract::message;
use crate::contract::message::{ContentPartView, MessageView, Role};
use crate::contract::message_laws;
use crate::contract::state::RunStateView;
use crate::runtime::eval;
use crate::text_laws;
use vstd::prelude::*;

verus! {

/// Whether part `j` of message `i` is a call of the tool `name`.
pub open spec fn is_call_of(
    messages: Seq<MessageView>,
    i: int,
    j: int,
    name: Seq<char>,
) -> bool {
    &&& 0 <= i < messages.len()
    &&& 0 <= j < messages[i].content.len()
    &&& messages[i].content[j] matches ContentPartView::ToolCall { call } && call.name == name
}

/// An expectation that a tool was called passes exactly where some part of
/// some message, at whatever position, is a call of that tool.
pub proof fn calls_count_wherever_they_stand(
    case: EvalCaseView,
    state: RunStateView,
    k: int,
    name: Seq<char>,
)
    requires
        0 <= k < case.expect.len(),
        case.expect[k] == (ExpectationView::ToolCalled { name }),
    ensures
        eval::scores_of(case, state)[k].passed == Some(
            exists|i: int, j: int| is_call_of(state.messages, i, j, name),
        ),
{
    let messages = state.messages;
    if eval::called(messages, name) {
        let i = choose|i: int|
            0 <= i < messages.len() && eval::calls_tool(#[trigger] messages[i], name);
        let calls = message::calls_in(messages[i].content);
        let c = choose|c: int| 0 <= c < calls.len() && (#[trigger] calls[c]).name == name;
        let call = calls[c];
        assert(calls.contains(call));
        message_laws::calls_are_the_call_parts(messages[i].content, call);
        let content = messages[i].content;
        let j = choose|j: int|
            0 <= j < content.len() && #[trigger] content[j] == (ContentPartView::ToolCall { call });
        assert(is_call_of(messages, i, j, name));
    }
    if exists|i: int, j: int| is_call_of(messages, i, j, name) {
        let (i, j) = choose|i: int, j: int| is_call_of(messages, i, j, name);
        call_parts_count(messages, i, j, name);
    }
}

proof fn call_parts_count(messages: Seq<MessageView>, i: int, j: int, name: Seq<char>)
    requires
        is_call_of(messages, i, j, name),
    ensures
        eval::called(messages, name),
{
    let content = messages[i].content;
    match content[j] {
        ContentPartView::ToolCall { call } => {
            message_laws::calls_are_the_call_parts(content, call);
            let calls = message::calls_in(content);
            let c = choose|c: int| 0 <= c < calls.len() && calls[c] == call;
            assert(calls[c].name == name);
            assert(eval::calls_tool(messages[i], name));
        },
        _ => {},
    }
}

/// Messages in front of a history and behind it never turn a tool that was
/// called into one that was not.
pub proof fn more_messages_keep_calls(
    case: EvalCaseView,
    state: RunStateView,
    longer: RunStateView,
    before: Seq<MessageView>,
    after: Seq<MessageView>,
    k: int,
)
    requires
        0 <= k < case.expect.len(),
        case.expect[k] is ToolCalled,
        longer.messages == before + state.messages + after,
        eval::scores_of(case, state)[k].passed == Some(true),
    ensures
        eval::scores_of(case, longer)[k].passed == Some(true),
{
    match case.expect[k] {
        ExpectationView::ToolCalled { name } => {
            calls_count_wherever_they_stand(case, state, k, name);
            calls_count_wherever_they_stand(case, longer, k, name);
            let (i, j) = choose|i: int, j: int| is_call_of(state.messages, i, j, name);
            assert(longer.messages[before.len() + i] == state.messages[i]);
            assert(is_call_of(longer.messages, before.len() + i, j, name));
        },
        _ => {},
    }
}

proof fn last_answer(before: Seq<MessageView>, answer: MessageView, after: Seq<MessageView>)
    requires
        answer.role == Role::Assistant,
        forall|i: int| 0 <= i < after.len() ==> (#[trigger] after[i]).role != Role::Assistant,
    ensures
        eval::final_answer(before.push(answer) + after) == Some(answer),
    decreases after.len(),
{
    let all = before.push(answer) + after;
    if after.len() == 0 {
        assert(all.last() == answer);
    } else {
        let fewer = after.drop_last();
        assert(all.last() == after[after.len() - 1]);
        assert forall|i: int| 0 <= i < fewer.len() implies (#[trigger] fewer[i]).role
            != Role::Assistant by {
            assert(fewer[i] == after[i]);
        }
        assert(all.drop_last() =~= before.push(answer) + fewer);
        last_answer(before, answer, fewer);
    }
}

proof fn no_answer(messages: Seq<MessageView>)
    requires
        forall|i: int| 0 <= i < messages.len() ==> (#[trigger] messages[i]).role
            != Role::Assistant,
    ensures
        eval::final_answer(messages) is None,
    decreases messages.len(),
{
    if messages.len() > 0 {
        let fewer = messages.drop_last();
        assert(messages.last() == messages[messages.len() - 1]);
        assert forall|i: int| 0 <= i < fewer.len() implies (#[trigger] fewer[i]).role
            != Role::Assistant by {
            assert(fewer[i] == messages[i]);
        }
        no_answer(fewer);
    }
}

/// What an answer must contain is looked for in the whole text of the last
/// assistant message, whatever stands in front of it and whatever other
/// messages follow it: the expectation passes exactly where that text is
/// something, the needle, and something again.
pub proof fn answers_are_the_last_words(
    case: EvalCaseView,
    state: RunStateView,
    k: int,
    needle: Seq<char>,
    before: Seq<MessageView>,
    answer: MessageView,
    after: Seq<MessageView>,
)
    requires
        0 <= k < case.expect.len(),
        case.expect[k] == (ExpectationView::AnswerContains { needle }),
        state.messages == before.push(answer) + after,
        answer.role == Role::Assistant,
        forall|i: int| 0 <= i < after.len() ==> (#[trigger] after[i]).role != Role::Assistant,
    ensures
        eval::scores_of(case, state)[k].passed == Some(
            exists|head: Seq<char>, tail: Seq<char>|
                message::body_text(answer.content) == #[trigger] (head + needle + tail),
        ),
{
    last_answer(before, answer, after);
    text_laws::occurring_is_standing_between(message::body_text(answer.content), needle);
}

/// A run without an assistant message answers nothing.
pub proof fn silent_runs_answer_nothing(case: EvalCaseView, state: RunStateView, k: int)
    requires
        0 <= k < case.expect.len(),
        case.expect[k] is AnswerContains,
        forall|i: int|
            0 <= i < state.messages.len() ==> (#[trigger] state.messages[i]).role
                != Role::Assistant,
    ensures
        eval::scores_of(case, state)[k].passed == Some(false),
{
    no_answer(state.messages);
}

/// A run is complete exactly where it has a terminal record of success without
/// an error; it keeps within a number of turns exactly where it took no more.
pub proof fn completion_and_turns_are_read_off_the_state(
    case: EvalCaseView,
    state: RunStateView,
    k: int,
)
    requires
        0 <= k < case.expect.len(),
    ensures
        case.expect[k] is RunCompleted ==> eval::scores_of(case, state)[k].passed == Some(
            state.finished is Some && state.finished->0.status == Status::Success
                && state.finished->0.error is None,
        ),
        case.expect[k] matches ExpectationView::TurnsWithin { max } ==> eval::scores_of(
            case,
            state,
        )[k].passed == Some(!(max < state.turns)),
{
}

/// There is one score for every expectation, at its place, under the case's id
/// and a metric that tells the four kinds of expectation apart.
pub proof fn every_expectation_is_scored(case: EvalCaseView, state: RunStateView, k: int)
    requires
        0 <= k < case.expect.len(),
    ensures
        eval::scores_of(case, state).len() == case.expect.len(),
        ({
            let score = eval::scores_of(case, state)[k];
            &&& score.case_id == case.id
            &&& score.metric == (match case.expect[k] {
                ExpectationView::RunCompleted => "run_completed"@,
                ExpectationView::AnswerContains { .. } => "answer_contains"@,
                ExpectationView::ToolCalled { .. } => "tool_called"@,
                ExpectationView::TurnsWithin { .. } => "turns_within"@,
            })
        }),
{
}

/// The two splits of a set are told apart by their words.
pub proof fn splits_are_told_apart(split: EvalSplit)
    ensures
        split == EvalSplit::Search ==> crate::contract::eval::split_text(split) == "search"@,
        split == EvalSplit::Holdout ==> crate::contract::eval::split_text(split) == "holdout"@,
{
}

} // verus!
