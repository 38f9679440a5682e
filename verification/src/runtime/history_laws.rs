//! What replaying a log gives, in terms of the events that are read.
use crate::contract::event::{CommandView, EventKindView, EventView, Status};
use crate::contract::message::{ContentPartView, MessageView, Role};
use crate::contract::state::FinishRecordView;
use crate::json;
use crate::json::ValueView;
use crate::pairs;
use crate::runtime::context;
use crate::runtime::trajectory;
use vstd::prelude::*;

verus! {

/// Whether `event` is new to the log `events`: none of them has its id.
pub open spec fn is_new(events: Seq<EventView>, event: EventView) -> bool {
    forall|k: int| 0 <= k < events.len() ==> (#[trigger] events[k]).id != event.id
}

proof fn new_events_are_applied(events: Seq<EventView>, event: EventView)
    requires
        is_new(events, event),
    ensures
        ({
            let after = trajectory::folded(events.push(event));
            after == trajectory::FoldView {
                seen: trajectory::folded(events).seen.insert(event.id),
                ..trajectory::applied(trajectory::folded(events), event)
            }
        }),
{
    assert(events.push(event).drop_last() =~= events);
    if trajectory::folded(events).seen.contains(event.id) {
        let k = trajectory::seen_ids_are_there(events, event.id);
        assert(events[k].id == event.id);
    }
}

/// A message of one text.
pub open spec fn saying(role: Role, text: Seq<char>) -> MessageView {
    MessageView {
        role,
        content: seq![ContentPartView::Text { text }],
        tool_call_id: None,
        is_error: false,
        opaque: None,
    }
}

/// What one more event adds to the history: a steer speaks as the user, and so
/// does an injected instruction file; a response adds its message as it is; a
/// result adds the answer to its call, an error exactly where the event has
/// one. No other event adds anything, but for the one that opens the run.
pub proof fn history_is_read_from_the_log(events: Seq<EventView>, event: EventView)
    requires
        is_new(events, event),
        !(event.kind matches EventKindView::Command(CommandView::StartRun { .. })),
    ensures
        ({
            let before = trajectory::replayed(events).messages;
            let after = trajectory::replayed(events.push(event)).messages;
            match event.kind {
                EventKindView::Command(CommandView::Steer { text, .. }) => after == before.push(
                    saying(Role::User, text),
                ),
                EventKindView::InstructionInjected { path, content } => after == before.push(
                    saying(Role::User, context::injected_text(path, content)),
                ),
                EventKindView::LlmResponse { message, .. } => after == before.push(message),
                EventKindView::ToolResult { call_id, result } => after == before.push(
                    MessageView {
                        role: Role::Tool,
                        content: seq![
                            ContentPartView::Text {
                                text: match result {
                                    ValueView::String(text) => text,
                                    other => json::rendered(other),
                                },
                            },
                        ],
                        tool_call_id: Some(call_id),
                        is_error: event.error is Some,
                        opaque: None,
                    },
                ),
                _ => after == before,
            }
        }),
{
    new_events_are_applied(events, event);
}

/// The event that opens a run sets the history to the messages of its request
/// and tells the provider and the model; a run is opened once.
pub proof fn runs_open_with_their_request(events: Seq<EventView>, event: EventView)
    requires
        is_new(events, event),
        event.kind matches EventKindView::Command(CommandView::StartRun { .. }),
        forall|k: int|
            0 <= k < events.len() ==> !((#[trigger] events[k]).kind matches EventKindView::Command(
                CommandView::StartRun { .. },
            )),
    ensures
        ({
            let after = trajectory::replayed(events.push(event));
            let text = |key: Seq<char>| match pairs::lookup(event.attributes, key) {
                Some(ValueView::String(text)) => Some(text),
                _ => None,
            };
            &&& event.kind matches EventKindView::Command(CommandView::StartRun { base, .. })
                && after.messages == base.messages
            &&& after.provider == text("selfevol.provider"@)
            &&& after.model == text("selfevol.model"@)
            &&& after.tool_results.len() == 0
        }),
{
    new_events_are_applied(events, event);
    not_opened(events);
}

proof fn not_opened(events: Seq<EventView>)
    requires
        forall|k: int|
            0 <= k < events.len() ==> !((#[trigger] events[k]).kind matches EventKindView::Command(
                CommandView::StartRun { .. },
            )),
    ensures
        !trajectory::folded(events).started,
    decreases events.len(),
{
    if events.len() > 0 {
        let before = events.drop_last();
        assert forall|k: int| 0 <= k < before.len() implies !((
        #[trigger] before[k]).kind matches EventKindView::Command(
            CommandView::StartRun { .. },
        )) by {
            assert(before[k] == events[k]);
        }
        assert(events[events.len() - 1] == events.last());
        not_opened(before);
    }
}

/// What one more event adds to the rest of the state: a successful response a
/// turn, any response its warnings, a score itself, a terminal record the end
/// of the run as it tells it. Every other event leaves them alone.
pub proof fn state_is_read_from_the_log(events: Seq<EventView>, event: EventView)
    requires
        is_new(events, event),
        events.len() > 0,
        trajectory::folded(events).turns < u32::MAX,
    ensures
        ({
            let before = trajectory::replayed(events);
            let after = trajectory::replayed(events.push(event));
            &&& after.trace_id == events[0].trace_id
            &&& after.turns == before.turns + (if event.kind is LlmResponse && event.status
                == Status::Success {
                1int
            } else {
                0
            })
            &&& event.kind matches EventKindView::LlmResponse { warnings, .. } ==> after.warnings
                == before.warnings + warnings
            &&& !(event.kind is LlmResponse) ==> after.warnings == before.warnings
            &&& event.kind matches EventKindView::EvalScore(score) ==> after.scores
                == before.scores.push(score)
            &&& !(event.kind is EvalScore) ==> after.scores == before.scores
            &&& event.kind matches EventKindView::RunFinished { turns } ==> after.finished == Some(
                FinishRecordView { turns, status: event.status, error: event.error },
            )
            &&& !(event.kind is RunFinished) ==> after.finished == before.finished
        }),
{
    new_events_are_applied(events, event);
    assert(events.push(event)[0] == events[0]);
}

proof fn closing_removes_the_first(before: Seq<Seq<char>>, id: Seq<char>, after: Seq<Seq<char>>)
    requires
        !before.contains(id),
    ensures
        trajectory::closed_call(before + seq![id] + after, id) == before + after,
        trajectory::closed_call(before, id) == before,
    decreases before.len(),
{
    let open = before + seq![id] + after;
    if before.len() == 0 {
        assert(open[0] == id);
        assert(open.drop_first() =~= before + after);
    } else {
        let rest = before.drop_first();
        assert(before[0] != id) by {
            assert(before.contains(before[0]));
        }
        if rest.contains(id) {
            let k = choose|k: int| 0 <= k < rest.len() && rest[k] == id;
            assert(before[k + 1] == id);
        }
        closing_removes_the_first(rest, id, after);
        assert(open[0] == before[0]);
        assert(open.drop_first() =~= rest + seq![id] + after);
        assert(seq![before[0]] + (rest + after) =~= before + after);
        assert(seq![before[0]] + rest =~= before);
    }
}

/// A call dangles from its start to its result: a start adds it at the end, a
/// result takes out the first with its id and leaves the others in order, and
/// a result of a call that is not open takes out none.
pub proof fn calls_dangle_until_their_result(
    events: Seq<EventView>,
    event: EventView,
    earlier: Seq<Seq<char>>,
    later: Seq<Seq<char>>,
)
    requires
        is_new(events, event),
    ensures
        ({
            let before = trajectory::replayed(events).dangling_tool_calls;
            let after = trajectory::replayed(events.push(event)).dangling_tool_calls;
            match event.kind {
                EventKindView::ToolCall { call } => after == before.push(call.id),
                EventKindView::ToolResult { call_id, .. } => {
                    &&& before == earlier + seq![call_id] + later && !earlier.contains(call_id)
                        ==> after == earlier + later
                    &&& !before.contains(call_id) ==> after == before
                },
                _ => after == before,
            }
        }),
{
    new_events_are_applied(events, event);
    if let EventKindView::ToolResult { call_id, .. } = event.kind {
        let before = trajectory::replayed(events).dangling_tool_calls;
        if before == earlier + seq![call_id] + later && !earlier.contains(call_id) {
            closing_removes_the_first(earlier, call_id, later);
        }
        if !before.contains(call_id) {
            closing_removes_the_first(before, call_id, later);
        }
    }
}

/// A result that carries an approval's address is listed with it and with its
/// place in the history; one that carries none, or only a part of one, is not.
pub proof fn addressed_results_are_listed(
    events: Seq<EventView>,
    event: EventView,
    request: Seq<char>,
    index: u64,
)
    requires
        is_new(events, event),
        event.kind is ToolResult,
        trajectory::folded(events).messages.len() <= usize::MAX,
        index <= usize::MAX,
    ensures
        ({
            let before = trajectory::replayed(events);
            let after = trajectory::replayed(events.push(event));
            let by = pairs::lookup(event.attributes, "selfevol.approval.request_id"@);
            let at = pairs::lookup(event.attributes, "selfevol.approval.call_index"@);
            &&& by == Some(ValueView::String(request)) && at == Some(json::unsigned_value(index))
                ==> {
                &&& after.tool_results.drop_last() == before.tool_results
                &&& after.tool_results.len() == before.tool_results.len() + 1
                &&& after.tool_results.last().request_id == request
                &&& after.tool_results.last().call_index == index
                &&& after.tool_results.last().message_index == before.messages.len()
            }
            &&& by is None || at is None ==> after.tool_results == before.tool_results
        }),
{
    new_events_are_applied(events, event);
    let before = trajectory::replayed(events).tool_results;
    let after = trajectory::replayed(events.push(event)).tool_results;
    if after.len() == before.len() + 1 {
        assert(after.drop_last() =~= before);
    }
}

/// The anchor is set by every new response: to its turn and to the place that
/// its message takes in the history, or to nothing where it tells no turn. No
/// other event moves it but the one that opens the run.
pub proof fn anchors_follow_the_responses(events: Seq<EventView>, event: EventView)
    requires
        is_new(events, event),
        !(event.kind matches EventKindView::Command(CommandView::StartRun { .. })),
        trajectory::folded(events).messages.len() <= usize::MAX,
    ensures
        ({
            let before = trajectory::anchored(events);
            let after = trajectory::anchored(events.push(event));
            &&& !(event.kind is LlmResponse) ==> after == before
            &&& event.kind is LlmResponse ==> match crate::contract::event::turn_of(event) {
                Some(turn) => after matches Some((told, place)) && told == turn && place
                    == trajectory::replayed(events).messages.len(),
                None => after is None,
            }
        }),
{
    assert(events.push(event).drop_last() =~= events);
    if trajectory::folded(events).seen.contains(event.id) {
        let k = trajectory::seen_ids_are_there(events, event.id);
        assert(events[k].id == event.id);
    }
}

} // verus!
