//! What is folded out of a conversation and what stays of it, in terms of the
//! results and the policy.
use crate::contract::event::{EstimateSource, EventKindView};
use crate::contract::message;
use crate::contract::message::{ContentPartView, MessageView};
use crate::runtime::agent::fold;
use crate::runtime::agent::fold::{
    FoldPlanView, FoldPolicy, FoldStateView, FoldedMessageView, ResultTrackView,
};
use crate::runtime::agent::run::RunView;
use crate::runtime::context;
use crate::runtime::wire;
use crate::text;
use vstd::prelude::*;

verus! {

/// A request weighs what the provider last counted, where it did; else a token
/// for every four bytes of the prefix and of the history as it is sent.
pub proof fn requests_are_weighed(
    state: FoldStateView,
    messages: Seq<MessageView>,
    prefix_bytes: nat,
)
    ensures
        ({
            let (estimate, source) = fold::estimated(state, messages, prefix_bytes);
            let bytes = prefix_bytes + fold::total_bytes(
                fold::sent_history(messages, state.folded),
            );
            &&& state.last_input matches Some(counted) ==> estimate == counted && source
                == EstimateSource::Provider
            &&& state.last_input is None ==> source == EstimateSource::Chars4
            &&& state.last_input is None && bytes / 4 <= u64::MAX ==> 4 * estimate <= bytes < 4 * (
            estimate + 1)
        }),
{
}

/// The bytes of messages add up, each counted as it is written.
pub proof fn bytes_add_up(a: Seq<MessageView>, b: Seq<MessageView>, one: MessageView)
    ensures
        fold::total_bytes(Seq::empty()) == 0,
        fold::total_bytes(seq![one]) == context::bytes_of(wire::message_json(one)).len(),
        fold::total_bytes(a + b) == fold::total_bytes(a) + fold::total_bytes(b),
    decreases b.len(),
{
    reveal_with_fuel(fold::total_bytes, 2);
    assert(seq![one].drop_last() =~= Seq::empty());
    if b.len() == 0 {
        assert(a + b =~= a);
    } else {
        bytes_add_up(a, b.drop_last(), one);
        assert((a + b).drop_last() =~= a + b.drop_last());
        assert((a + b).last() == b.last());
    }
}

/// A fold is due exactly where the request has grown, since the last fold, by
/// the policy's amount or by a tenth of the context, whichever is less, or has
/// reached the policy's share of the context.
pub proof fn folds_are_due_by_growth_or_share(
    estimate: u64,
    baseline: u64,
    max_context: u32,
    policy: FoldPolicy,
)
    ensures
        fold::fold_is_due(estimate, baseline, max_context, policy) <==> {
            ||| estimate >= baseline + policy.growth_max_tokens
            ||| estimate >= baseline + max_context / 10
            ||| policy.growth_max_tokens == 0
            ||| max_context / 10 == 0
            ||| estimate >= max_context * policy.ceiling_percent / 100
        },
{
}

proof fn orders_of_every_track(
    tracks: Seq<ResultTrackView>,
    state: FoldStateView,
    messages: Seq<MessageView>,
    policy: FoldPolicy,
    turn: usize,
    k: int,
) -> (i: int)
    requires
        0 <= k < tracks.len(),
        fold::foldable(tracks[k], state, messages, policy, turn),
    ensures
        0 <= i < fold::orders_for(tracks, state, messages, policy, turn).len(),
        fold::orders_for(tracks, state, messages, policy, turn)[i] == fold::order_for(
            tracks[k],
            messages,
        ),
    decreases tracks.len(),
{
    let before = tracks.drop_last();
    let orders = fold::orders_for(before, state, messages, policy, turn);
    if k == tracks.len() - 1 {
        orders.len() as int
    } else {
        assert(before[k] == tracks[k]);
        let i = orders_of_every_track(before, state, messages, policy, turn, k);
        i
    }
}

/// A fold that is due takes every result that is out of the recent turns, large
/// enough and not folded yet: each is spilled whole, to an artifact named by its
/// place, under its event and its call.
pub proof fn folds_take_every_old_bulky_result(
    state: FoldStateView,
    messages: Seq<MessageView>,
    prefix_bytes: nat,
    max_context: u32,
    policy: FoldPolicy,
    turn: usize,
    k: int,
) -> (i: int)
    requires
        0 <= k < state.tracks.len(),
        state.tracks[k].turn + policy.recent_turns < turn,
        forall|j: int|
            0 <= j < state.folded.len() ==> (#[trigger] state.folded[j]).msg_index
                != state.tracks[k].msg_index,
        context::bytes_of(
            message::body_text(messages[state.tracks[k].msg_index as int].content),
        ).len() >= policy.min_bytes,
        fold::fold_is_due(
            fold::estimated(state, messages, prefix_bytes).0,
            state.baseline,
            max_context,
            policy,
        ),
    ensures
        ({
            let plan = fold::planned(state, messages, prefix_bytes, max_context, policy, turn);
            let track = state.tracks[k];
            &&& plan is Some
            &&& plan->0.estimate == fold::estimated(state, messages, prefix_bytes).0
            &&& plan->0.estimator == fold::estimated(state, messages, prefix_bytes).1
            &&& 0 <= i < plan->0.orders.len()
            &&& plan->0.orders[i].msg_index == track.msg_index
            &&& plan->0.orders[i].event_id == track.event_id
            &&& plan->0.orders[i].call_id == track.call_id
            &&& plan->0.orders[i].name == "m"@ + text::decimal(track.msg_index as nat) + ".txt"@
            &&& plan->0.orders[i].content == message::body_text(
                messages[track.msg_index as int].content,
            )
        }),
{
    nothing_stands_in(state.folded, state.tracks[k].msg_index as int);
    orders_of_every_track(state.tracks, state, messages, policy, turn, k)
}

proof fn nothing_stands_in(folded: Seq<FoldedMessageView>, index: int)
    requires
        forall|j: int| 0 <= j < folded.len() ==> (#[trigger] folded[j]).msg_index != index,
    ensures
        fold::stand_in(folded, index) is None,
    decreases folded.len(),
{
    if folded.len() > 0 {
        let before = folded.drop_last();
        assert(folded[folded.len() - 1] == folded.last());
        assert forall|j: int| 0 <= j < before.len() implies (#[trigger] before[j]).msg_index
            != index by {
            assert(before[j] == folded[j]);
        }
        nothing_stands_in(before, index);
    }
}

proof fn the_only_stand_in(made: Seq<FoldedMessageView>, i: int)
    requires
        0 <= i < made.len(),
        forall|j: int|
            0 <= j < made.len() && j != i ==> (#[trigger] made[j]).msg_index != made[i].msg_index,
    ensures
        fold::stand_in(made, made[i].msg_index as int) == Some(made[i].message),
    decreases made.len(),
{
    if i < made.len() - 1 {
        let before = made.drop_last();
        assert(made[made.len() - 1] == made.last());
        assert(before[i] == made[i]);
        assert forall|j: int| 0 <= j < before.len() && j != i implies (
        #[trigger] before[j]).msg_index != before[i].msg_index by {
            assert(before[j] == made[j]);
        }
        the_only_stand_in(before, i);
    }
}

/// A folded result goes out as a reference: how many bytes were folded and where
/// they are, and then the result itself where it is short, else its first and
/// its last 512 characters. Its place, its role, its call and its error mark
/// stay.
pub proof fn folded_results_go_out_as_references(
    state: FoldStateView,
    messages: Seq<MessageView>,
    plan: FoldPlanView,
    spills: Seq<Seq<char>>,
    i: int,
)
    requires
        0 <= i < plan.orders.len(),
        plan.orders[i].msg_index < messages.len(),
        plan.orders[i].content == message::body_text(
            messages[plan.orders[i].msg_index as int].content,
        ),
        context::bytes_of(plan.orders[i].content).len() <= u64::MAX,
        forall|j: int|
            0 <= j < plan.orders.len() && j != i ==> (#[trigger] plan.orders[j]).msg_index
                != plan.orders[i].msg_index,
    ensures
        ({
            let at = plan.orders[i].msg_index as int;
            let body = plan.orders[i].content;
            let after = fold::folded_state(state, messages, plan, spills);
            let sent = fold::sent_history(messages, after.folded)[at];
            let shown = if body.len() <= 1024 {
                body
            } else {
                body.take(512) + "\n...\n"@ + body.skip(body.len() - 512)
            };
            &&& sent.role == messages[at].role
            &&& sent.tool_call_id == messages[at].tool_call_id
            &&& sent.is_error == messages[at].is_error
            &&& sent.opaque == messages[at].opaque
            &&& sent.content == seq![
                ContentPartView::Text {
                    text: "[COMPRESSED: tool result of "@ + text::decimal(
                        context::bytes_of(body).len(),
                    ) + " bytes folded out of the conversation; full text in "@ + spills[i]
                        + "]\n"@ + shown,
                },
            ]
        }),
{
    let made = fold::stand_ins(messages, plan.orders, spills);
    assert forall|j: int| 0 <= j < made.len() && j != i implies (#[trigger] made[j]).msg_index
        != made[i].msg_index by {
        assert(plan.orders[j].msg_index != plan.orders[i].msg_index);
    }
    the_only_stand_in(made, i);
    fold::stand_in_of_sum(state.folded, made, plan.orders[i].msg_index as int);
}

/// After a fold, growth is counted from what the estimate came down to: a token
/// for every four bytes that the references save, never below nothing. The
/// results and the provider's count stay.
pub proof fn growth_is_counted_from_the_fold(
    state: FoldStateView,
    messages: Seq<MessageView>,
    plan: FoldPlanView,
    spills: Seq<Seq<char>>,
)
    ensures
        ({
            let after = fold::folded_state(state, messages, plan, spills);
            let saved = fold::saved_bytes(
                messages,
                fold::stand_ins(messages, plan.orders, spills),
            ) / 4;
            &&& saved <= plan.estimate ==> after.baseline == plan.estimate - saved
            &&& saved > plan.estimate ==> after.baseline == 0
            &&& after.tracks == state.tracks
            &&& after.last_input == state.last_input
            &&& after.folded.len() == state.folded.len() + plan.orders.len()
        }),
{
}

/// What references save is counted message by message, never below nothing.
pub proof fn savings_add_up(
    messages: Seq<MessageView>,
    made: Seq<FoldedMessageView>,
    more: FoldedMessageView,
)
    ensures
        ({
            let before = wire::message_bytes(messages[more.msg_index as int]) as int;
            let after = wire::message_bytes(more.message) as int;
            fold::saved_bytes(messages, made.push(more)) == fold::saved_bytes(messages, made) + (
            if before > after {
                before - after
            } else {
                0
            })
        }),
        fold::saved_bytes(messages, Seq::empty()) == 0,
{
    assert(made.push(more).drop_last() =~= made);
}

/// A fold is recorded with a reference to every result it takes, in order, and
/// with the estimate that made it due; the history itself stays.
pub proof fn folds_are_recorded(
    run: RunView,
    plan: FoldPlanView,
    spills: Seq<Seq<char>>,
    i: int,
)
    requires
        0 <= i < plan.orders.len(),
        context::bytes_of(plan.orders[i].content).len() <= u64::MAX,
    ensures
        ({
            let after = run.fold_committed(plan, spills);
            &&& after.ledger.log.drop_last() == run.ledger.log
            &&& after.messages == run.messages
            &&& after.ledger.log.last().kind matches EventKindView::Fold {
                folded,
                estimate,
                estimator,
            } && estimate == plan.estimate && estimator == plan.estimator && folded.len()
                == plan.orders.len() && folded[i].event_id == plan.orders[i].event_id
                && folded[i].call_id == plan.orders[i].call_id && folded[i].spill == spills[i]
                && folded[i].original_bytes == context::bytes_of(plan.orders[i].content).len()
        }),
{
    assert(run.fold_committed(plan, spills).ledger.log.drop_last() =~= run.ledger.log);
}

/// There is a plan exactly where a fold is due and some result can be folded.
pub proof fn plans_need_cause_and_matter(
    state: FoldStateView,
    messages: Seq<MessageView>,
    prefix_bytes: nat,
    max_context: u32,
    policy: FoldPolicy,
    turn: usize,
)
    ensures
        fold::planned(state, messages, prefix_bytes, max_context, policy, turn) is Some <==> {
            &&& fold::fold_is_due(
                fold::estimated(state, messages, prefix_bytes).0,
                state.baseline,
                max_context,
                policy,
            )
            &&& exists|k: int|
                0 <= k < state.tracks.len() && fold::foldable(
                    #[trigger] state.tracks[k],
                    state,
                    messages,
                    policy,
                    turn,
                )
        },
{
    let orders = fold::orders_for(state.tracks, state, messages, policy, turn);
    if orders.len() > 0 {
        let k = fold::orders_come_from_tracks(state.tracks, state, messages, policy, turn, 0);
        assert(fold::foldable(state.tracks[k], state, messages, policy, turn));
    }
    if exists|k: int|
        0 <= k < state.tracks.len() && fold::foldable(
            #[trigger] state.tracks[k],
            state,
            messages,
            policy,
            turn,
        ) {
        let k = choose|k: int|
            0 <= k < state.tracks.len() && fold::foldable(
                #[trigger] state.tracks[k],
                state,
                messages,
                policy,
                turn,
            );
        let i = orders_of_every_track(state.tracks, state, messages, policy, turn, k);
    }
}

/// A result can be folded exactly where it is out of the recent turns, nothing
/// stands in for it yet, and its text has the bytes that the policy asks for.
pub proof fn old_bulky_results_can_be_folded(
    track: ResultTrackView,
    state: FoldStateView,
    messages: Seq<MessageView>,
    policy: FoldPolicy,
    turn: usize,
)
    ensures
        fold::foldable(track, state, messages, policy, turn) <==> {
            &&& turn > track.turn + policy.recent_turns
            &&& fold::stand_in(state.folded, track.msg_index as int) is None
            &&& policy.min_bytes <= context::bytes_of(
                message::body_text(messages[track.msg_index as int].content),
            ).len()
        },
{
}

} // verus!
