//! What arrives of a mapped stream: the assembler holds every call under the
//! name it started with and with the arguments that the wire last had, and at
//! the end of the stream the turn has those calls.
use crate::contract::message;
use crate::contract::message::{ContentPartView, ToolCallView};
use crate::contract::stream::StreamChunkView;
use crate::contract::testing;
use crate::openai::map::{StopReasonView, WireUsageView};
use crate::openai::stream_laws;
use crate::openai::stream_map;
use crate::openai::stream_map::{OpenCallView, WireEventView};
use crate::runtime::assembler;
use crate::runtime::assembler::{IndexedCallView, MessageAssemblerView, PartialCallView};
use vstd::prelude::*;

verus! {

/// The identity and the name that the call `index` was last started with.
pub open spec fn beginning(chunks: Seq<StreamChunkView>, index: u32) -> Option<
    (Seq<char>, Seq<char>),
>
    decreases chunks.len(),
{
    if chunks.len() == 0 {
        None
    } else {
        match chunks.last() {
            StreamChunkView::ToolCallStart { index: own, id, name } if own == index => Some(
                (id, name),
            ),
            _ => beginning(chunks.drop_last(), index),
        }
    }
}

proof fn nothing_before_the_start(chunks: Seq<StreamChunkView>, index: u32)
    requires
        testing::disciplined(chunks),
        !testing::started(chunks, index),
    ensures
        stream_laws::pieces(chunks, index) == Seq::<char>::empty(),
    decreases chunks.len(),
{
    if chunks.len() > 0 {
        let before = chunks.drop_last();
        testing::one_more_chunk(before, chunks.last(), index);
        assert(before.push(chunks.last()) =~= chunks);
        nothing_before_the_start(before, index);
    }
}

/// Of a stream in order, the assembler holds every open call under the
/// identity and the name that it started with, and its fragments one after
/// the other.
pub proof fn open_calls_gather_their_fragments(chunks: Seq<StreamChunkView>, index: u32)
    requires
        testing::disciplined(chunks),
        testing::started(chunks, index),
        !testing::ended(chunks, index),
    ensures
        beginning(chunks, index) is Some,
        assembler::open_call(assembler::assembled(chunks).partials, index) == Some(
            PartialCallView {
                index,
                id: beginning(chunks, index).unwrap().0,
                name: beginning(chunks, index).unwrap().1,
                args: stream_laws::pieces(chunks, index),
            },
        ),
    decreases chunks.len(),
{
    let before = chunks.drop_last();
    let chunk = chunks.last();
    let state = assembler::assembled(before);
    testing::one_more_chunk(before, chunk, index);
    assert(before.push(chunk) =~= chunks);
    assembler::open_calls_have_distinct_indexes(before);
    assembler::calls_are_separated_by_index(state, chunk);
    if assembler::routed_to(chunk) == Some(index) {
        match chunk {
            StreamChunkView::ToolCallStart { index: own, id, name } => {
                nothing_before_the_start(before, index);
                assembler::started_calls_are_open(state, index, id, name);
            },
            StreamChunkView::ToolArgsDelta { index: own, fragment } => {
                open_calls_gather_their_fragments(before, index);
                assembler::fragments_extend_their_call(state, index, fragment);
            },
            _ => {},
        }
    } else {
        open_calls_gather_their_fragments(before, index);
    }
}

/// Whether a call with this identity is among those listed.
pub open spec fn listed(calls: Seq<(Seq<char>, Seq<char>)>, id: Seq<char>) -> bool {
    exists|i: int| 0 <= i < calls.len() && (#[trigger] calls[i]).0 == id
}

/// The identities of the calls in the order of their first appearance, each
/// with the name that it first had.
pub open spec fn appeared(events: Seq<WireEventView>) -> Seq<(Seq<char>, Seq<char>)>
    decreases events.len(),
{
    if events.len() == 0 {
        Seq::empty()
    } else {
        let before = appeared(events.drop_last());
        match events.last() {
            WireEventView::ToolCallChunk { call_id, fn_name, .. } if !listed(before, call_id) =>
                before.push((call_id, fn_name)),
            _ => before,
        }
    }
}

/// Whether the calls were started as they appeared.
pub open spec fn introduced(
    seen: Seq<(Seq<char>, Seq<char>)>,
    calls: Seq<OpenCallView>,
    chunks: Seq<StreamChunkView>,
) -> bool {
    &&& calls.len() == seen.len()
    &&& forall|i: int|
        0 <= i < seen.len() ==> calls[i].id == (#[trigger] seen[i]).0 && beginning(
            chunks,
            i as u32,
        ) == Some(seen[i])
}

proof fn one_more_beginning(chunks: Seq<StreamChunkView>, chunk: StreamChunkView, index: u32)
    ensures
        beginning(chunks.push(chunk), index) == (match chunk {
            StreamChunkView::ToolCallStart { index: own, id, name } if own == index => Some(
                (id, name),
            ),
            _ => beginning(chunks, index),
        }),
{
    assert(chunks.push(chunk).drop_last() =~= chunks);
}

proof fn mapped_calls_are_introduced(events: Seq<WireEventView>)
    requires
        forall|k: int| 0 <= k < events.len() ==> #[trigger] events[k] !is End,
        stream_laws::fed(events).0.len() <= 0x1_0000_0000,
    ensures
        introduced(appeared(events), stream_laws::fed(events).0, stream_laws::fed(events).1),
    decreases events.len(),
{
    if events.len() > 0 {
        let earlier = events.drop_last();
        let event = events.last();
        assert(events[events.len() - 1] == event);
        assert forall|k: int| 0 <= k < earlier.len() implies #[trigger] earlier[k] !is End by {
            assert(earlier[k] == events[k]);
        }
        let (calls, chunks) = stream_laws::fed(earlier);
        let (now, added) = stream_map::mapped(calls, event);
        let all = chunks + added;
        let before = appeared(earlier);
        let seen = appeared(events);
        if let WireEventView::ToolCallChunk { call_id, .. } = event {
            stream_laws::index_of_call_found(calls, call_id);
        }
        mapped_calls_are_introduced(earlier);
        if let WireEventView::ToolCallChunk { call_id, .. } = event {
            let at = stream_map::index_of_call(calls, call_id);
            if at < calls.len() {
                assert(before[at].0 == call_id);
                assert(listed(before, call_id));
            } else if listed(before, call_id) {
                let i = choose|i: int| 0 <= i < before.len() && (#[trigger] before[i]).0 == call_id;
                assert(calls[i].id == call_id);
            }
        }
        assert forall|i: int| 0 <= i < seen.len() implies now[i].id == (#[trigger] seen[i]).0
            && beginning(all, i as u32) == Some(seen[i]) by {
            let index = i as u32;
            if i < before.len() {
                assert(before[i] == seen[i]);
                assert(calls[i].id == now[i].id);
            }
            if added.len() == 0 {
                assert(all =~= chunks);
            } else if added.len() == 1 {
                one_more_beginning(chunks, added[0], index);
                assert(all =~= chunks.push(added[0]));
            } else {
                one_more_beginning(chunks, added[0], index);
                one_more_beginning(chunks.push(added[0]), added[1], index);
                assert(all =~= chunks.push(added[0]).push(added[1]));
            }
        }
        assert(stream_laws::fed(events) == (now, all));
    }
}

/// Arguments arrive whole: as long as the arguments of every call only grow,
/// the assembler that is fed the mapped stream holds each call, in the order
/// of their first appearance, with the arguments that the wire last had.
pub proof fn arguments_arrive_whole(events: Seq<WireEventView>, at: int)
    requires
        stream_laws::growing(events),
        stream_laws::fed(events).0.len() <= 0x1_0000_0000,
        0 <= at < stream_laws::fed(events).0.len(),
    ensures
        ({
            let (_, chunks) = stream_laws::fed(events);
            let held = assembler::open_call(
                assembler::assembled(chunks).partials,
                at as u32,
            );
            let (id, name) = appeared(events)[at];
            held == Some(
                PartialCallView {
                    index: at as u32,
                    id,
                    name,
                    args: stream_laws::latest(events, id),
                },
            )
        }),
{
    let (calls, chunks) = stream_laws::fed(events);
    growing_streams_have_not_ended(events);
    stream_laws::fragments_add_up(events);
    stream_laws::the_calls_stay_open(events);
    mapped_calls_are_introduced(events);
    open_calls_gather_their_fragments(chunks, at as u32);
    assert(calls[at].id == appeared(events)[at].0);
}

proof fn growing_streams_have_not_ended(events: Seq<WireEventView>)
    requires
        stream_laws::growing(events),
        stream_laws::fed(events).0.len() <= 0x1_0000_0000,
    ensures
        forall|k: int| 0 <= k < events.len() ==> #[trigger] events[k] !is End,
        forall|k: int|
            0 <= k <= events.len() ==> stream_laws::fed(#[trigger] events.take(k)).0.len()
                <= 0x1_0000_0000,
    decreases events.len(),
{
    assert(events.take(events.len() as int) =~= events);
    if events.len() > 0 {
        let earlier = events.drop_last();
        let (calls, _) = stream_laws::fed(earlier);
        if let WireEventView::ToolCallChunk { call_id, .. } = events.last() {
            stream_laws::index_of_call_found(calls, call_id);
        }
        growing_streams_have_not_ended(earlier);
        assert forall|k: int| 0 <= k < events.len() implies #[trigger] events[k] !is End by {
            if k < earlier.len() {
                assert(earlier[k] == events[k]);
            }
        }
        assert forall|k: int| 0 <= k <= events.len() implies stream_laws::fed(
            #[trigger] events.take(k),
        ).0.len() <= 0x1_0000_0000 by {
            if k < events.len() {
                assert(earlier.take(k) =~= events.take(k));
            }
        }
    }
}

proof fn nothing_is_sealed_before_an_end(chunks: Seq<StreamChunkView>)
    requires
        forall|index: u32| !#[trigger] testing::ended(chunks, index),
    ensures
        assembler::assembled(chunks).completed == Seq::<IndexedCallView>::empty(),
    decreases chunks.len(),
{
    if chunks.len() > 0 {
        let before = chunks.drop_last();
        let chunk = chunks.last();
        assert(before.push(chunk) =~= chunks);
        assert forall|index: u32| !#[trigger] testing::ended(before, index) by {
            testing::one_more_chunk(before, chunk, index);
            assert(!testing::ended(chunks, index));
        }
        nothing_is_sealed_before_an_end(before);
        if let StreamChunkView::ToolCallEnd { index } = chunk {
            testing::one_more_chunk(before, chunk, index);
            assert(!testing::ended(chunks, index));
        }
    }
}

/// The first `count` calls that arrive, in the order of their first
/// appearance: each with the arguments that the wire last had, and without
/// those whose arguments are neither blank nor JSON.
pub open spec fn arrived(events: Seq<WireEventView>, count: nat) -> Seq<ToolCallView>
    decreases count,
{
    if count == 0 {
        Seq::empty()
    } else {
        let before = arrived(events, (count - 1) as nat);
        let (id, name) = appeared(events)[count - 1];
        match assembler::sealed_arguments(stream_laws::latest(events, id)) {
            Ok(arguments) => before.push(ToolCallView { id, name, arguments }),
            Err(_) => before,
        }
    }
}

/// The calls of sealed ones.
pub open spec fn calls_of(sealed: Seq<IndexedCallView>) -> Seq<ToolCallView> {
    sealed.map_values(|c: IndexedCallView| c.call)
}

proof fn ends_seal_in_order(events: Seq<WireEventView>, count: nat)
    requires
        stream_laws::growing(events),
        stream_laws::fed(events).0.len() <= 0x1_0000_0000,
        count <= stream_laws::fed(events).0.len(),
    ensures
        ({
            let (calls, chunks) = stream_laws::fed(events);
            let state = assembler::assembled(chunks + stream_map::call_ends(count));
            &&& calls_of(state.completed) == arrived(events, count)
            &&& assembler::ascending(state.completed)
            &&& forall|i: int|
                0 <= i < state.completed.len() ==> (#[trigger] state.completed[i]).index < count
            &&& forall|index: u32|
                count <= index < calls.len() ==> #[trigger] assembler::open_call(
                    state.partials,
                    index,
                ) == assembler::open_call(assembler::assembled(chunks).partials, index)
        }),
    decreases count,
{
    let (calls, chunks) = stream_laws::fed(events);
    let whole = chunks + stream_map::call_ends(count);
    if count == 0 {
        assert(whole =~= chunks);
        growing_streams_have_not_ended(events);
        stream_laws::the_calls_stay_open(events);
        nothing_is_sealed_before_an_end(chunks);
        assert(calls_of(Seq::empty()) =~= Seq::empty());
    } else {
        let fewer = (count - 1) as nat;
        let index = fewer as u32;
        ends_seal_in_order(events, fewer);
        arguments_arrive_whole(events, fewer as int);
        let before = chunks + stream_map::call_ends(fewer);
        let end = StreamChunkView::ToolCallEnd { index };
        assert(whole.drop_last() =~= before);
        assert(whole.last() == end);
        let state = assembler::assembled(before);
        let after = assembler::assembled(whole);
        assembler::open_calls_have_distinct_indexes(before);
        assembler::calls_are_separated_by_index(state, end);
        assert(assembler::open_call(state.partials, index) == assembler::open_call(
            assembler::assembled(chunks).partials,
            index,
        ));
        assert(calls_of(after.completed) =~= arrived(events, count));
        assert forall|i: int, j: int| 0 <= i <= j < after.completed.len() implies (
        #[trigger] after.completed[i]).index <= (#[trigger] after.completed[j]).index by {
            if j < state.completed.len() {
                assert(after.completed[j] == state.completed[j]);
            }
            if i < state.completed.len() {
                assert(after.completed[i] == state.completed[i]);
            }
        }
        assert forall|i: int| 0 <= i < after.completed.len() implies (
        #[trigger] after.completed[i]).index < count by {
            if i < state.completed.len() {
                assert(after.completed[i] == state.completed[i]);
            }
        }
        assert forall|other: u32| count <= other < calls.len() implies #[trigger] assembler::open_call(
            after.partials,
            other,
        ) == assembler::open_call(assembler::assembled(chunks).partials, other) by {
            assert(assembler::routed_to(end) != Some(other));
            assert(assembler::open_call(after.partials, other) == assembler::open_call(
                state.partials,
                other,
            ));
        }
    }
}

proof fn ascending_calls_stay(calls: Seq<IndexedCallView>)
    requires
        assembler::ascending(calls),
    ensures
        assembler::by_index(calls) == calls,
    decreases calls.len(),
{
    if calls.len() > 0 {
        let fewer = calls.drop_last();
        assert forall|i: int, j: int| 0 <= i <= j < fewer.len() implies (#[trigger] fewer[i]).index
            <= (#[trigger] fewer[j]).index by {
            assert(fewer[i] == calls[i] && fewer[j] == calls[j]);
        }
        ascending_calls_stay(fewer);
        assembler::place_bounds(fewer, calls.last().index);
        let at = assembler::place(fewer, calls.last().index);
        if at < fewer.len() {
            assert(fewer[at] == calls[at]);
            assert(calls[at].index <= calls[calls.len() - 1].index);
        }
        assert(fewer.insert(at, calls.last()) =~= calls);
    } else {
        assert(assembler::by_index(calls) =~= calls);
    }
}

proof fn parts_hold_their_calls(head: Seq<ContentPartView>, calls: Seq<IndexedCallView>)
    requires
        message::calls_in(head) == Seq::<ToolCallView>::empty(),
    ensures
        message::calls_in(head + assembler::call_parts(calls)) == calls_of(calls),
    decreases calls.len(),
{
    let parts = head + assembler::call_parts(calls);
    if calls.len() == 0 {
        assert(parts =~= head);
        assert(calls_of(calls) =~= Seq::empty());
    } else {
        let fewer = calls.drop_last();
        parts_hold_their_calls(head, fewer);
        assert(parts.drop_last() =~= head + assembler::call_parts(fewer));
        assert(parts.last() == ContentPartView::ToolCall { call: calls.last().call });
        assert(calls_of(calls) =~= calls_of(fewer).push(calls.last().call));
    }
}

proof fn turns_hold_their_calls(state: MessageAssemblerView)
    requires
        assembler::ascending(state.completed),
    ensures
        message::calls_in(assembler::turn_content(state)) == calls_of(state.completed),
{
    reveal_with_fuel(message::calls_in, 3);
    ascending_calls_stay(state.completed);
    let reasoning = if state.reasoning.len() == 0 {
        Seq::empty()
    } else {
        seq![ContentPartView::Reasoning { text: state.reasoning }]
    };
    let text = if state.text.len() == 0 {
        Seq::empty()
    } else {
        seq![ContentPartView::Text { text: state.text }]
    };
    let head = reasoning + text;
    if head.len() > 0 {
        assert(head.drop_last() =~= reasoning || head.drop_last() =~= Seq::empty());
        if reasoning.len() > 0 {
            assert(reasoning.drop_last() =~= Seq::empty());
        }
    }
    parts_hold_their_calls(head, state.completed);
}

/// A whole stream: as long as the arguments of every call only grow, what the
/// mapper makes of the events and their end, pushed into an assembler,
/// completes to one call for each identity whose last arguments are blank or
/// JSON, in the order of their first appearance and with those arguments. The
/// indexes are kept in order, and nothing follows the end.
pub proof fn streams_arrive_whole(
    events: Seq<WireEventView>,
    usage: Option<WireUsageView>,
    stop_reason: Option<StopReasonView>,
)
    requires
        stream_laws::growing(events),
        stream_laws::fed(events).0.len() <= 0x1_0000_0000,
    ensures
        ({
            let end = WireEventView::End { usage, stop_reason };
            let chunks = stream_laws::fed(events.push(end)).1;
            let turn = assembler::finished_turn(assembler::assembled(chunks));
            &&& message::calls_in(turn.message.content) == arrived(
                events,
                appeared(events).len(),
            )
            &&& testing::disciplined(chunks)
            &&& chunks.last() is Done
            &&& !testing::done(chunks.drop_last())
        }),
{
    let end = WireEventView::End { usage, stop_reason };
    let all = events.push(end);
    let (calls, chunks) = stream_laws::fed(events);
    assert(all.drop_last() =~= events);
    growing_streams_have_not_ended(events);
    mapped_calls_are_introduced(events);
    ends_seal_in_order(events, calls.len());
    let closed = chunks + stream_map::call_ends(calls.len());
    let last = stream_map::closing(calls.len(), usage, stop_reason);
    let whole = stream_laws::fed(all).1;
    assert(whole == chunks + last);
    let finish = last.last();
    match usage {
        Some(usage) => {
            let counted = StreamChunkView::Usage(crate::openai::map::bucketed(usage));
            assert(whole =~= closed.push(counted).push(finish));
            assert(whole.drop_last() =~= closed.push(counted));
            assert(closed.push(counted).drop_last() =~= closed);
        },
        None => {
            assert(whole =~= closed.push(finish));
            assert(whole.drop_last() =~= closed);
        },
    }
    assert(assembler::assembled(whole).completed == assembler::assembled(closed).completed) by {
        reveal_with_fuel(assembler::assembled, 3);
    }
    turns_hold_their_calls(assembler::assembled(whole));
    assert forall|k: int| 0 <= k < all.len() - 1 implies #[trigger] all[k] !is End by {
        assert(all[k] == events[k]);
    }
    assert forall|k: int| 0 <= k <= all.len() implies stream_laws::fed(
        #[trigger] all.take(k),
    ).0.len() <= 0x1_0000_0000 by {
        if k <= events.len() {
            assert(all.take(k) =~= events.take(k));
        } else {
            assert(all.take(k) =~= all);
        }
    }
    stream_laws::mapped_streams_are_disciplined(all);
    assert(testing::may_follow(whole.drop_last(), whole.last()));
}

} // verus!
