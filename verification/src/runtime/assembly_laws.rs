//! What an assembled turn holds, in terms of the stream it came from.
use crate::contract::event::TurnOutcome;
use crate::contract::message;
use crate::contract::message::{ContentPartView, Role, ToolCallView};
use crate::contract::message_laws;
use crate::contract::stream::StreamChunkView;
use crate::json;
use crate::json::ValueView;
use crate::pairs;
use crate::runtime::assembler;
use crate::runtime::assembler::{IndexedCallView, MessageAssemblerView, PartialCallView};
use crate::text;
use vstd::prelude::*;

verus! {

/// The reasoning deltas of a stream, one after another.
pub open spec fn reasoning_of(chunks: Seq<StreamChunkView>) -> Seq<char>
    decreases chunks.len(),
{
    if chunks.len() == 0 {
        Seq::empty()
    } else {
        match chunks.last() {
            StreamChunkView::ReasoningDelta(delta) => reasoning_of(chunks.drop_last()) + delta,
            _ => reasoning_of(chunks.drop_last()),
        }
    }
}

/// The reasoning parts among `parts`, in order.
pub open spec fn reasonings_in(parts: Seq<ContentPartView>) -> Seq<Seq<char>>
    decreases parts.len(),
{
    if parts.len() == 0 {
        Seq::empty()
    } else {
        let before = reasonings_in(parts.drop_last());
        match parts.last() {
            ContentPartView::Reasoning { text } => before.push(text),
            _ => before,
        }
    }
}

/// No reasoning is lost: whatever else streamed in, the assembled reasoning is
/// the reasoning deltas in order.
pub proof fn reasoning_survives(chunks: Seq<StreamChunkView>)
    ensures
        assembler::assembled(chunks).reasoning == reasoning_of(chunks),
    decreases chunks.len(),
{
    if chunks.len() > 0 {
        reasoning_survives(chunks.drop_last());
    }
}

/// The deltas of two streams one after the other are those of the one and then
/// those of the other; a delta on its own is taken as it is, and a chunk of
/// another kind brings neither text nor reasoning.
pub proof fn deltas_add_up(
    a: Seq<StreamChunkView>,
    b: Seq<StreamChunkView>,
    chunk: StreamChunkView,
)
    ensures
        assembler::text_of(a + b) == assembler::text_of(a) + assembler::text_of(b),
        reasoning_of(a + b) == reasoning_of(a) + reasoning_of(b),
        assembler::text_of(seq![chunk]) == (match chunk {
            StreamChunkView::TextDelta(delta) => delta,
            _ => Seq::empty(),
        }),
        reasoning_of(seq![chunk]) == (match chunk {
            StreamChunkView::ReasoningDelta(delta) => delta,
            _ => Seq::empty(),
        }),
    decreases b.len(),
{
    reveal_with_fuel(assembler::text_of, 2);
    reveal_with_fuel(reasoning_of, 2);
    assert(seq![chunk].drop_last() =~= Seq::empty());
    assert(assembler::text_of(seq![chunk]) =~= (match chunk {
        StreamChunkView::TextDelta(delta) => delta,
        _ => Seq::empty(),
    }));
    assert(reasoning_of(seq![chunk]) =~= (match chunk {
        StreamChunkView::ReasoningDelta(delta) => delta,
        _ => Seq::empty(),
    }));
    if b.len() == 0 {
        assert(a + b =~= a);
        assert(assembler::text_of(a) + assembler::text_of(b) =~= assembler::text_of(a));
        assert(reasoning_of(a) + reasoning_of(b) =~= reasoning_of(a));
    } else {
        deltas_add_up(a, b.drop_last(), chunk);
        assert((a + b).drop_last() =~= a + b.drop_last());
        assert((a + b).last() == b.last());
        assert(assembler::text_of(a + b) =~= assembler::text_of(a) + assembler::text_of(b));
        assert(reasoning_of(a + b) =~= reasoning_of(a) + reasoning_of(b));
    }
}

/// A text on its own, or nothing where it is empty.
pub open spec fn unless_empty(s: Seq<char>) -> Seq<Seq<char>> {
    if s.len() == 0 {
        Seq::empty()
    } else {
        seq![s]
    }
}

proof fn reasonings_sum(a: Seq<ContentPartView>, b: Seq<ContentPartView>)
    ensures
        reasonings_in(a + b) == reasonings_in(a) + reasonings_in(b),
    decreases b.len(),
{
    if b.len() == 0 {
        assert(a + b =~= a);
        assert(reasonings_in(a) + reasonings_in(b) =~= reasonings_in(a));
    } else {
        reasonings_sum(a, b.drop_last());
        assert((a + b).drop_last() =~= a + b.drop_last());
        assert((a + b).last() == b.last());
        assert(reasonings_in(a + b) =~= reasonings_in(a) + reasonings_in(b));
    }
}

proof fn calls_are_neither(parts: Seq<ContentPartView>)
    requires
        forall|j: int| 0 <= j < parts.len() ==> #[trigger] parts[j] is ToolCall,
    ensures
        message::texts_in(parts) == Seq::<Seq<char>>::empty(),
        reasonings_in(parts) == Seq::<Seq<char>>::empty(),
    decreases parts.len(),
{
    if parts.len() > 0 {
        assert(parts.last() == parts[parts.len() - 1]);
        assert forall|j: int| 0 <= j < parts.drop_last().len() implies #[trigger]
            parts.drop_last()[j] is ToolCall by {
            assert(parts.drop_last()[j] == parts[j]);
        }
        calls_are_neither(parts.drop_last());
    }
}

/// The message of a turn holds what streamed in: one reasoning part with all
/// reasoning deltas in order, one text part with all text deltas in order,
/// either left out where nothing of it came, and besides them only calls; the
/// reasoning stands in front of the text and the text in front of the calls.
pub proof fn turns_hold_what_streamed_in(chunks: Seq<StreamChunkView>)
    ensures
        ({
            let said = assembler::finished_turn(assembler::assembled(chunks)).message;
            &&& said.role == Role::Assistant
            &&& said.tool_call_id is None
            &&& !said.is_error
            &&& message::texts_in(said.content) == unless_empty(assembler::text_of(chunks))
            &&& message::body_text(said.content) == assembler::text_of(chunks)
            &&& reasonings_in(said.content) == unless_empty(reasoning_of(chunks))
            &&& forall|i: int| 0 <= i < said.content.len() ==> #[trigger] said.content[i] !is Image
            &&& forall|i: int, j: int|
                0 <= i < j < said.content.len() ==> {
                    &&& #[trigger] said.content[i] is ToolCall ==> #[trigger] said.content[
                        j] is ToolCall
                    &&& said.content[j] is Reasoning ==> said.content[i] is Reasoning
                }
        }),
{
    let state = assembler::assembled(chunks);
    assembler::text_survives(chunks);
    reasoning_survives(chunks);
    let thought = if state.reasoning.len() == 0 {
        Seq::empty()
    } else {
        seq![ContentPartView::Reasoning { text: state.reasoning }]
    };
    let spoken = if state.text.len() == 0 {
        Seq::empty()
    } else {
        seq![ContentPartView::Text { text: state.text }]
    };
    let calls = assembler::call_parts(assembler::by_index(state.completed));
    let content = assembler::turn_content(state);
    assert(content == thought + spoken + calls);
    let any = ContentPartView::Text { text: state.text };
    message_laws::texts_are_found_part_by_part(thought + spoken, calls, state.text, any);
    message_laws::texts_are_found_part_by_part(thought, spoken, state.text, any);
    reasonings_sum(thought + spoken, calls);
    reasonings_sum(thought, spoken);
    calls_are_neither(calls);
    assert(message::texts_in(thought) =~= Seq::empty()) by {
        reveal_with_fuel(message::texts_in, 2);
    }
    assert(reasonings_in(spoken) =~= Seq::empty()) by {
        reveal_with_fuel(reasonings_in, 2);
    }
    assert(reasonings_in(thought) =~= unless_empty(state.reasoning)) by {
        reveal_with_fuel(reasonings_in, 2);
        if state.reasoning.len() > 0 {
            assert(thought.drop_last() =~= Seq::empty());
        }
    }
    assert(message::texts_in(spoken) =~= unless_empty(state.text)) by {
        reveal_with_fuel(message::texts_in, 2);
    }
    assert(message::texts_in(content) =~= unless_empty(state.text));
    assert(reasonings_in(content) =~= unless_empty(state.reasoning));
    assert(message::body_text(content) =~= state.text);
}

/// Whether chunk `k` is the last of `chunks` that reports usage.
pub open spec fn last_usage(chunks: Seq<StreamChunkView>, k: int) -> bool {
    &&& 0 <= k < chunks.len()
    &&& chunks[k] is Usage
    &&& forall|i: int| k < i < chunks.len() ==> #[trigger] chunks[i] !is Usage
}

/// Whether chunk `k` is the last of `chunks` that ends the stream.
pub open spec fn last_done(chunks: Seq<StreamChunkView>, k: int) -> bool {
    &&& 0 <= k < chunks.len()
    &&& chunks[k] is Done
    &&& forall|i: int| k < i < chunks.len() ==> #[trigger] chunks[i] !is Done
}

/// The usage and the finish reason of a turn are the last that the stream
/// reported; without a report there is no usage, and the turn counts as
/// stopped.
pub proof fn last_reports_stand(chunks: Seq<StreamChunkView>, k: int)
    ensures
        ({
            let turn = assembler::finished_turn(assembler::assembled(chunks));
            &&& last_usage(chunks, k) ==> turn.usage == Some(chunks[k]->Usage_0)
            &&& (forall|i: int| 0 <= i < chunks.len() ==> #[trigger] chunks[i] !is Usage)
                ==> turn.usage is None
            &&& last_done(chunks, k) ==> turn.finish == chunks[k]->finish
            &&& (forall|i: int| 0 <= i < chunks.len() ==> #[trigger] chunks[i] !is Done)
                ==> turn.finish is Stop
        }),
{
    reports_stand(chunks, k);
}

proof fn reports_stand(chunks: Seq<StreamChunkView>, k: int)
    ensures
        ({
            let state = assembler::assembled(chunks);
            &&& last_usage(chunks, k) ==> state.usage == Some(chunks[k]->Usage_0)
            &&& (forall|i: int| 0 <= i < chunks.len() ==> #[trigger] chunks[i] !is Usage)
                ==> state.usage is None
            &&& last_done(chunks, k) ==> state.finish == Some(chunks[k]->finish)
            &&& (forall|i: int| 0 <= i < chunks.len() ==> #[trigger] chunks[i] !is Done)
                <==> state.finish is None
        }),
    decreases chunks.len(),
{
    if chunks.len() > 0 {
        let before = chunks.drop_last();
        let last = chunks.last();
        reports_stand(before, k);
        assert(chunks[chunks.len() - 1] == last);
        assert(forall|i: int| 0 <= i < before.len() ==> before[i] == chunks[i]);
        if last_usage(chunks, k) && last !is Usage {
            assert(last_usage(before, k));
        }
        if last_done(chunks, k) && last !is Done {
            assert(last_done(before, k));
        }
        if forall|i: int| 0 <= i < chunks.len() ==> #[trigger] chunks[i] !is Usage {
            assert(forall|i: int| 0 <= i < before.len() ==> #[trigger] before[i] !is Usage);
        }
        if forall|i: int| 0 <= i < chunks.len() ==> #[trigger] chunks[i] !is Done {
            assert(forall|i: int| 0 <= i < before.len() ==> #[trigger] before[i] !is Done);
        }
        if last !is Done && (forall|i: int|
            0 <= i < before.len() ==> #[trigger] before[i] !is Done) {
            assert forall|i: int| 0 <= i < chunks.len() implies #[trigger] chunks[i] !is Done by {
                if i < before.len() {
                    assert(before[i] !is Done);
                }
            }
        }
        if exists|i: int| 0 <= i < before.len() && #[trigger] before[i] is Done {
            let i = choose|i: int| 0 <= i < before.len() && #[trigger] before[i] is Done;
            assert(chunks[i] is Done);
        }
    }
}

/// What a vendor sent along is kept: the first value as it is, and of each
/// later object every field wins over an older one of that name while the other
/// fields stay.
pub proof fn vendor_values_are_kept(
    chunks: Seq<StreamChunkView>,
    value: ValueView,
    key: Seq<char>,
)
    ensures
        ({
            let before = assembler::assembled(chunks).opaque;
            let after = assembler::assembled(chunks.push(StreamChunkView::OpaqueDelta(value))).opaque;
            &&& before is None ==> after == Some(value)
            &&& before matches Some(ValueView::Object(older)) ==> value matches ValueView::Object(
                newer,
            ) ==> {
                &&& after matches Some(ValueView::Object(_))
                &&& pairs::lookup(after->0->Object_0, key) == (match json::last_value(newer, key) {
                    Some(text) => Some(text),
                    None => pairs::lookup(older, key),
                })
            }
            &&& value !is Object ==> after == Some(value)
        }),
        ({
            let turn = assembler::finished_turn(assembler::assembled(chunks));
            turn.message.opaque == assembler::assembled(chunks).opaque
        }),
        (forall|i: int| 0 <= i < chunks.len() ==> #[trigger] chunks[i] !is OpaqueDelta)
            ==> assembler::assembled(chunks).opaque is None,
{
    let longer = chunks.push(StreamChunkView::OpaqueDelta(value));
    assert(longer.drop_last() =~= chunks);
    match assembler::assembled(chunks).opaque {
        Some(ValueView::Object(older)) => match value {
            ValueView::Object(newer) => {
                json::merging_overrides(older, newer, key);
            },
            _ => {},
        },
        _ => {},
    }
    if forall|i: int| 0 <= i < chunks.len() ==> #[trigger] chunks[i] !is OpaqueDelta {
        nothing_sent_along(chunks);
    }
}

proof fn nothing_sent_along(chunks: Seq<StreamChunkView>)
    requires
        forall|i: int| 0 <= i < chunks.len() ==> #[trigger] chunks[i] !is OpaqueDelta,
    ensures
        assembler::assembled(chunks).opaque is None,
    decreases chunks.len(),
{
    if chunks.len() > 0 {
        let before = chunks.drop_last();
        assert(chunks[chunks.len() - 1] == chunks.last());
        assert forall|i: int| 0 <= i < before.len() implies #[trigger] before[i] !is OpaqueDelta by {
            assert(before[i] == chunks[i]);
        }
        nothing_sent_along(before);
    }
}

/// A turn is empty exactly where no text, no reasoning and no usable call came;
/// it was truncated where something came but a call was left open or the
/// stream never said that it was done; else it is complete.
pub proof fn outcomes_tell_how_streams_ended(chunks: Seq<StreamChunkView>)
    ensures
        ({
            let state = assembler::assembled(chunks);
            let turn = assembler::finished_turn(state);
            let nothing = assembler::text_of(chunks).len() == 0 && reasoning_of(chunks).len() == 0
                && message::calls_in(turn.message.content).len() == 0;
            let done = exists|i: int| 0 <= i < chunks.len() && #[trigger] chunks[i] is Done;
            &&& turn.outcome == TurnOutcome::Empty <==> nothing
            &&& turn.outcome == TurnOutcome::Content <==> !nothing && done && state.partials.len()
                == 0
            &&& turn.outcome == TurnOutcome::Truncated <==> !nothing && (!done
                || state.partials.len() > 0)
        }),
{
    let state = assembler::assembled(chunks);
    reports_stand(chunks, 0);
    assembler::text_survives(chunks);
    reasoning_survives(chunks);
    assembler::quarantine_keeps_text_and_siblings(state);
    if state.finish is None {
        assert forall|i: int| 0 <= i < chunks.len() implies #[trigger] chunks[i] !is Done by {}
    }
}

/// The argument fragments for the call at `index`, one after another.
pub open spec fn fragments_for(chunks: Seq<StreamChunkView>, index: u32) -> Seq<char>
    decreases chunks.len(),
{
    if chunks.len() == 0 {
        Seq::empty()
    } else {
        let before = fragments_for(chunks.drop_last(), index);
        match chunks.last() {
            StreamChunkView::ToolArgsDelta { index: at, fragment } => if at == index {
                before + fragment
            } else {
                before
            },
            _ => before,
        }
    }
}

/// Whether `chunks` neither start nor end a call at `index`.
pub open spec fn leaves_open(chunks: Seq<StreamChunkView>, index: u32) -> bool {
    forall|i: int|
        0 <= i < chunks.len() ==> match #[trigger] chunks[i] {
            StreamChunkView::ToolCallStart { index: at, .. } => at != index,
            StreamChunkView::ToolCallEnd { index: at } => at != index,
            _ => true,
        }
}

/// A call while it streams in: its start, and whatever chunks follow that
/// neither start nor end a call at its index.
pub open spec fn streaming(
    before: Seq<StreamChunkView>,
    index: u32,
    id: Seq<char>,
    name: Seq<char>,
    middle: Seq<StreamChunkView>,
) -> Seq<StreamChunkView> {
    before.push(StreamChunkView::ToolCallStart { index, id, name }) + middle
}

proof fn calls_stream_in(
    before: Seq<StreamChunkView>,
    index: u32,
    id: Seq<char>,
    name: Seq<char>,
    middle: Seq<StreamChunkView>,
)
    requires
        leaves_open(middle, index),
    ensures
        assembler::open_call(
            assembler::assembled(streaming(before, index, id, name, middle)).partials,
            index,
        ) == Some(PartialCallView { index, id, name, args: fragments_for(middle, index) }),
    decreases middle.len(),
{
    let chunks = streaming(before, index, id, name, middle);
    if middle.len() == 0 {
        assembler::open_calls_have_distinct_indexes(before);
        assembler::started_calls_are_open(assembler::assembled(before), index, id, name);
        assert(chunks.drop_last() =~= before);
        assert(chunks.last() == (StreamChunkView::ToolCallStart { index, id, name }));
    } else {
        let fewer = middle.drop_last();
        let last = middle.last();
        assert(middle[middle.len() - 1] == last);
        assert(leaves_open(fewer, index)) by {
            assert forall|i: int| 0 <= i < fewer.len() implies match #[trigger] fewer[i] {
                StreamChunkView::ToolCallStart { index: at, .. } => at != index,
                StreamChunkView::ToolCallEnd { index: at } => at != index,
                _ => true,
            } by {
                assert(fewer[i] == middle[i]);
            }
        }
        calls_stream_in(before, index, id, name, fewer);
        let shorter = streaming(before, index, id, name, fewer);
        let state = assembler::assembled(shorter);
        assert(chunks.drop_last() =~= shorter);
        assert(chunks.last() == last);
        assembler::open_calls_have_distinct_indexes(shorter);
        assembler::calls_are_separated_by_index(state, last);
        match last {
            StreamChunkView::ToolArgsDelta { index: at, fragment } => {
                if at == index {
                    assembler::fragments_extend_their_call(state, index, fragment);
                }
            },
            _ => {},
        }
    }
}

proof fn sealed_calls_stay(chunks: Seq<StreamChunkView>, after: Seq<StreamChunkView>)
    ensures
        assembler::assembled(chunks).completed.is_prefix_of(
            assembler::assembled(chunks + after).completed,
        ),
        assembler::assembled(chunks).warnings.is_prefix_of(
            assembler::assembled(chunks + after).warnings,
        ),
    decreases after.len(),
{
    if after.len() == 0 {
        assert(chunks + after =~= chunks);
    } else {
        sealed_calls_stay(chunks, after.drop_last());
        assert((chunks + after).drop_last() =~= chunks + after.drop_last());
    }
}

proof fn sorting_loses_none(calls: Seq<IndexedCallView>, k: int)
    requires
        0 <= k < calls.len(),
    ensures
        assembler::by_index(calls).contains(calls[k]),
    decreases calls.len(),
{
    let fewer = calls.drop_last();
    let sorted = assembler::by_index(fewer);
    let at = assembler::place(sorted, calls.last().index);
    assembler::place_bounds(sorted, calls.last().index);
    let after = assembler::by_index(calls);
    if k == calls.len() - 1 {
        assert(after[at] == calls.last());
    } else {
        sorting_loses_none(fewer, k);
        assert(fewer[k] == calls[k]);
        let i = choose|i: int| 0 <= i < sorted.len() && sorted[i] == calls[k];
        if i < at {
            assert(after[i] == sorted[i]);
        } else {
            assert(after[i + 1] == sorted[i]);
        }
    }
}

/// A call that streams in comes out whole: from its start to its end, whatever
/// else streams in between and behind, the turn holds a call with the id and
/// the name it was started with and, as arguments, what its own fragments one
/// after another are the JSON text of; no fragments at all are the empty
/// object.
pub proof fn streamed_calls_come_out_whole(
    before: Seq<StreamChunkView>,
    index: u32,
    id: Seq<char>,
    name: Seq<char>,
    middle: Seq<StreamChunkView>,
    after: Seq<StreamChunkView>,
    arguments: ValueView,
)
    requires
        leaves_open(middle, index),
        ({
            let written = text::trimmed(fragments_for(middle, index));
            ||| written.len() == 0 && arguments == ValueView::Object(Seq::empty())
            ||| written.len() > 0 && json::parsed(written) == Ok::<ValueView, Seq<char>>(arguments)
        }),
    ensures
        ({
            let chunks = streaming(before, index, id, name, middle).push(
                StreamChunkView::ToolCallEnd { index },
            ) + after;
            message::calls_in(
                assembler::finished_turn(assembler::assembled(chunks)).message.content,
            ).contains(ToolCallView { id, name, arguments })
        }),
{
    let open = streaming(before, index, id, name, middle);
    let ended = open.push(StreamChunkView::ToolCallEnd { index });
    let call = ToolCallView { id, name, arguments };
    calls_stream_in(before, index, id, name, middle);
    assert(ended.drop_last() =~= open);
    let sealed = assembler::assembled(ended).completed;
    let at = sealed.len() - 1;
    assert(sealed[at] == IndexedCallView { index, call });
    sealed_calls_stay(ended, after);
    let state = assembler::assembled(ended + after);
    assert(state.completed[at] == sealed[at]);
    sorting_loses_none(state.completed, at);
    let sorted = assembler::by_index(state.completed);
    let i = choose|i: int| 0 <= i < sorted.len() && sorted[i] == state.completed[at];
    assembler::quarantine_keeps_text_and_siblings(state);
    let calls = message::calls_in(assembler::finished_turn(state).message.content);
    assert(calls[i] == call);
}

/// A call whose fragments are not JSON adds no call to the turn but one warning
/// that names it.
pub proof fn malformed_calls_are_set_aside(
    before: Seq<StreamChunkView>,
    index: u32,
    id: Seq<char>,
    name: Seq<char>,
    middle: Seq<StreamChunkView>,
    reason: Seq<char>,
)
    requires
        leaves_open(middle, index),
        text::trimmed(fragments_for(middle, index)).len() > 0,
        json::parsed(text::trimmed(fragments_for(middle, index))) == Err::<ValueView, Seq<char>>(
            reason,
        ),
    ensures
        ({
            let open = assembler::assembled(streaming(before, index, id, name, middle));
            let ended = assembler::assembled(
                streaming(before, index, id, name, middle).push(
                    StreamChunkView::ToolCallEnd { index },
                ),
            );
            &&& ended.completed == open.completed
            &&& ended.warnings == open.warnings.push(
                "tool call "@ + id + " has malformed arguments ("@ + reason
                    + "); call quarantined"@,
            )
        }),
{
    let open = streaming(before, index, id, name, middle);
    let ended = open.push(StreamChunkView::ToolCallEnd { index });
    calls_stream_in(before, index, id, name, middle);
    assert(ended.drop_last() =~= open);
}

/// No call is made up: every call of a turn was ended by the stream, while it
/// was open under its id and name.
pub proof fn calls_are_only_those_ended(chunks: Seq<StreamChunkView>, c: int)
    requires
        0 <= c < assembler::assembled(chunks).completed.len(),
    ensures
        ({
            let made = assembler::assembled(chunks).completed[c];
            exists|k: int|
                0 <= k < chunks.len() && #[trigger] chunks[k] == (StreamChunkView::ToolCallEnd {
                    index: made.index,
                }) && ({
                    let open = assembler::open_call(
                        assembler::assembled(chunks.take(k)).partials,
                        made.index,
                    );
                    open is Some && open->0.id == made.call.id && open->0.name == made.call.name
                })
        }),
    decreases chunks.len(),
{
    let before = chunks.drop_last();
    let last = chunks.len() - 1;
    let state = assembler::assembled(before);
    let made = assembler::assembled(chunks).completed[c];
    assert(chunks.take(last) =~= before);
    if c < state.completed.len() {
        calls_are_only_those_ended(before, c);
        assert(state.completed[c] == made);
        let k = choose|k: int|
            0 <= k < before.len() && #[trigger] before[k] == (StreamChunkView::ToolCallEnd {
                index: made.index,
            }) && ({
                let open = assembler::open_call(
                    assembler::assembled(before.take(k)).partials,
                    made.index,
                );
                open is Some && open->0.id == made.call.id && open->0.name == made.call.name
            });
        assert(before.take(k) =~= chunks.take(k));
        assert(chunks[k] == before[k]);
    } else {
        match chunks.last() {
            StreamChunkView::ToolCallEnd { index } => {
                assembler::slot_bounds(state.partials, index);
                assert(chunks[last] == (StreamChunkView::ToolCallEnd { index: made.index }));
            },
            _ => {},
        }
    }
}

/// What a stream does out of turn is told in one warning each and costs nothing
/// else: arguments for a call that was never started make up a call named by
/// its index, the end of a call that is not open is ignored, and every call
/// left open at the end of the stream is named. A stream's warnings are never
/// taken back.
pub proof fn irregular_streams_are_told(
    chunks: Seq<StreamChunkView>,
    index: u32,
    fragment: Seq<char>,
    after: Seq<StreamChunkView>,
)
    ensures
        ({
            let state = assembler::assembled(chunks);
            let number = text::decimal(index as nat);
            let delta = StreamChunkView::ToolArgsDelta { index, fragment };
            let end = StreamChunkView::ToolCallEnd { index };
            assembler::open_call(state.partials, index) is None ==> {
                &&& assembler::assembled(chunks.push(delta)).warnings == state.warnings.push(
                    "arguments fragment for unknown tool call index "@ + number
                        + "; call synthesized"@,
                )
                &&& assembler::open_call(
                    assembler::assembled(chunks.push(delta)).partials,
                    index,
                ) == Some(
                    PartialCallView {
                        index,
                        id: "call_"@ + number,
                        name: Seq::empty(),
                        args: fragment,
                    },
                )
                &&& assembler::assembled(chunks.push(end)) == (MessageAssemblerView {
                    warnings: state.warnings.push(
                        "tool call end for unknown index "@ + number + "; ignored"@,
                    ),
                    ..state
                })
            }
        }),
        assembler::assembled(chunks).warnings.is_prefix_of(
            assembler::assembled(chunks + after).warnings,
        ),
        ({
            let state = assembler::assembled(chunks);
            let told = assembler::finished_turn(state).warnings;
            &&& told.len() == state.warnings.len() + state.partials.len()
            &&& state.warnings.is_prefix_of(told)
            &&& forall|p: int|
                0 <= p < state.partials.len() ==> #[trigger] told[state.warnings.len() + p]
                    == "stream ended with open tool call "@ + state.partials[p].id + " (index "@
                    + text::decimal(state.partials[p].index as nat) + "); call quarantined"@
        }),
{
    let state = assembler::assembled(chunks);
    let delta = StreamChunkView::ToolArgsDelta { index, fragment };
    let end = StreamChunkView::ToolCallEnd { index };
    assert(chunks.push(delta).drop_last() =~= chunks);
    assert(chunks.push(end).drop_last() =~= chunks);
    assembler::open_calls_have_distinct_indexes(chunks);
    if assembler::open_call(state.partials, index) is None {
        let call = PartialCallView {
            index,
            id: "call_"@ + text::decimal(index as nat),
            name: Seq::empty(),
            args: fragment,
        };
        assembler::with_call_keeps_order(state.partials, call);
    }
    sealed_calls_stay(chunks, after);
}

/// A stream that keeps to the rules raises no warning: deltas, usage and the end
/// never do, a call that starts at a free index does not, nor do fragments of an
/// open call, nor the end of an open call whose fragments are JSON. A call that
/// starts at an index still open is told as a reuse of it.
pub proof fn regular_chunks_raise_no_warning(chunks: Seq<StreamChunkView>, chunk: StreamChunkView)
    ensures
        ({
            let state = assembler::assembled(chunks);
            let after = assembler::assembled(chunks.push(chunk)).warnings;
            match chunk {
                StreamChunkView::ToolCallStart { index, .. } => after == (
                if assembler::open_call(state.partials, index) is Some {
                    state.warnings.push(
                        "tool call index "@ + text::decimal(index as nat)
                            + " reused; previous fragments dropped"@,
                    )
                } else {
                    state.warnings
                }),
                StreamChunkView::ToolArgsDelta { index, .. } => assembler::open_call(
                    state.partials,
                    index,
                ) is Some ==> after == state.warnings,
                StreamChunkView::ToolCallEnd { index } => assembler::open_call(
                    state.partials,
                    index,
                ) matches Some(call) ==> {
                    let written = text::trimmed(call.args);
                    written.len() == 0 || json::parsed(written) is Ok ==> after == state.warnings
                },
                _ => after == state.warnings,
            }
        }),
        !(chunk is ToolCallEnd) ==> assembler::assembled(chunks.push(chunk)).completed
            == assembler::assembled(chunks).completed,
{
    assert(chunks.push(chunk).drop_last() =~= chunks);
}

} // verus!
