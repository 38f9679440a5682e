//! What the contract's plain values hold, in terms of what they are made of.
use crate::contract::attrs;
use crate::contract::event;
use crate::contract::event::{EventErrorView, EventKindView, EventView, Status};
use crate::contract::live::LiveKindView;
use crate::contract::message;
use crate::contract::message::{ContentPartView, Role};
use crate::contract::request;
use crate::contract::stream::StreamChunkView;
use crate::contract::testing;
use crate::json;
use crate::json::ValueView;
use crate::pairs;
use vstd::prelude::*;

verus! {

/// A text message holds that one text and nothing besides its role.
pub proof fn text_messages_hold_their_text(role: Role, said: Seq<char>)
    ensures
        ({
            let message = message::text_message(role, said);
            &&& message.role == role
            &&& message.content == seq![ContentPartView::Text { text: said }]
            &&& message.tool_call_id is None
            &&& !message.is_error
            &&& message.opaque is None
        }),
{
}

/// A plain request says the one text and leaves all else to the vendor.
pub proof fn plain_requests_say_one_text(said: Seq<char>, max_output_tokens: u32)
    ensures
        ({
            let request = request::plain_request(said, max_output_tokens);
            &&& request.messages == seq![message::text_message(Role::User, said)]
            &&& request.max_output_tokens == max_output_tokens
            &&& request.tools.len() == 0
            &&& request.tool_choice is Auto
            &&& request.parallel_tools is None
            &&& request.output is Text
            &&& request.reasoning is Adaptive
            &&& request.sampling.temperature is None && request.sampling.top_p is None
                && request.sampling.seed is None
            &&& request.cache is Off
            &&& request.extra is Null
        }),
{
}

/// A failed event keeps all but its status and its error; an attribute is read
/// back under its key, and all else stays.
pub proof fn events_are_marked_in_place(
    plain: EventView,
    error: EventErrorView,
    key: Seq<char>,
    value: ValueView,
    other: Seq<char>,
)
    ensures
        ({
            let failed = event::failed(plain, error);
            &&& failed.status == Status::Error
            &&& failed.error == Some(error)
            &&& failed.kind == plain.kind && failed.id == plain.id && failed.seq == plain.seq
                && failed.span_id == plain.span_id && failed.parent_span_id
                == plain.parent_span_id && failed.trace_id == plain.trace_id
                && failed.time_unix_ms == plain.time_unix_ms && failed.attributes
                == plain.attributes
        }),
        ({
            let marked = event::attributed(plain, key, value);
            &&& pairs::lookup(marked.attributes, key) == Some(value)
            &&& other != key ==> pairs::lookup(marked.attributes, other) == pairs::lookup(
                plain.attributes,
                other,
            )
            &&& marked.kind == plain.kind && marked.id == plain.id && marked.error == plain.error
                && marked.status == plain.status
        }),
{
    pairs::lookup_after_put(plain.attributes, key, value, key);
    pairs::lookup_after_put(plain.attributes, key, value, other);
}

/// The turn that an event is marked with is read back from it; an event that is
/// not marked has none.
pub proof fn turns_are_read_back(plain: EventView, turn: u32)
    ensures
        event::turn_of(
            event::attributed(plain, "selfevol.turn"@, json::unsigned_value(turn as u64)),
        ) == Some(turn),
        pairs::lookup(plain.attributes, "selfevol.turn"@) is None ==> event::turn_of(plain) is None,
{
    let value = json::unsigned_value(turn as u64);
    pairs::lookup_after_put(plain.attributes, "selfevol.turn"@, value, "selfevol.turn"@);
    assert(attrs::TURN@ == "selfevol.turn"@);
}

/// The index of the call that a chunk starts.
pub open spec fn starts_at(chunk: StreamChunkView) -> Option<u32> {
    match chunk {
        StreamChunkView::ToolCallStart { index, .. } => Some(index),
        _ => None,
    }
}

/// The index of the call that a chunk ends.
pub open spec fn ends_at(chunk: StreamChunkView) -> Option<u32> {
    match chunk {
        StreamChunkView::ToolCallEnd { index } => Some(index),
        _ => None,
    }
}

/// The index of the call that a chunk continues or ends.
pub open spec fn needs_open(chunk: StreamChunkView) -> Option<u32> {
    match chunk {
        StreamChunkView::ToolArgsDelta { index, .. } => Some(index),
        StreamChunkView::ToolCallEnd { index } => Some(index),
        _ => None,
    }
}

/// Whether chunk `j` is in order: it does not follow the end of the stream, it
/// starts no index again, and where it needs an open call, that call was
/// started before it and not ended.
pub open spec fn in_order(chunks: Seq<StreamChunkView>, j: int) -> bool {
    &&& forall|i: int| 0 <= i < j ==> #[trigger] chunks[i] !is Done
    &&& starts_at(chunks[j]) matches Some(index) ==> forall|i: int|
        0 <= i < j ==> starts_at(#[trigger] chunks[i]) != Some(index)
    &&& needs_open(chunks[j]) matches Some(index) ==> {
        &&& exists|i: int| 0 <= i < j && starts_at(#[trigger] chunks[i]) == Some(index)
        &&& forall|i: int| 0 <= i < j ==> ends_at(#[trigger] chunks[i]) != Some(index)
    }
}

proof fn one_chunk_in_order(before: Seq<StreamChunkView>, chunk: StreamChunkView)
    ensures
        testing::may_follow(before, chunk) <==> in_order(before.push(chunk), before.len() as int),
{
    let all = before.push(chunk);
    let j = before.len() as int;
    assert(all[j] == chunk);
    assert(forall|i: int| 0 <= i < j ==> #[trigger] all[i] == before[i]);
    assert forall|index: u32| testing::started(before, index) <==> exists|i: int|
        0 <= i < j && starts_at(#[trigger] all[i]) == Some(index) by {
        if testing::started(before, index) {
            let k = choose|k: int|
                0 <= k < before.len() && (#[trigger] before[k]
                    matches StreamChunkView::ToolCallStart { index: own, .. } && own == index);
            assert(starts_at(all[k]) == Some(index));
        }
        if exists|i: int| 0 <= i < j && starts_at(#[trigger] all[i]) == Some(index) {
            let i = choose|i: int| 0 <= i < j && starts_at(#[trigger] all[i]) == Some(index);
            assert(before[i] is ToolCallStart);
        }
    }
    assert forall|index: u32| testing::ended(before, index) <==> exists|i: int|
        0 <= i < j && ends_at(#[trigger] all[i]) == Some(index) by {
        if testing::ended(before, index) {
            let k = choose|k: int|
                0 <= k < before.len() && (#[trigger] before[k]
                    matches StreamChunkView::ToolCallEnd { index: own } && own == index);
            assert(ends_at(all[k]) == Some(index));
        }
        if exists|i: int| 0 <= i < j && ends_at(#[trigger] all[i]) == Some(index) {
            let i = choose|i: int| 0 <= i < j && ends_at(#[trigger] all[i]) == Some(index);
            assert(before[i] is ToolCallEnd);
        }
    }
    if testing::done(before) {
        let k = choose|k: int| 0 <= k < before.len() && #[trigger] before[k] is Done;
        assert(all[k] is Done);
    } else {
        assert forall|i: int| 0 <= i < j implies #[trigger] all[i] !is Done by {
            assert(before[i] !is Done);
        }
    }
    match starts_at(chunk) {
        Some(index) => {
            assert(testing::started(before, index) <==> exists|i: int|
                0 <= i < j && starts_at(#[trigger] all[i]) == Some(index));
        },
        None => {},
    }
    match needs_open(chunk) {
        Some(index) => {
            assert(testing::started(before, index) <==> exists|i: int|
                0 <= i < j && starts_at(#[trigger] all[i]) == Some(index));
            assert(testing::ended(before, index) <==> exists|i: int|
                0 <= i < j && ends_at(#[trigger] all[i]) == Some(index));
        },
        None => {},
    }
}

/// A stream keeps its indexes in order exactly where every chunk of it is in
/// order behind those before it.
pub proof fn discipline_is_order_at_every_chunk(chunks: Seq<StreamChunkView>)
    ensures
        testing::disciplined(chunks) <==> forall|j: int|
            0 <= j < chunks.len() ==> #[trigger] in_order(chunks, j),
    decreases chunks.len(),
{
    if chunks.len() > 0 {
        let before = chunks.drop_last();
        let last = chunks.len() - 1;
        discipline_is_order_at_every_chunk(before);
        one_chunk_in_order(before, chunks.last());
        assert(before.push(chunks.last()) =~= chunks);
        assert forall|j: int| 0 <= j < before.len() implies (#[trigger] in_order(chunks, j)
            <==> in_order(before, j)) by {
            assert(forall|i: int| 0 <= i <= j ==> #[trigger] chunks[i] == before[i]);
            same_order(chunks, before, j);
        }
        if forall|j: int| 0 <= j < before.len() ==> #[trigger] in_order(before, j) {
            assert forall|j: int| 0 <= j < before.len() implies #[trigger] in_order(chunks, j) by {
                assert(in_order(before, j));
            }
        }
        if forall|j: int| 0 <= j < chunks.len() ==> #[trigger] in_order(chunks, j) {
            assert forall|j: int| 0 <= j < before.len() implies #[trigger] in_order(before, j) by {
                assert(in_order(chunks, j));
            }
            assert(in_order(chunks, last));
        }
        if testing::disciplined(chunks) {
            assert forall|j: int| 0 <= j < chunks.len() implies #[trigger] in_order(chunks, j) by {
                if j < before.len() {
                    assert(in_order(before, j));
                }
            }
        }
    }
}

proof fn same_order(a: Seq<StreamChunkView>, b: Seq<StreamChunkView>, j: int)
    requires
        0 <= j < a.len(),
        j < b.len(),
        forall|i: int| 0 <= i <= j ==> #[trigger] a[i] == b[i],
    ensures
        in_order(a, j) <==> in_order(b, j),
{
    assert(forall|i: int| 0 <= i <= j ==> #[trigger] b[i] == a[i]);
    if in_order(a, j) {
        if let Some(index) = needs_open(a[j]) {
            let i = choose|i: int| 0 <= i < j && starts_at(#[trigger] a[i]) == Some(index);
            assert(starts_at(b[i]) == Some(index));
        }
    }
    if in_order(b, j) {
        if let Some(index) = needs_open(b[j]) {
            let i = choose|i: int| 0 <= i < j && starts_at(#[trigger] b[i]) == Some(index);
            assert(starts_at(a[i]) == Some(index));
        }
    }
}

/// An item of the scripted run holds what it is given: its position is that of
/// its event, the event has the given kind and the given turn, and an increment
/// is one of the given turn. An answer holds the one text.
pub proof fn scripted_items_hold_what_they_are_given(
    seq: u64,
    kind: EventKindView,
    turn: u32,
    chunk: StreamChunkView,
    answer: Seq<char>,
)
    ensures
        ({
            let item = testing::recorded_item(seq, kind, Some(turn as u64));
            &&& item.seq == seq
            &&& item.kind is Recorded
            &&& item.kind->event.seq == seq
            &&& item.kind->event.kind == kind
            &&& item.kind->event.trace_id == item.trace_id
            &&& event::turn_of(item.kind->event) == Some(turn)
        }),
        testing::recorded_item(seq, kind, None).kind->event.kind == kind,
        testing::recorded_item(seq, kind, None).kind->event.attributes.len() == 0,
        testing::delta_item(seq, turn, chunk).seq == seq,
        testing::delta_item(seq, turn, chunk).kind == (LiveKindView::AssistantDelta {
            turn,
            chunk,
        }),
        ({
            let item = testing::answer_item(seq, turn, answer);
            &&& item.seq == seq
            &&& item.kind is Recorded
            &&& event::turn_of(item.kind->event) == Some(turn)
            &&& item.kind->event.kind is LlmResponse
            &&& item.kind->event.kind->message.content == seq![
                ContentPartView::Text { text: answer },
            ]
        }),
        testing::tail_in_order(testing::sync_script(), 0),
{
    let plain = testing::recorded_item(seq, kind, None).kind->event;
    turns_are_read_back(plain, turn);
    let item = testing::answer_item(seq, turn, answer);
    let spoken = testing::recorded_item(seq, item.kind->event.kind, None).kind->event;
    turns_are_read_back(spoken, turn);
}

/// A typed attribute is read where the value under its key is of that type.
pub proof fn attributes_are_read_by_type(
    attributes: Seq<(Seq<char>, ValueView)>,
    key: Seq<char>,
    said: Seq<char>,
    n: u64,
)
    ensures
        event::string_under(attributes, key) == Some(said) <==> pairs::lookup(attributes, key)
            == Some(ValueView::String(said)),
        pairs::lookup(attributes, key) == Some(json::unsigned_value(n)) ==> event::unsigned_under(
            attributes,
            key,
        ) == Some(n),
        !(pairs::lookup(attributes, key) matches Some(ValueView::Number { .. }))
            ==> event::unsigned_under(attributes, key) is None,
{
}

} // verus!
