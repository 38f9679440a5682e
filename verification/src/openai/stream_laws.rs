//! What holds of a whole mapped stream: the fragments of a call add up to its
//! arguments, and the indexes are kept in order.
use crate::contract::stream::StreamChunkView;
use crate::contract::testing;
use crate::openai::stream_map;
use crate::openai::stream_map::{OpenCallView, WireEventView};
use crate::runtime::context;
use vstd::prelude::*;

verus! {

/// The state of a fresh mapper and all its chunks after the given events.
pub open spec fn fed(events: Seq<WireEventView>) -> (Seq<OpenCallView>, Seq<StreamChunkView>)
    decreases events.len(),
{
    if events.len() == 0 {
        (Seq::empty(), Seq::empty())
    } else {
        let before = fed(events.drop_last());
        let step = stream_map::mapped(before.0, events.last());
        (step.0, before.1 + step.1)
    }
}

/// The arguments of the call `id` as the last event about it has them.
pub open spec fn latest(events: Seq<WireEventView>, id: Seq<char>) -> Seq<char>
    decreases events.len(),
{
    if events.len() == 0 {
        Seq::empty()
    } else {
        match events.last() {
            WireEventView::ToolCallChunk { call_id, fn_arguments, .. } if call_id == id =>
                stream_map::accumulated(fn_arguments),
            _ => latest(events.drop_last(), id),
        }
    }
}

/// Whether `whole` starts with `head`.
pub open spec fn starts_with(whole: Seq<char>, head: Seq<char>) -> bool {
    head.len() <= whole.len() && whole.take(head.len() as int) == head
}

/// Whether an event adds to what the events before it had accumulated.
pub open spec fn adds(before: Seq<WireEventView>, event: WireEventView) -> bool {
    match event {
        WireEventView::ToolCallChunk { call_id, fn_arguments, .. } => starts_with(
            stream_map::accumulated(fn_arguments),
            latest(before, call_id),
        ),
        _ => true,
    }
}

/// Whether the arguments of every call only ever grow, and the stream has not
/// ended.
pub open spec fn growing(events: Seq<WireEventView>) -> bool
    decreases events.len(),
{
    events.len() > 0 ==> {
        &&& growing(events.drop_last())
        &&& events.last() !is End
        &&& adds(events.drop_last(), events.last())
    }
}

/// The fragments of the call `index`, one after the other.
pub open spec fn pieces(chunks: Seq<StreamChunkView>, index: u32) -> Seq<char>
    decreases chunks.len(),
{
    if chunks.len() == 0 {
        Seq::empty()
    } else {
        let before = pieces(chunks.drop_last(), index);
        match chunks.last() {
            StreamChunkView::ToolArgsDelta { index: own, fragment } if own == index => before
                + fragment,
            _ => before,
        }
    }
}

proof fn one_more_piece(chunks: Seq<StreamChunkView>, chunk: StreamChunkView, index: u32)
    ensures
        pieces(chunks.push(chunk), index) == (match chunk {
            StreamChunkView::ToolArgsDelta { index: own, fragment } if own == index => pieces(
                chunks,
                index,
            ) + fragment,
            _ => pieces(chunks, index),
        }),
{
    assert(chunks.push(chunk).drop_last() =~= chunks);
}

proof fn bytes_of_a_sum(a: Seq<char>, b: Seq<char>)
    ensures
        context::bytes_of(a + b) == context::bytes_of(a) + context::bytes_of(b),
    decreases a.len(),
{
    if a.len() == 0 {
        assert(a + b =~= b);
        assert(context::bytes_of(a) + context::bytes_of(b) =~= context::bytes_of(b));
    } else {
        assert((a + b).drop_first() =~= a.drop_first() + b);
        bytes_of_a_sum(a.drop_first(), b);
        assert(context::bytes_of(a + b) =~= context::bytes_of(a) + context::bytes_of(b));
    }
}

proof fn a_head_ends_at_a_character(head: Seq<char>, rest: Seq<char>)
    ensures
        vstd::utf8::is_char_boundary(
            context::bytes_of(head + rest),
            context::bytes_of(head).len() as int,
        ),
    decreases head.len(),
{
    let bytes = context::bytes_of(head + rest);
    vstd::utf8::encode_utf8_valid_utf8(head + rest);
    bytes_of_a_sum(head, rest);
    if head.len() > 0 {
        vstd::utf8::encode_utf8_first_scalar(head + rest);
        assert((head + rest).drop_first() =~= head.drop_first() + rest);
        let tail = context::bytes_of(head.drop_first() + rest);
        assert(vstd::utf8::pop_first_scalar(bytes) =~= tail);
        a_head_ends_at_a_character(head.drop_first(), rest);
    }
}

/// Where `args` starts with what was passed on, what is passed on next is the
/// rest of it.
pub proof fn the_rest_follows(args: Seq<char>, head: Seq<char>)
    requires
        starts_with(args, head),
    ensures
        head + stream_map::from_byte(args, context::bytes_of(head).len()) == args,
        context::bytes_of(head).len() <= context::bytes_of(args).len(),
        context::bytes_of(head).len() == context::bytes_of(args).len() ==> head == args,
        vstd::utf8::is_char_boundary(
            context::bytes_of(args),
            context::bytes_of(head).len() as int,
        ),
{
    let rest = args.skip(head.len() as int);
    assert(args =~= head + rest);
    bytes_of_a_sum(head, rest);
    let bytes = context::bytes_of(args);
    let sent = context::bytes_of(head).len();
    assert(bytes.subrange(sent as int, bytes.len() as int) =~= context::bytes_of(rest));
    vstd::utf8::encode_utf8_decode_utf8(rest);
    a_head_ends_at_a_character(head, rest);
    if sent == bytes.len() {
        assert(context::bytes_of(rest).len() == 0);
        if rest.len() > 0 {
            vstd::utf8::encode_utf8_first_scalar(rest);
        }
        assert(rest =~= Seq::empty());
    }
}

/// What a mapper remembers of the events it was fed.
pub open spec fn remembers(
    events: Seq<WireEventView>,
    calls: Seq<OpenCallView>,
    chunks: Seq<StreamChunkView>,
) -> bool {
    &&& forall|i: int, j: int|
        0 <= i < j < calls.len() ==> (#[trigger] calls[i]).id != (#[trigger] calls[j]).id
    &&& forall|i: int|
        0 <= i < calls.len() ==> pieces(chunks, i as u32) == latest(
            events,
            (#[trigger] calls[i]).id,
        )
    &&& forall|i: int|
        0 <= i < calls.len() ==> (#[trigger] calls[i]).sent == context::bytes_of(
            latest(events, calls[i].id),
        ).len()
    &&& forall|i: int|
        #![trigger pieces(chunks, i as u32)]
        calls.len() <= i <= u32::MAX ==> pieces(chunks, i as u32) == Seq::<char>::empty()
    &&& forall|id: Seq<char>| #[trigger]
        latest(events, id).len() > 0 ==> stream_map::index_of_call(calls, id) < calls.len()
}

pub(crate) proof fn index_of_call_found(calls: Seq<OpenCallView>, id: Seq<char>)
    ensures
        0 <= stream_map::index_of_call(calls, id) <= calls.len(),
        stream_map::index_of_call(calls, id) < calls.len() ==> calls[stream_map::index_of_call(
            calls,
            id,
        )].id == id,
        forall|j: int|
            0 <= j < stream_map::index_of_call(calls, id) ==> (#[trigger] calls[j]).id != id,
    decreases calls.len(),
{
    if calls.len() > 0 && calls[0].id != id {
        let rest = calls.drop_first();
        index_of_call_found(rest, id);
        let at = stream_map::index_of_call(calls, id);
        assert forall|j: int| 0 <= j < at implies (#[trigger] calls[j]).id != id by {
            if j > 0 {
                assert(calls[j] == rest[j - 1]);
            }
        }
        if at < calls.len() {
            assert(calls[at] == rest[at - 1]);
        }
    }
}

/// The fragments of every call add up to its arguments as the wire last had
/// them, however the calls were interleaved, and every such event could be
/// mapped.
#[verifier::rlimit(40)]
pub proof fn fragments_add_up(events: Seq<WireEventView>)
    requires
        growing(events),
        fed(events).0.len() <= 0x1_0000_0000,
    ensures
        remembers(events, fed(events).0, fed(events).1),
        forall|k: int|
            0 <= k < events.len() ==> stream_map::acceptable(
                fed(events.take(k)).0,
                #[trigger] events[k],
            ),
    decreases events.len(),
{
    if events.len() > 0 {
        let earlier = events.drop_last();
        let event = events.last();
        let (calls, chunks) = fed(earlier);
        let step = stream_map::mapped(calls, event);
        let (now, all) = fed(events);
        assert(step.0 == now && all == chunks + step.1);
        assert(calls.len() <= now.len()) by {
            if let WireEventView::ToolCallChunk { call_id, .. } = event {
                index_of_call_found(calls, call_id);
            }
        }
        fragments_add_up(earlier);
        match event {
            WireEventView::ToolCallChunk { call_id, fn_name, fn_arguments } => {
                let args = stream_map::accumulated(fn_arguments);
                let head = latest(earlier, call_id);
                let at = stream_map::index_of_call(calls, call_id);
                index_of_call_found(calls, call_id);
                the_rest_follows(args, head);
                assert forall|id: Seq<char>| id != call_id implies latest(events, id) == #[trigger] latest(
                    earlier,
                    id,
                ) by {}
                assert(latest(events, call_id) == args);
                if at >= calls.len() {
                    assert(head.len() == 0);
                    a_new_call(earlier, events, calls, chunks, call_id, fn_name, args);
                } else {
                    a_known_call(earlier, events, calls, chunks, call_id, fn_name, args, at);
                }
            },
            _ => {
                assert forall|id: Seq<char>| #[trigger] latest(events, id) == latest(earlier, id) by {}
                assert(now == calls);
                other_chunks_add_nothing(chunks, step.1);
                assert forall|i: int|
                    #![trigger pieces(all, i as u32)]
                    calls.len() <= i <= u32::MAX implies pieces(all, i as u32)
                    == Seq::<char>::empty() by {
                    assert(pieces(chunks, i as u32) == Seq::<char>::empty());
                }
            },
        }
        assert forall|k: int| 0 <= k < events.len() implies stream_map::acceptable(
            fed(events.take(k)).0,
            #[trigger] events[k],
        ) by {
            if k < earlier.len() {
                assert(events.take(k) =~= earlier.take(k));
                assert(events[k] == earlier[k]);
            } else {
                assert(events.take(k) =~= earlier);
            }
        }
    }
}

proof fn other_chunks_add_nothing(chunks: Seq<StreamChunkView>, more: Seq<StreamChunkView>)
    requires
        forall|k: int| 0 <= k < more.len() ==> #[trigger] more[k] !is ToolArgsDelta,
    ensures
        forall|index: u32| #[trigger] pieces(chunks + more, index) == pieces(chunks, index),
    decreases more.len(),
{
    if more.len() == 0 {
        assert(chunks + more =~= chunks);
    } else {
        let fewer = more.drop_last();
        assert forall|k: int| 0 <= k < fewer.len() implies #[trigger] fewer[k] !is ToolArgsDelta by {
            assert(fewer[k] == more[k]);
        }
        other_chunks_add_nothing(chunks, fewer);
        assert(chunks + more =~= (chunks + fewer).push(more.last()));
        assert(more[more.len() - 1] == more.last());
        assert forall|index: u32| #[trigger] pieces(chunks + more, index) == pieces(chunks, index) by {
            one_more_piece(chunks + fewer, more.last(), index);
            assert(pieces(chunks + fewer, index) == pieces(chunks, index));
        }
    }
}

proof fn a_new_call(
    earlier: Seq<WireEventView>,
    events: Seq<WireEventView>,
    calls: Seq<OpenCallView>,
    chunks: Seq<StreamChunkView>,
    id: Seq<char>,
    name: Seq<char>,
    args: Seq<char>,
)
    requires
        remembers(earlier, calls, chunks),
        calls.len() < 0x1_0000_0000,
        stream_map::index_of_call(calls, id) >= calls.len(),
        forall|other: Seq<char>|
            other != id ==> latest(events, other) == #[trigger] latest(earlier, other),
        latest(events, id) == args,
    ensures
        remembers(
            events,
            stream_map::with_call(calls, id, name, args).0,
            chunks + stream_map::with_call(calls, id, name, args).1,
        ),
{
    let step = stream_map::with_call(calls, id, name, args);
    let now = step.0;
    let all = chunks + step.1;
    let index = calls.len() as u32;
    let start = StreamChunkView::ToolCallStart { index, id, name };
    let delta = StreamChunkView::ToolArgsDelta { index, fragment: args };
    index_of_call_found(calls, id);
    assert forall|i: u32| #[trigger] pieces(all, i) == pieces(chunks, i) + (if i == index {
        args
    } else {
        Seq::empty()
    }) by {
        one_more_piece(chunks, start, i);
        if args.len() == 0 {
            assert(all =~= chunks.push(start));
            assert(args =~= Seq::empty());
            assert(pieces(chunks, i) + Seq::empty() =~= pieces(chunks, i));
        } else {
            one_more_piece(chunks.push(start), delta, i);
            assert(all =~= chunks.push(start).push(delta));
            assert(pieces(chunks, i) + Seq::empty() =~= pieces(chunks, i));
        }
    }
    assert forall|i: int, j: int| 0 <= i < j < now.len() implies (#[trigger] now[i]).id != (
    #[trigger] now[j]).id by {
        assert(now[i] == calls[i]);
        if j < calls.len() {
            assert(now[j] == calls[j]);
        }
    }
    assert forall|i: int| 0 <= i < now.len() implies pieces(all, i as u32) == latest(
        events,
        (#[trigger] now[i]).id,
    ) by {
        if i < calls.len() {
            assert(now[i] == calls[i]);
            assert(calls[i].id != id);
            assert(pieces(chunks, i as u32) == latest(earlier, calls[i].id));
            assert(pieces(chunks, i as u32) + Seq::empty() =~= pieces(chunks, i as u32));
        } else {
            assert(pieces(chunks, i as u32) == Seq::<char>::empty());
            assert(Seq::<char>::empty() + args =~= args);
        }
    }
    assert forall|i: int| 0 <= i < now.len() implies (#[trigger] now[i]).sent
        == context::bytes_of(latest(events, now[i].id)).len() by {
        if i < calls.len() {
            assert(now[i] == calls[i]);
            assert(calls[i].id != id);
        }
    }
    assert forall|i: int|
        #![trigger pieces(all, i as u32)]
        now.len() <= i <= u32::MAX implies pieces(all, i as u32) == Seq::<char>::empty() by {
        assert(pieces(chunks, i as u32) == Seq::<char>::empty());
        assert(Seq::<char>::empty() + Seq::empty() =~= Seq::<char>::empty());
    }
    assert forall|other: Seq<char>| #[trigger]
        latest(events, other).len() > 0 implies stream_map::index_of_call(now, other)
        < now.len() by {
        index_of_call_found(now, other);
        if other == id {
            assert(now[calls.len() as int].id == id);
        } else {
            assert(latest(earlier, other).len() > 0);
            index_of_call_found(calls, other);
            let k = stream_map::index_of_call(calls, other);
            assert(now[k] == calls[k]);
        }
    }
}

#[verifier::rlimit(40)]
proof fn a_known_call(
    earlier: Seq<WireEventView>,
    events: Seq<WireEventView>,
    calls: Seq<OpenCallView>,
    chunks: Seq<StreamChunkView>,
    id: Seq<char>,
    name: Seq<char>,
    args: Seq<char>,
    at: int,
)
    requires
        remembers(earlier, calls, chunks),
        calls.len() <= 0x1_0000_0000,
        at == stream_map::index_of_call(calls, id),
        at < calls.len(),
        starts_with(args, latest(earlier, id)),
        forall|other: Seq<char>|
            other != id ==> latest(events, other) == #[trigger] latest(earlier, other),
        latest(events, id) == args,
    ensures
        remembers(
            events,
            stream_map::with_call(calls, id, name, args).0,
            chunks + stream_map::with_call(calls, id, name, args).1,
        ),
{
    let step = stream_map::with_call(calls, id, name, args);
    let now = step.0;
    let all = chunks + step.1;
    let head = latest(earlier, id);
    index_of_call_found(calls, id);
    the_rest_follows(args, head);
    assert(calls[at].sent == context::bytes_of(head).len());
    let length = context::bytes_of(args).len();
    let rest = stream_map::from_byte(args, calls[at].sent);
    if length <= calls[at].sent {
        assert(head == args);
        assert(all =~= chunks);
        assert(forall|i: int| 0 <= i < now.len() ==> now[i] == calls[i]);
    } else {
        let delta = StreamChunkView::ToolArgsDelta { index: at as u32, fragment: rest };
        assert(all =~= chunks.push(delta));
        assert forall|i: u32| #[trigger] pieces(all, i) == (if i == at as u32 {
            pieces(chunks, i) + rest
        } else {
            pieces(chunks, i)
        }) by {
            one_more_piece(chunks, delta, i);
        }
    }
    assert forall|i: int, j: int| 0 <= i < j < now.len() implies (#[trigger] now[i]).id != (
    #[trigger] now[j]).id by {
        assert(now[i].id == calls[i].id && now[j].id == calls[j].id);
    }
    assert forall|i: int| 0 <= i < now.len() implies pieces(all, i as u32) == latest(
        events,
        (#[trigger] now[i]).id,
    ) by {
        assert(now[i].id == calls[i].id);
        assert(pieces(chunks, i as u32) == latest(earlier, calls[i].id));
        if i != at {
            assert(calls[i].id != id);
        }
    }
    assert forall|i: int| 0 <= i < now.len() implies (#[trigger] now[i]).sent
        == context::bytes_of(latest(events, now[i].id)).len() by {
        assert(now[i].id == calls[i].id);
        if i != at {
            assert(calls[i].id != id);
            assert(now[i] == calls[i]);
        }
    }
    assert forall|i: int|
        #![trigger pieces(all, i as u32)]
        now.len() <= i <= u32::MAX implies pieces(all, i as u32) == Seq::<char>::empty() by {
        assert(pieces(chunks, i as u32) == Seq::<char>::empty());
    }
    assert forall|other: Seq<char>| #[trigger]
        latest(events, other).len() > 0 implies stream_map::index_of_call(now, other)
        < now.len() by {
        index_of_call_found(now, other);
        if other == id {
            assert(now[at].id == id);
        } else {
            assert(latest(earlier, other).len() > 0);
            index_of_call_found(calls, other);
            let k = stream_map::index_of_call(calls, other);
            assert(now[k].id == calls[k].id);
        }
    }
}

/// Whether the chunks started exactly the given calls and ended none.
pub open spec fn open_exactly(chunks: Seq<StreamChunkView>, count: nat) -> bool {
    &&& testing::disciplined(chunks)
    &&& !testing::done(chunks)
    &&& forall|index: u32| #[trigger] testing::started(chunks, index) <==> index < count
    &&& forall|index: u32| !#[trigger] testing::ended(chunks, index)
}

/// Whether no event but the last is the end of the stream.
pub open spec fn ends_once(events: Seq<WireEventView>) -> bool {
    forall|k: int| 0 <= k < events.len() - 1 ==> #[trigger] events[k] !is End
}

/// A mapped stream keeps the index discipline, whatever the wire accumulates.
pub proof fn mapped_streams_are_disciplined(events: Seq<WireEventView>)
    requires
        ends_once(events),
        forall|k: int| 0 <= k <= events.len() ==> fed(#[trigger] events.take(k)).0.len() <= 0x1_0000_0000,
    ensures
        testing::disciplined(fed(events).1),
        events.len() > 0 && events.last() is End ==> testing::done(fed(events).1),
{
    if events.len() > 0 {
        let earlier = events.drop_last();
        assert(earlier =~= events.take(events.len() - 1));
        assert forall|k: int| 0 <= k < earlier.len() implies #[trigger] earlier[k] !is End by {
            assert(earlier[k] == events[k]);
        }
        assert forall|k: int| 0 <= k <= earlier.len() implies fed(#[trigger] earlier.take(k)).0.len()
            <= 0x1_0000_0000 by {
            assert(earlier.take(k) =~= events.take(k));
        }
        the_calls_stay_open(earlier);
        let (calls, chunks) = fed(earlier);
        match events.last() {
            WireEventView::End { usage, stop_reason } => {
                let ends = stream_map::call_ends(calls.len());
                the_calls_end(chunks, calls.len(), calls.len());
                let closed = chunks + ends;
                let last = stream_map::closing(calls.len(), usage, stop_reason);
                let finish = last.last();
                match usage {
                    Some(usage) => {
                        let counted = StreamChunkView::Usage(crate::openai::map::bucketed(usage));
                        testing::one_more_chunk(closed, counted, 0);
                        testing::one_more_chunk(closed.push(counted), finish, 0);
                        assert(chunks + last =~= closed.push(counted).push(finish));
                    },
                    None => {
                        testing::one_more_chunk(closed, finish, 0);
                        assert(chunks + last =~= closed.push(finish));
                    },
                }
            },
            _ => {
                assert forall|k: int| 0 <= k < events.len() implies #[trigger] events[k] !is End by {
                    if k < earlier.len() {
                        assert(earlier[k] == events[k]);
                    }
                }
                the_calls_stay_open(events);
            },
        }
    }
}

proof fn the_calls_end(chunks: Seq<StreamChunkView>, count: nat, upto: nat)
    requires
        open_exactly(chunks, count),
        upto <= count <= 0x1_0000_0000,
    ensures
        testing::disciplined(chunks + stream_map::call_ends(upto)),
        !testing::done(chunks + stream_map::call_ends(upto)),
        forall|index: u32| #[trigger]
            testing::started(chunks + stream_map::call_ends(upto), index) <==> index < count,
        forall|index: u32| #[trigger]
            testing::ended(chunks + stream_map::call_ends(upto), index) <==> index < upto,
    decreases upto,
{
    if upto == 0 {
        assert(chunks + stream_map::call_ends(0) =~= chunks);
    } else {
        let fewer = (upto - 1) as nat;
        the_calls_end(chunks, count, fewer);
        let before = chunks + stream_map::call_ends(fewer);
        let last = StreamChunkView::ToolCallEnd { index: fewer as u32 };
        assert(chunks + stream_map::call_ends(upto) =~= before.push(last));
        assert forall|index: u32| #[trigger] testing::started(before.push(last), index)
            <==> index < count by {
            testing::one_more_chunk(before, last, index);
        }
        assert forall|index: u32| #[trigger] testing::ended(before.push(last), index)
            <==> index < upto by {
            testing::one_more_chunk(before, last, index);
        }
        testing::one_more_chunk(before, last, 0);
    }
}

proof fn one_more_event_chunk(
    chunks: Seq<StreamChunkView>,
    count: nat,
    chunk: StreamChunkView,
    after: nat,
)
    requires
        open_exactly(chunks, count),
        count <= after <= 0x1_0000_0000,
        match chunk {
            StreamChunkView::ToolCallStart { index, .. } => index == count && after == count + 1,
            StreamChunkView::ToolArgsDelta { index, .. } => index < count && after == count,
            StreamChunkView::ToolCallEnd { .. } => false,
            StreamChunkView::Done { .. } => false,
            _ => after == count,
        },
    ensures
        open_exactly(chunks.push(chunk), after),
{
    assert forall|index: u32| #[trigger] testing::started(chunks.push(chunk), index) <==> index
        < after by {
        testing::one_more_chunk(chunks, chunk, index);
    }
    assert forall|index: u32| !#[trigger] testing::ended(chunks.push(chunk), index) by {
        testing::one_more_chunk(chunks, chunk, index);
    }
    testing::one_more_chunk(chunks, chunk, 0);
}

/// Before the end of the stream the calls seen so far are open, and only they.
pub proof fn the_calls_stay_open(events: Seq<WireEventView>)
    requires
        forall|k: int| 0 <= k < events.len() ==> #[trigger] events[k] !is End,
        forall|k: int| 0 <= k <= events.len() ==> fed(#[trigger] events.take(k)).0.len() <= 0x1_0000_0000,
    ensures
        open_exactly(fed(events).1, fed(events).0.len()),
    decreases events.len(),
{
    if events.len() > 0 {
        let earlier = events.drop_last();
        let event = events.last();
        assert(events[events.len() - 1] == event);
        assert forall|k: int| 0 <= k < earlier.len() implies #[trigger] earlier[k] !is End by {
            assert(earlier[k] == events[k]);
        }
        assert forall|k: int| 0 <= k <= earlier.len() implies fed(#[trigger] earlier.take(k)).0.len()
            <= 0x1_0000_0000 by {
            assert(earlier.take(k) =~= events.take(k));
        }
        assert(events.take(events.len() as int) =~= events);
        assert(earlier.take(earlier.len() as int) =~= earlier);
        the_calls_stay_open(earlier);
        let (calls, chunks) = fed(earlier);
        let step = stream_map::mapped(calls, event);
        let all = chunks + step.1;
        match event {
            WireEventView::Start => {
                assert(all =~= chunks);
            },
            WireEventView::ToolCallChunk { call_id, fn_name, fn_arguments } => {
                let args = stream_map::accumulated(fn_arguments);
                index_of_call_found(calls, call_id);
                let at = stream_map::index_of_call(calls, call_id);
                if at >= calls.len() {
                    let start = step.1[0];
                    one_more_event_chunk(chunks, calls.len(), start, calls.len() + 1);
                    if args.len() == 0 {
                        assert(all =~= chunks.push(start));
                    } else {
                        one_more_event_chunk(
                            chunks.push(start),
                            calls.len() + 1,
                            step.1[1],
                            calls.len() + 1,
                        );
                        assert(all =~= chunks.push(start).push(step.1[1]));
                    }
                } else if step.1.len() == 0 {
                    assert(all =~= chunks);
                } else {
                    one_more_event_chunk(chunks, calls.len(), step.1[0], calls.len());
                    assert(all =~= chunks.push(step.1[0]));
                }
            },
            _ => {
                one_more_event_chunk(chunks, calls.len(), step.1[0], calls.len());
                assert(all =~= chunks.push(step.1[0]));
            },
        }
    }
}

} // verus!
