//! What the port suites check of a stream, and the script that they publish.
use crate::contract::attrs;
use crate::contract::error::{ModelError, ModelErrorView};
use crate::contract::event;
use crate::contract::event::{Command, CommandView, Event, EventKind, EventKindView, TurnOutcome};
use crate::contract::live::{LiveItem, LiveItemView, LiveKind, LiveKindView};
use crate::contract::message;
use crate::contract::message::{Message, Role};
use crate::contract::request;
use crate::contract::request::ChatRequest;
use crate::contract::stream::{FinishReason, FinishReasonView, StreamChunk, StreamChunkView};
use crate::json;
use crate::json::Value;
use crate::text;
use vstd::prelude::*;

verus! {

/// One scripted response of a provider under test.
#[derive(Debug, PartialEq, Eq)]
pub enum QueuedResponse {
    /// A chunk stream without an error.
    Chunks(Vec<StreamChunk>),
    /// The call itself fails.
    CallError(ModelError),
    /// The stream yields some chunks, and an error in their midst.
    StreamError {
        chunks: Vec<StreamChunk>,
        error: ModelError,
    },
}

/// What a [`QueuedResponse`] holds.
#[verifier::ext_equal]
pub enum QueuedResponseView {
    Chunks(Seq<StreamChunkView>),
    CallError(ModelErrorView),
    StreamError { chunks: Seq<StreamChunkView>, error: ModelErrorView },
}

impl View for QueuedResponse {
    type V = QueuedResponseView;

    open spec fn view(&self) -> QueuedResponseView {
        match *self {
            QueuedResponse::Chunks(inner) => QueuedResponseView::Chunks(inner.deep_view()),
            QueuedResponse::CallError(inner) => QueuedResponseView::CallError(inner@),
            QueuedResponse::StreamError { chunks, error } => QueuedResponseView::StreamError {
                chunks: chunks.deep_view(),
                error: error@,
            },
        }
    }
}

impl DeepView for QueuedResponse {
    type V = QueuedResponseView;

    open spec fn deep_view(&self) -> QueuedResponseView {
        self@
    }
}

/// Whether a call with this index was started.
pub open spec fn started(chunks: Seq<StreamChunkView>, index: u32) -> bool {
    exists|k: int|
        0 <= k < chunks.len() && (#[trigger] chunks[k] matches StreamChunkView::ToolCallStart {
            index: own,
            ..
        } && own == index)
}

/// Whether the call with this index was ended.
pub open spec fn ended(chunks: Seq<StreamChunkView>, index: u32) -> bool {
    exists|k: int|
        0 <= k < chunks.len() && (#[trigger] chunks[k] matches StreamChunkView::ToolCallEnd {
            index: own,
        } && own == index)
}

/// Whether the stream said that it is done.
pub open spec fn done(chunks: Seq<StreamChunkView>) -> bool {
    exists|k: int| 0 <= k < chunks.len() && #[trigger] chunks[k] is Done
}

/// Whether `chunk` may follow `before`: nothing follows the end of the stream,
/// no index starts twice, and only an open call has fragments and an end.
pub open spec fn may_follow(before: Seq<StreamChunkView>, chunk: StreamChunkView) -> bool {
    !done(before) && match chunk {
        StreamChunkView::ToolCallStart { index, .. } => !started(before, index),
        StreamChunkView::ToolArgsDelta { index, .. } => started(before, index) && !ended(
            before,
            index,
        ),
        StreamChunkView::ToolCallEnd { index } => started(before, index) && !ended(before, index),
        _ => true,
    }
}

/// Index discipline: every chunk may follow those before it.
pub open spec fn disciplined(chunks: Seq<StreamChunkView>) -> bool
    decreases chunks.len(),
{
    chunks.len() > 0 ==> disciplined(chunks.drop_last()) && may_follow(
        chunks.drop_last(),
        chunks.last(),
    )
}

/// What one more chunk does to what was started, ended and done.
pub proof fn one_more_chunk(before: Seq<StreamChunkView>, chunk: StreamChunkView, index: u32)
    ensures
        started(before.push(chunk), index) <==> started(before, index) || (
        chunk matches StreamChunkView::ToolCallStart { index: own, .. } && own == index),
        ended(before.push(chunk), index) <==> ended(before, index) || (
        chunk matches StreamChunkView::ToolCallEnd { index: own } && own == index),
        done(before.push(chunk)) <==> done(before) || chunk is Done,
        disciplined(before.push(chunk)) <==> disciplined(before) && may_follow(before, chunk),
{
    let after = before.push(chunk);
    assert(after.drop_last() =~= before);
    assert(after[before.len() as int] == chunk);
    if started(before, index) {
        let k = choose|k: int|
            0 <= k < before.len() && (#[trigger] before[k] matches StreamChunkView::ToolCallStart {
                index: own,
                ..
            } && own == index);
        assert(after[k] == before[k]);
    }
    if ended(before, index) {
        let k = choose|k: int|
            0 <= k < before.len() && (#[trigger] before[k] matches StreamChunkView::ToolCallEnd {
                index: own,
            } && own == index);
        assert(after[k] == before[k]);
    }
    if done(before) {
        let k = choose|k: int| 0 <= k < before.len() && #[trigger] before[k] is Done;
        assert(after[k] == before[k]);
    }
    if started(after, index) {
        let k = choose|k: int|
            0 <= k < after.len() && (#[trigger] after[k] matches StreamChunkView::ToolCallStart {
                index: own,
                ..
            } && own == index);
        if k < before.len() {
            assert(after[k] == before[k]);
        }
    }
    if ended(after, index) {
        let k = choose|k: int|
            0 <= k < after.len() && (#[trigger] after[k] matches StreamChunkView::ToolCallEnd {
                index: own,
            } && own == index);
        if k < before.len() {
            assert(after[k] == before[k]);
        }
    }
    if done(after) {
        let k = choose|k: int| 0 <= k < after.len() && #[trigger] after[k] is Done;
        if k < before.len() {
            assert(after[k] == before[k]);
        }
    }
}

/// A stream that breaks the discipline does not mend.
proof fn a_breach_stays(chunks: Seq<StreamChunkView>, upto: int)
    requires
        0 <= upto <= chunks.len(),
        !disciplined(chunks.take(upto)),
    ensures
        !disciplined(chunks),
    decreases chunks.len() - upto,
{
    if upto < chunks.len() {
        assert(chunks.take(upto + 1).drop_last() =~= chunks.take(upto));
        a_breach_stays(chunks, upto + 1);
    } else {
        assert(chunks.take(upto) =~= chunks);
    }
}

fn has_index(indexes: &Vec<u32>, index: u32) -> (r: bool)
    ensures
        r == indexes@.contains(index),
{
    let mut i: usize = 0;
    while i < indexes.len()
        invariant
            i <= indexes.len(),
            forall|j: int| 0 <= j < i ==> #[trigger] indexes[j] != index,
        decreases indexes.len() - i,
    {
        if indexes[i] == index {
            return true;
        }
        i += 1;
    }
    false
}

/// Whether a stream keeps the index discipline: no fragment or end without an
/// open start, no start twice, and the end of the stream strictly last.
pub fn keeps_index_discipline(chunks: &Vec<StreamChunk>) -> (r: bool)
    ensures
        r == disciplined(chunks.deep_view()),
{
    let ghost all = chunks.deep_view();
    let mut begun: Vec<u32> = Vec::new();
    let mut closed: Vec<u32> = Vec::new();
    let mut over = false;
    let mut i: usize = 0;
    while i < chunks.len()
        invariant
            i <= chunks.len(),
            all == chunks.deep_view(),
            disciplined(all.take(i as int)),
            over == done(all.take(i as int)),
            forall|index: u32| #[trigger]
                begun@.contains(index) <==> started(all.take(i as int), index),
            forall|index: u32| #[trigger]
                closed@.contains(index) <==> ended(all.take(i as int), index),
        decreases chunks.len() - i,
    {
        let ghost before = all.take(i as int);
        let ghost chunk = chunks[i as int]@;
        let ghost begun_before = begun@;
        let ghost closed_before = closed@;
        proof {
            assert(all[i as int] == chunk);
            assert(all.take(i as int + 1) =~= before.push(chunk));
            one_more_chunk(before, chunk, 0);
            if !may_follow(before, chunk) {
                a_breach_stays(all, i as int + 1);
            }
        }
        if over {
            return false;
        }
        match &chunks[i] {
            StreamChunk::ToolCallStart { index, .. } => {
                if has_index(&begun, *index) {
                    return false;
                }
                begun.push(*index);
                proof {
                    pushed_contains(begun_before, *index);
                }
            },
            StreamChunk::ToolArgsDelta { index, .. } => {
                if !has_index(&begun, *index) || has_index(&closed, *index) {
                    return false;
                }
            },
            StreamChunk::ToolCallEnd { index } => {
                if !has_index(&begun, *index) || has_index(&closed, *index) {
                    return false;
                }
                closed.push(*index);
                proof {
                    pushed_contains(closed_before, *index);
                }
            },
            StreamChunk::Done { .. } => {
                over = true;
            },
            _ => {},
        }
        i += 1;
        assert forall|index: u32| #[trigger]
            begun@.contains(index) <==> started(all.take(i as int), index) by {
            one_more_chunk(before, chunk, index);
            assert(begun_before.contains(index) <==> started(before, index));
        }
        assert forall|index: u32| #[trigger]
            closed@.contains(index) <==> ended(all.take(i as int), index) by {
            one_more_chunk(before, chunk, index);
            assert(closed_before.contains(index) <==> ended(before, index));
        }
    }
    assert(all.take(i as int) =~= all);
    true
}

proof fn pushed_contains(before: Seq<u32>, index: u32)
    ensures
        forall|other: u32| #[trigger]
            before.push(index).contains(other) <==> before.contains(other) || other == index,
{
    let after = before.push(index);
    assert forall|other: u32| #[trigger]
        after.contains(other) <==> before.contains(other) || other == index by {
        assert(after[before.len() as int] == index);
        if before.contains(other) {
            let k = choose|k: int| 0 <= k < before.len() && before[k] == other;
            assert(after[k] == other);
        }
    }
}

/// Whether the items of a live tail lie strictly above the position of the
/// baseline, each above the one before.
pub open spec fn tail_in_order(items: Seq<LiveItemView>, as_of_seq: u64) -> bool {
    &&& forall|i: int| 0 <= i < items.len() ==> (#[trigger] items[i]).seq > as_of_seq
    &&& forall|i: int, j: int|
        0 <= i < j < items.len() ==> (#[trigger] items[i]).seq < (#[trigger] items[j]).seq
}

/// Whether the items of a live tail come in order, with none of them at or
/// below the baseline: no gap filled twice, nothing replayed.
pub fn is_tail_in_order(items: &Vec<LiveItem>, as_of_seq: u64) -> (r: bool)
    ensures
        r == tail_in_order(items.deep_view(), as_of_seq),
{
    let ghost all = items.deep_view();
    let mut previous: u64 = as_of_seq;
    let mut i: usize = 0;
    while i < items.len()
        invariant
            i <= items.len(),
            all == items.deep_view(),
            as_of_seq <= previous,
            i == 0 ==> previous == as_of_seq,
            i > 0 ==> previous == all[i as int - 1].seq,
            tail_in_order(all.take(i as int), as_of_seq),
            forall|j: int| 0 <= j < i ==> (#[trigger] all[j]).seq <= previous,
        decreases items.len() - i,
    {
        assert(all[i as int] == items[i as int]@);
        assert(all.len() == items.len());
        if items[i].seq <= previous {
            assert(!tail_in_order(all, as_of_seq)) by {
                if i > 0 {
                    assert(all[i as int - 1].seq >= all[i as int].seq);
                }
            }
            return false;
        }
        previous = items[i].seq;
        i += 1;
        assert(tail_in_order(all.take(i as int), as_of_seq)) by {
            let now = all.take(i as int);
            let before = all.take(i as int - 1);
            assert forall|j: int| 0 <= j < now.len() implies (#[trigger] now[j]).seq
                > as_of_seq by {
                if j < i - 1 {
                    assert(now[j] == before[j]);
                }
            }
            assert forall|j: int, k: int| 0 <= j < k < now.len() implies (#[trigger] now[j]).seq < (
            #[trigger] now[k]).seq by {
                assert(now[j] == before[j]);
                if k < i - 1 {
                    assert(now[k] == before[k]);
                }
            }
        }
    }
    assert(all.take(i as int) =~= all);
    true
}

/// The trace of the scripted run.
pub const SUITE_TRACE: &'static str = "tr-suite";

/// The time of the scripted run's start.
pub const SUITE_TIME: u64 = 1_757_200_000_000;

/// A recorded event of the scripted run.
pub open spec fn recorded_item(seq: u64, kind: EventKindView, turn: Option<u64>) -> LiveItemView {
    let number = text::decimal(seq as nat);
    let plain = event::plain_event(
        seq,
        "e"@ + number,
        SUITE_TRACE@,
        "s"@ + number,
        Some("s0"@),
        (SUITE_TIME + seq) as u64,
        kind,
    );
    LiveItemView {
        seq,
        trace_id: SUITE_TRACE@,
        kind: LiveKindView::Recorded {
            event: match turn {
                Some(turn) => event::attributed(plain, attrs::TURN@, json::unsigned_value(turn)),
                None => plain,
            },
        },
    }
}

/// A durable event as a run publishes it: the item's position is the event's.
pub fn recorded(seq: u64, kind: EventKind, turn: Option<u64>) -> (r: LiveItem)
    requires
        SUITE_TIME + seq <= u64::MAX,
    ensures
        r@ == recorded_item(seq, kind@, turn),
{
    let number = text::decimal_of(seq);
    let plain = Event::new(
        seq,
        text::prefixed("e", number.as_str()),
        SUITE_TRACE.to_owned(),
        text::prefixed("s", number.as_str()),
        Some("s0".to_owned()),
        SUITE_TIME + seq,
        kind,
    );
    let event = match turn {
        Some(turn) => plain.with_attribute(attrs::TURN, Value::unsigned(turn)),
        None => plain,
    };
    LiveItem {
        seq,
        trace_id: SUITE_TRACE.to_owned(),
        kind: LiveKind::Recorded { event: Box::new(event) },
    }
}

/// An increment of the scripted run's open turn.
pub open spec fn delta_item(seq: u64, turn: u32, chunk: StreamChunkView) -> LiveItemView {
    LiveItemView {
        seq,
        trace_id: SUITE_TRACE@,
        kind: LiveKindView::AssistantDelta { turn, chunk },
    }
}

/// One assistant-stream increment of the open turn.
pub fn delta(seq: u64, turn: u32, chunk: StreamChunk) -> (r: LiveItem)
    ensures
        r@ == delta_item(seq, turn, chunk@),
{
    LiveItem {
        seq,
        trace_id: SUITE_TRACE.to_owned(),
        kind: LiveKind::AssistantDelta { turn, chunk },
    }
}

/// The start of the scripted run.
pub open spec fn start_item(seq: u64) -> LiveItemView {
    recorded_item(
        seq,
        EventKindView::Command(
            CommandView::StartRun {
                base: request::plain_request("fix the typo"@, 4_096),
                prefix: None,
            },
        ),
        None,
    )
}

/// The recorded start-run command.
pub fn start_run(seq: u64) -> (r: LiveItem)
    requires
        SUITE_TIME + seq <= u64::MAX,
    ensures
        r@ == start_item(seq),
{
    recorded(
        seq,
        EventKind::Command(
            Command::StartRun {
                base: Box::new(ChatRequest::user_text("fix the typo", 4_096)),
                prefix: None,
            },
        ),
        None,
    )
}

/// The answer that closes a turn of the scripted run.
pub open spec fn answer_item(seq: u64, turn: u32, answer: Seq<char>) -> LiveItemView {
    recorded_item(
        seq,
        EventKindView::LlmResponse {
            message: message::text_message(Role::Assistant, answer),
            usage: None,
            finish: FinishReasonView::Stop,
            outcome: TurnOutcome::Content,
            warnings: Seq::empty(),
        },
        Some(turn as u64),
    )
}

/// The recorded answer that closes a turn.
pub fn text_done(seq: u64, turn: u32, answer: &str) -> (r: LiveItem)
    requires
        SUITE_TIME + seq <= u64::MAX,
    ensures
        r@ == answer_item(seq, turn, answer@),
{
    let warnings: Vec<String> = Vec::new();
    assert(warnings.deep_view() =~= Seq::empty());
    recorded(
        seq,
        EventKind::LlmResponse {
            message: Message::text(Role::Assistant, answer),
            usage: None,
            finish: FinishReason::Stop,
            outcome: TurnOutcome::Content,
            warnings,
        },
        Some(turn as u64),
    )
}

/// The items of the canonical scripted run.
pub open spec fn sync_script() -> Seq<LiveItemView> {
    seq![
        start_item(1),
        recorded_item(2, EventKindView::LlmRequest { trailer: None }, Some(1)),
        delta_item(3, 1, StreamChunkView::TextDelta("partial"@)),
        delta_item(
            4,
            1,
            StreamChunkView::ToolCallStart { index: 0, id: "call_1"@, name: "read_file"@ },
        ),
        delta_item(
            5,
            1,
            StreamChunkView::ToolArgsDelta { index: 0, fragment: "{\"path\":\"src/"@ },
        ),
    ]
}

/// The canonical scripted run that endpoints publish verbatim.
pub fn fixed_sync_script() -> (r: Vec<LiveItem>)
    ensures
        r.deep_view() == sync_script(),
{
    let mut out: Vec<LiveItem> = Vec::new();
    out.push(start_run(1));
    out.push(recorded(2, EventKind::LlmRequest { trailer: None }, Some(1)));
    out.push(delta(3, 1, StreamChunk::TextDelta("partial".to_owned())));
    out.push(
        delta(
            4,
            1,
            StreamChunk::ToolCallStart {
                index: 0,
                id: "call_1".to_owned(),
                name: "read_file".to_owned(),
            },
        ),
    );
    out.push(
        delta(
            5,
            1,
            StreamChunk::ToolArgsDelta { index: 0, fragment: "{\"path\":\"src/".to_owned() },
        ),
    );
    assert(out.deep_view() =~= sync_script());
    out
}

} // verus!
