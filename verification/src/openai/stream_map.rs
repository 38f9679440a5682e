//! Wire events onto contract chunks, one mapper per stream.
//!
//! The wire reports a tool call as it has accumulated; the mapper passes on
//! what was added.
use crate::contract::error::{ModelError, ModelErrorView};
use crate::contract::message;
use crate::contract::stream::{FinishReason, FinishReasonView, StreamChunk, StreamChunkView};
use crate::copies;
use crate::json;
use crate::json::{Value, ValueView};
use crate::openai::map::{StopReason, StopReasonView, WireUsage, WireUsageView};
use crate::runtime::context;
use crate::text;
use vstd::prelude::*;

verus! {

/// One event of the wire.
#[derive(Debug, PartialEq, Eq)]
pub enum WireEvent {
    Start,
    Chunk(String),
    ReasoningChunk(String),
    ThoughtSignatureChunk(String),
    /// A tool call as far as it has accumulated: id and name stay, the arguments
    /// are merged so far.
    ToolCallChunk {
        call_id: String,
        fn_name: String,
        fn_arguments: Value,
    },
    End {
        usage: Option<WireUsage>,
        stop_reason: Option<StopReason>,
    },
}

/// What a [`WireEvent`] holds.
#[verifier::ext_equal]
pub enum WireEventView {
    Start,
    Chunk(Seq<char>),
    ReasoningChunk(Seq<char>),
    ThoughtSignatureChunk(Seq<char>),
    ToolCallChunk { call_id: Seq<char>, fn_name: Seq<char>, fn_arguments: ValueView },
    End { usage: Option<WireUsageView>, stop_reason: Option<StopReasonView> },
}

impl View for WireEvent {
    type V = WireEventView;

    open spec fn view(&self) -> WireEventView {
        match *self {
            WireEvent::Start => WireEventView::Start,
            WireEvent::Chunk(inner) => WireEventView::Chunk(inner@),
            WireEvent::ReasoningChunk(inner) => WireEventView::ReasoningChunk(inner@),
            WireEvent::ThoughtSignatureChunk(inner) => WireEventView::ThoughtSignatureChunk(inner@),
            WireEvent::ToolCallChunk { call_id, fn_name, fn_arguments } => WireEventView::ToolCallChunk {
                call_id: call_id@,
                fn_name: fn_name@,
                fn_arguments: fn_arguments@,
            },
            WireEvent::End { usage, stop_reason } => WireEventView::End {
                usage: usage.deep_view(),
                stop_reason: stop_reason.deep_view(),
            },
        }
    }
}

impl DeepView for WireEvent {
    type V = WireEventView;

    open spec fn deep_view(&self) -> WireEventView {
        self@
    }
}

/// A call that was seen: its id, and how many bytes of its arguments were
/// passed on.
pub struct OpenCall {
    id: String,
    sent_args_len: usize,
}

/// What an [`OpenCall`] holds.
#[verifier::ext_equal]
pub struct OpenCallView {
    pub id: Seq<char>,
    pub sent: nat,
}

impl DeepView for OpenCall {
    type V = OpenCallView;

    closed spec fn deep_view(&self) -> OpenCallView {
        OpenCallView { id: self.id@, sent: self.sent_args_len as nat }
    }
}

/// Maps the events of one stream onto contract chunks. A call's position among
/// those seen is its index: the indexes are given in order of first appearance.
pub struct StreamMapper {
    calls: Vec<OpenCall>,
}

impl View for StreamMapper {
    type V = Seq<OpenCallView>;

    closed spec fn view(&self) -> Seq<OpenCallView> {
        self.calls.deep_view()
    }
}

/// The arguments of a call as one text.
pub open spec fn accumulated(arguments: ValueView) -> Seq<char> {
    message::payload_text(arguments)
}

/// The index of the call `id`, or how many calls there are.
pub open spec fn index_of_call(calls: Seq<OpenCallView>, id: Seq<char>) -> int
    decreases calls.len(),
{
    if calls.len() == 0 || calls[0].id == id {
        0
    } else {
        1 + index_of_call(calls.drop_first(), id)
    }
}

/// The part of `text` from byte `from` on.
pub open spec fn from_byte(text: Seq<char>, from: nat) -> Seq<char> {
    let bytes = context::bytes_of(text);
    vstd::utf8::decode_utf8(bytes.subrange(from as int, bytes.len() as int))
}

/// The chunks of a call that is seen for the first time.
pub open spec fn opening(index: u32, id: Seq<char>, name: Seq<char>, args: Seq<char>) -> Seq<
    StreamChunkView,
> {
    let start = StreamChunkView::ToolCallStart { index, id, name };
    if args.len() == 0 {
        seq![start]
    } else {
        seq![start, StreamChunkView::ToolArgsDelta { index, fragment: args }]
    }
}

/// The state and the chunks after a tool call: a new call starts with what it
/// has accumulated; of a known one, what has been added since is passed on.
/// Arguments that shrank add nothing.
pub open spec fn with_call(
    calls: Seq<OpenCallView>,
    id: Seq<char>,
    name: Seq<char>,
    args: Seq<char>,
) -> (Seq<OpenCallView>, Seq<StreamChunkView>) {
    let at = index_of_call(calls, id);
    let length = context::bytes_of(args).len();
    if at >= calls.len() {
        (
            calls.push(OpenCallView { id, sent: length }),
            opening(calls.len() as u32, id, name, args),
        )
    } else if length <= calls[at].sent {
        (calls, Seq::empty())
    } else {
        (
            calls.update(at, OpenCallView { id, sent: length }),
            seq![
                StreamChunkView::ToolArgsDelta {
                    index: at as u32,
                    fragment: from_byte(args, calls[at].sent),
                },
            ],
        )
    }
}

/// The ends of `count` calls, in order.
pub open spec fn call_ends(count: nat) -> Seq<StreamChunkView> {
    Seq::new(count, |i: int| StreamChunkView::ToolCallEnd { index: i as u32 })
}

/// The chunks of the end of the stream: every call ends, the usage follows,
/// and last the finish.
pub open spec fn closing(
    count: nat,
    usage: Option<WireUsageView>,
    stop_reason: Option<StopReasonView>,
) -> Seq<StreamChunkView> {
    let ends = call_ends(count);
    let counted = match usage {
        Some(usage) => ends.push(StreamChunkView::Usage(crate::openai::map::bucketed(usage))),
        None => ends,
    };
    counted.push(
        StreamChunkView::Done {
            finish: match stop_reason {
                Some(reason) => crate::openai::map::finish_of(reason),
                None => FinishReasonView::Other("unspecified"@),
            },
        },
    )
}

/// The state and the chunks after one event.
pub open spec fn mapped(calls: Seq<OpenCallView>, event: WireEventView) -> (
    Seq<OpenCallView>,
    Seq<StreamChunkView>,
) {
    match event {
        WireEventView::Start => (calls, Seq::empty()),
        WireEventView::Chunk(content) => (calls, seq![StreamChunkView::TextDelta(content)]),
        WireEventView::ReasoningChunk(content) => (
            calls,
            seq![StreamChunkView::ReasoningDelta(content)],
        ),
        WireEventView::ThoughtSignatureChunk(content) => (
            calls,
            seq![
                StreamChunkView::OpaqueDelta(
                    ValueView::Object(seq![("thought_signature"@, json::quoted(content))]),
                ),
            ],
        ),
        WireEventView::ToolCallChunk { call_id, fn_name, fn_arguments } => with_call(
            calls,
            call_id,
            fn_name,
            accumulated(fn_arguments),
        ),
        WireEventView::End { usage, stop_reason } => (
            Seq::empty(),
            closing(calls.len(), usage, stop_reason),
        ),
    }
}

/// Whether every call has an index.
pub open spec fn indexable(calls: Seq<OpenCallView>) -> bool {
    calls.len() <= 0x1_0000_0000
}

/// Whether an event can be mapped: a new call needs an index, and what was
/// passed on of a known one must end at a character of what it has now.
pub open spec fn acceptable(calls: Seq<OpenCallView>, event: WireEventView) -> bool {
    match event {
        WireEventView::ToolCallChunk { call_id, fn_arguments, .. } => {
            let at = index_of_call(calls, call_id);
            let bytes = context::bytes_of(accumulated(fn_arguments));
            if at >= calls.len() {
                calls.len() < 0x1_0000_0000
            } else {
                calls[at].sent < bytes.len() ==> vstd::utf8::is_char_boundary(
                    bytes,
                    calls[at].sent as int,
                )
            }
        },
        _ => true,
    }
}

proof fn index_of_call_is(calls: Seq<OpenCallView>, id: Seq<char>, at: int)
    requires
        0 <= at <= calls.len(),
        forall|j: int| 0 <= j < at ==> (#[trigger] calls[j]).id != id,
        at < calls.len() ==> calls[at].id == id,
    ensures
        index_of_call(calls, id) == at,
    decreases calls.len(),
{
    if at > 0 {
        let rest = calls.drop_first();
        assert(calls[0].id != id);
        assert forall|j: int| 0 <= j < at - 1 implies (#[trigger] rest[j]).id != id by {
            assert(rest[j] == calls[j + 1]);
        }
        index_of_call_is(rest, id, at - 1);
    }
}

fn accumulated_args(arguments: &Value) -> (r: String)
    ensures
        r@ == accumulated(arguments@),
{
    match arguments {
        Value::String(args) => args.clone(),
        other => other.render(),
    }
}

/// What `args` has beyond the first `sent` bytes; nothing where it has not
/// grown.
fn suffix_diff(args: &str, sent: usize) -> (r: Option<String>)
    requires
        sent < context::bytes_of(args@).len() ==> vstd::utf8::is_char_boundary(
            context::bytes_of(args@),
            sent as int,
        ),
    ensures
        match r {
            Some(fragment) => sent < context::bytes_of(args@).len() && fragment@ == from_byte(
                args@,
                sent as nat,
            ),
            None => context::bytes_of(args@).len() <= sent,
        },
{
    let length: usize = context::byte_count(args);
    if length <= sent {
        return None;
    }
    let (_, rest) = args.split_at(sent);
    proof {
        vstd::utf8::encode_utf8_decode_utf8(rest@);
    }
    Some(rest.to_owned())
}

impl Default for StreamMapper {
    fn default() -> (r: StreamMapper)
        ensures
            r@ == Seq::<OpenCallView>::empty(),
    {
        let r = StreamMapper { calls: Vec::new() };
        assert(r@ =~= Seq::empty());
        r
    }
}

impl StreamMapper {
    fn position(&self, id: &str) -> (r: usize)
        ensures
            r == index_of_call(self@, id@),
            r <= self.calls.len(),
            r < self.calls.len() ==> self.calls[r as int].id@ == id@,
    {
        let ghost all = self.calls.deep_view();
        let mut i: usize = 0;
        while i < self.calls.len() && !text::same(self.calls[i].id.as_str(), id)
            invariant
                i <= self.calls.len(),
                all == self.calls.deep_view(),
                forall|j: int| 0 <= j < i ==> (#[trigger] all[j]).id != id@,
            decreases self.calls.len() - i,
        {
            assert(all[i as int] == self.calls[i as int].deep_view());
            i += 1;
        }
        proof {
            if i < self.calls.len() {
                assert(all[i as int] == self.calls[i as int].deep_view());
            }
            assert(all.len() == self.calls.len());
            index_of_call_is(all, id@, i as int);
        }
        i
    }

    /// Whether an event can be mapped.
    pub fn accepts(&self, event: &WireEvent) -> (r: bool)
        ensures
            r == acceptable(self@, event@),
    {
        match event {
            WireEvent::ToolCallChunk { call_id, fn_arguments, .. } => {
                let args = accumulated_args(fn_arguments);
                let at: usize = self.position(call_id.as_str());
                assert(self@.len() == self.calls.len());
                if at >= self.calls.len() {
                    (self.calls.len() as u64) < 0x1_0000_0000
                } else {
                    assert(self@[at as int] == self.calls[at as int].deep_view());
                    let sent: usize = self.calls[at].sent_args_len;
                    context::byte_count(args.as_str()) <= sent || args.as_str().is_char_boundary(
                        sent,
                    )
                }
            },
            _ => true,
        }
    }

    /// The chunks of one event.
    pub fn map_event(&mut self, event: WireEvent) -> (r: Vec<StreamChunk>)
        requires
            indexable(old(self)@),
            acceptable(old(self)@, event@),
        ensures
            (final(self)@, r.deep_view()) == mapped(old(self)@, event@),
            indexable(final(self)@),
    {
        let mut out: Vec<StreamChunk> = Vec::new();
        match event {
            WireEvent::Start => {
                assert(out.deep_view() =~= Seq::empty());
                out
            },
            WireEvent::Chunk(content) => {
                out.push(StreamChunk::TextDelta(content));
                assert(out.deep_view() =~= seq![StreamChunkView::TextDelta(content@)]);
                out
            },
            WireEvent::ReasoningChunk(content) => {
                out.push(StreamChunk::ReasoningDelta(content));
                assert(out.deep_view() =~= seq![StreamChunkView::ReasoningDelta(content@)]);
                out
            },
            WireEvent::ThoughtSignatureChunk(content) => {
                let mut fields: Vec<(String, String)> = Vec::new();
                fields.push(("thought_signature".to_owned(), json::quote(content.as_str())));
                assert(fields.deep_view() =~= seq![
                    ("thought_signature"@, json::quoted(content@)),
                ]);
                let chunk = StreamChunk::OpaqueDelta(Value::Object(fields));
                let ghost view = chunk@;
                out.push(chunk);
                assert(out.deep_view() =~= seq![view]);
                out
            },
            WireEvent::ToolCallChunk { call_id, fn_name, fn_arguments } => self.map_tool_call(
                call_id,
                fn_name,
                accumulated_args(&fn_arguments),
            ),
            WireEvent::End { usage, stop_reason } => self.map_end(usage, stop_reason),
        }
    }

    fn map_tool_call(&mut self, id: String, name: String, args: String) -> (r: Vec<StreamChunk>)
        requires
            indexable(old(self)@),
            ({
                let at = index_of_call(old(self)@, id@);
                let bytes = context::bytes_of(args@);
                if at >= old(self)@.len() {
                    old(self)@.len() < 0x1_0000_0000
                } else {
                    old(self)@[at].sent < bytes.len() ==> vstd::utf8::is_char_boundary(
                        bytes,
                        old(self)@[at].sent as int,
                    )
                }
            }),
        ensures
            (final(self)@, r.deep_view()) == with_call(old(self)@, id@, name@, args@),
            indexable(final(self)@),
    {
        let ghost before = self@;
        let length: usize = context::byte_count(args.as_str());
        let at: usize = self.position(id.as_str());
        let mut out: Vec<StreamChunk> = Vec::new();
        assert(before.len() == self.calls.len());
        if at < self.calls.len() {
            assert(before[at as int] == self.calls[at as int].deep_view());
            let sent: usize = self.calls[at].sent_args_len;
            match suffix_diff(args.as_str(), sent) {
                Some(fragment) => {
                    self.calls.set(at, OpenCall { id, sent_args_len: length });
                    assert(self@ =~= before.update(
                        at as int,
                        OpenCallView { id: id@, sent: length as nat },
                    ));
                    out.push(StreamChunk::ToolArgsDelta { index: at as u32, fragment });
                    assert(out.deep_view() =~= seq![
                        StreamChunkView::ToolArgsDelta { index: at as u32, fragment: fragment@ },
                    ]);
                },
                None => {
                    assert(out.deep_view() =~= Seq::empty());
                },
            }
        } else {
            let index: u32 = self.calls.len() as u32;
            let empty = args.as_str().is_empty();
            self.calls.push(OpenCall { id: id.clone(), sent_args_len: length });
            assert(self@ =~= before.push(OpenCallView { id: id@, sent: length as nat }));
            out.push(StreamChunk::ToolCallStart { index, id, name });
            if !empty {
                out.push(StreamChunk::ToolArgsDelta { index, fragment: args });
            }
            assert(out.deep_view() =~= opening(index, id@, name@, args@));
        }
        out
    }

    fn map_end(&mut self, usage: Option<WireUsage>, stop_reason: Option<StopReason>) -> (r: Vec<
        StreamChunk,
    >)
        requires
            indexable(old(self)@),
        ensures
            final(self)@ == Seq::<OpenCallView>::empty(),
            r.deep_view() == closing(old(self)@.len(), usage.deep_view(), stop_reason.deep_view()),
    {
        let mut out: Vec<StreamChunk> = Vec::new();
        let count: usize = self.calls.len();
        assert(self@.len() == count);
        let mut index: usize = 0;
        assert(out.deep_view() =~= Seq::empty());
        while index < count
            invariant
                index <= count,
                count <= 0x1_0000_0000,
                out.deep_view() == call_ends(index as nat),
            decreases count - index,
        {
            let ghost before = out.deep_view();
            out.push(StreamChunk::ToolCallEnd { index: index as u32 });
            assert(out.deep_view() =~= before.push(
                StreamChunkView::ToolCallEnd { index: index as u32 },
            ));
            index += 1;
            assert(out.deep_view() =~= call_ends(index as nat));
        }
        self.calls = Vec::new();
        assert(self@ =~= Seq::empty());
        let ghost ends = out.deep_view();
        if let Some(usage) = &usage {
            let counted = crate::openai::map::map_usage(usage);
            let ghost view = counted@;
            out.push(StreamChunk::Usage(counted));
            assert(out.deep_view() =~= ends.push(StreamChunkView::Usage(view)));
        }
        let ghost so_far = out.deep_view();
        let finish = match &stop_reason {
            Some(reason) => crate::openai::map::map_stop_reason(reason),
            None => FinishReason::Other("unspecified".to_owned()),
        };
        let ghost view = finish@;
        out.push(StreamChunk::Done { finish });
        assert(out.deep_view() =~= so_far.push(StreamChunkView::Done { finish: view }));
        out
    }
}

/// What a call comes to, given the first item of its stream: a failure before
/// any content is a failure of the call, anything else opens the stream.
pub open spec fn opened(first: Option<Result<StreamChunkView, ModelErrorView>>) -> Result<
    Option<StreamChunkView>,
    ModelErrorView,
> {
    match first {
        Some(Ok(chunk)) => Ok(Some(chunk)),
        Some(Err(error)) => Err(error),
        None => Ok(None),
    }
}

/// Decides a call by the first item of its stream: the error to fail with, or
/// the chunk that the stream begins with.
pub fn open_stream(first: Option<Result<StreamChunk, ModelError>>) -> (r: Result<
    Option<StreamChunk>,
    ModelError,
>)
    ensures
        copies::held(r) == opened(
            match first {
                Some(item) => Some(copies::held(item)),
                None => None,
            },
        ),
{
    match first {
        Some(Ok(chunk)) => Ok(Some(chunk)),
        Some(Err(error)) => Err(error),
        None => Ok(None),
    }
}

} // verus!
