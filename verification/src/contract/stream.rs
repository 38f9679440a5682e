//! The normalized increments of a provider stream.
use crate::json::{Value, ValueView};
use crate::text;
use vstd::prelude::*;

verus! {

/// Why a stream said it ended. Metadata only: the loop branches on actual
/// content, not on the finish reason.
#[derive(Debug, PartialEq, Eq)]
pub enum FinishReason {
    Stop,
    ToolCalls,
    Length,
    ContentFilter,
    Other(String),
}

/// What a [`FinishReason`] holds.
#[verifier::ext_equal]
pub enum FinishReasonView {
    Stop,
    ToolCalls,
    Length,
    ContentFilter,
    Other(Seq<char>),
}

impl View for FinishReason {
    type V = FinishReasonView;

    open spec fn view(&self) -> FinishReasonView {
        match *self {
            FinishReason::Stop => FinishReasonView::Stop,
            FinishReason::ToolCalls => FinishReasonView::ToolCalls,
            FinishReason::Length => FinishReasonView::Length,
            FinishReason::ContentFilter => FinishReasonView::ContentFilter,
            FinishReason::Other(inner) => FinishReasonView::Other(inner@),
        }
    }
}

impl DeepView for FinishReason {
    type V = FinishReasonView;

    open spec fn deep_view(&self) -> FinishReasonView {
        self@
    }
}

impl Clone for FinishReason {
    fn clone(&self) -> (r: Self)
        ensures
            r@ == self@,
    {
        match self {
            FinishReason::Stop => FinishReason::Stop,
            FinishReason::ToolCalls => FinishReason::ToolCalls,
            FinishReason::Length => FinishReason::Length,
            FinishReason::ContentFilter => FinishReason::ContentFilter,
            FinishReason::Other(inner) => FinishReason::Other(inner.clone()),
        }
    }
}

/// What a provider call consumed.
#[derive(Debug, PartialEq, Eq)]
pub struct Usage {
    pub input: u64,
    /// Cache reads and writes are separate buckets: without them billing cannot
    /// be reconciled.
    pub cache_read: u64,
    pub cache_write: u64,
    pub output: u64,
    pub reasoning: u64,
    /// The vendor's usage object, verbatim.
    pub raw: Value,
}

/// What a [`Usage`] holds.
#[verifier::ext_equal]
pub struct UsageView {
    pub input: u64,
    pub cache_read: u64,
    pub cache_write: u64,
    pub output: u64,
    pub reasoning: u64,
    pub raw: ValueView,
}

impl View for Usage {
    type V = UsageView;

    open spec fn view(&self) -> UsageView {
        UsageView {
            input: self.input,
            cache_read: self.cache_read,
            cache_write: self.cache_write,
            output: self.output,
            reasoning: self.reasoning,
            raw: self.raw@,
        }
    }
}

impl DeepView for Usage {
    type V = UsageView;

    open spec fn deep_view(&self) -> UsageView {
        self@
    }
}

impl Clone for Usage {
    fn clone(&self) -> (r: Self)
        ensures
            r@ == self@,
    {
        Usage {
            input: self.input,
            cache_read: self.cache_read,
            cache_write: self.cache_write,
            output: self.output,
            reasoning: self.reasoning,
            raw: self.raw.clone(),
        }
    }
}

/// One normalized increment of a provider stream.
#[derive(Debug, PartialEq, Eq)]
pub enum StreamChunk {
    TextDelta(String),
    ReasoningDelta(String),
    ToolCallStart {
        index: u32,
        id: String,
        name: String,
    },
    ToolArgsDelta {
        index: u32,
        fragment: String,
    },
    /// Parallel tool-call fragments are routed by `index`.
    ToolCallEnd {
        index: u32,
    },
    /// Vendor-opaque deltas, folded into [`crate::Message::opaque`].
    OpaqueDelta(Value),
    Usage(Usage),
    Done {
        finish: FinishReason,
    },
}

/// What a [`StreamChunk`] holds.
#[verifier::ext_equal]
pub enum StreamChunkView {
    TextDelta(Seq<char>),
    ReasoningDelta(Seq<char>),
    ToolCallStart { index: u32, id: Seq<char>, name: Seq<char> },
    ToolArgsDelta { index: u32, fragment: Seq<char> },
    ToolCallEnd { index: u32 },
    OpaqueDelta(ValueView),
    Usage(UsageView),
    Done { finish: FinishReasonView },
}

impl View for StreamChunk {
    type V = StreamChunkView;

    open spec fn view(&self) -> StreamChunkView {
        match *self {
            StreamChunk::TextDelta(inner) => StreamChunkView::TextDelta(inner@),
            StreamChunk::ReasoningDelta(inner) => StreamChunkView::ReasoningDelta(inner@),
            StreamChunk::ToolCallStart { index, id, name } => StreamChunkView::ToolCallStart {
                index,
                id: id@,
                name: name@,
            },
            StreamChunk::ToolArgsDelta { index, fragment } => StreamChunkView::ToolArgsDelta {
                index,
                fragment: fragment@,
            },
            StreamChunk::ToolCallEnd { index } => StreamChunkView::ToolCallEnd {
                index,
            },
            StreamChunk::OpaqueDelta(inner) => StreamChunkView::OpaqueDelta(inner@),
            StreamChunk::Usage(inner) => StreamChunkView::Usage(inner@),
            StreamChunk::Done { finish } => StreamChunkView::Done {
                finish: finish@,
            },
        }
    }
}

impl DeepView for StreamChunk {
    type V = StreamChunkView;

    open spec fn deep_view(&self) -> StreamChunkView {
        self@
    }
}

impl Clone for StreamChunk {
    fn clone(&self) -> (r: Self)
        ensures
            r@ == self@,
    {
        match self {
            StreamChunk::TextDelta(inner) => StreamChunk::TextDelta(inner.clone()),
            StreamChunk::ReasoningDelta(inner) => StreamChunk::ReasoningDelta(inner.clone()),
            StreamChunk::ToolCallStart { index, id, name } => StreamChunk::ToolCallStart {
                index: *index,
                id: id.clone(),
                name: name.clone(),
            },
            StreamChunk::ToolArgsDelta { index, fragment } => StreamChunk::ToolArgsDelta {
                index: *index,
                fragment: fragment.clone(),
            },
            StreamChunk::ToolCallEnd { index } => StreamChunk::ToolCallEnd {
                index: *index,
            },
            StreamChunk::OpaqueDelta(inner) => StreamChunk::OpaqueDelta(inner.clone()),
            StreamChunk::Usage(inner) => StreamChunk::Usage(inner.clone()),
            StreamChunk::Done { finish } => StreamChunk::Done {
                finish: finish.clone(),
            },
        }
    }
}

/// A finish reason as it is shown for debugging.
pub open spec fn finish_text(finish: FinishReasonView) -> Seq<char> {
    match finish {
        FinishReasonView::Stop => "Stop"@,
        FinishReasonView::ToolCalls => "ToolCalls"@,
        FinishReasonView::Length => "Length"@,
        FinishReasonView::ContentFilter => "ContentFilter"@,
        FinishReasonView::Other(reason) => "Other("@ + text::debug_text(reason) + ")"@,
    }
}

impl FinishReason {
    /// The reason as it is shown for debugging.
    pub fn to_text(&self) -> (r: String)
        ensures
            r@ == finish_text(self@),
    {
        match self {
            FinishReason::Stop => "Stop".to_owned(),
            FinishReason::ToolCalls => "ToolCalls".to_owned(),
            FinishReason::Length => "Length".to_owned(),
            FinishReason::ContentFilter => "ContentFilter".to_owned(),
            FinishReason::Other(reason) => {
                let mut out = text::prefixed("Other(", text::show_debug(reason.as_str()).as_str());
                out.append(")");
                out
            },
        }
    }
}

/// No usage at all.
pub open spec fn no_usage() -> UsageView {
    UsageView {
        input: 0,
        cache_read: 0,
        cache_write: 0,
        output: 0,
        reasoning: 0,
        raw: ValueView::Null,
    }
}

impl Default for Usage {
    fn default() -> (r: Usage)
        ensures
            r@ == no_usage(),
    {
        Usage { input: 0, cache_read: 0, cache_write: 0, output: 0, reasoning: 0, raw: Value::Null }
    }
}

} // verus!
