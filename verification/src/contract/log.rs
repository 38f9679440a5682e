//! The trajectory log's failures.
use crate::text;
use crate::contract::event::Event;
use vstd::prelude::*;

verus! {

/// What went wrong with the trajectory log or its artifacts.
#[derive(Debug, PartialEq, Eq)]
pub enum LogError {
    Serialize(String),
    Io(String),
    /// The id carries no date to find its shard by.
    InvalidTraceId(String),
}

/// What a [`LogError`] holds.
#[verifier::ext_equal]
pub enum LogErrorView {
    Serialize(Seq<char>),
    Io(Seq<char>),
    InvalidTraceId(Seq<char>),
}

impl View for LogError {
    type V = LogErrorView;

    open spec fn view(&self) -> LogErrorView {
        match *self {
            LogError::Serialize(inner) => LogErrorView::Serialize(inner@),
            LogError::Io(inner) => LogErrorView::Io(inner@),
            LogError::InvalidTraceId(inner) => LogErrorView::InvalidTraceId(inner@),
        }
    }
}

impl DeepView for LogError {
    type V = LogErrorView;

    open spec fn deep_view(&self) -> LogErrorView {
        self@
    }
}

impl Clone for LogError {
    fn clone(&self) -> (r: Self)
        ensures
            r@ == self@,
    {
        match self {
            LogError::Serialize(inner) => LogError::Serialize(inner.clone()),
            LogError::Io(inner) => LogError::Io(inner.clone()),
            LogError::InvalidTraceId(inner) => LogError::InvalidTraceId(inner.clone()),
        }
    }
}

/// The text of a log error.
pub open spec fn log_error_text(error: LogErrorView) -> Seq<char> {
    match error {
        LogErrorView::Serialize(inner) => "event serialization failed: "@ + inner,
        LogErrorView::Io(inner) => "event log write failed: "@ + inner,
        LogErrorView::InvalidTraceId(id) => "trace id `"@ + id
            + "` carries no shard date (expected `tr-YYYYMMDD-…`)"@,
    }
}

impl LogError {
    /// The error for humans.
    pub fn to_text(&self) -> (r: String)
        ensures
            r@ == log_error_text(self@),
    {
        match self {
            LogError::Serialize(inner) => text::prefixed(
                "event serialization failed: ",
                inner.as_str(),
            ),
            LogError::Io(inner) => text::prefixed("event log write failed: ", inner.as_str()),
            LogError::InvalidTraceId(id) => {
                let mut out = text::prefixed("trace id `", id.as_str());
                out.append("` carries no shard date (expected `tr-YYYYMMDD-…`)");
                out
            },
        }
    }
}

/// Append-only trajectory sink: one call appends one event of one trace.
/// Implementations never reorder or rewrite.
pub trait EventSink: Send + Sync {
    fn append(&self, event: &Event) -> Result<(), LogError>;
}

} // verus!
