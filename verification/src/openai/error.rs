//! Failures of the transport, classified. The classification drives retries,
//! so it is conservative.
use crate::contract::error::{ModelError, ModelErrorView};
use crate::json;
use crate::json::{Value, ValueView};
use crate::text;
use vstd::prelude::*;

verus! {

/// What a broken stream was broken by, where the transport knows.
#[derive(Debug, PartialEq, Eq)]
pub enum StreamFault {
    /// An HTTP error response.
    Http {
        status: u16,
        body: String,
    },
    /// Anything else, as text.
    Other(String),
}

/// What a [`StreamFault`] holds.
#[verifier::ext_equal]
pub enum StreamFaultView {
    Http { status: u16, body: Seq<char> },
    Other(Seq<char>),
}

impl View for StreamFault {
    type V = StreamFaultView;

    open spec fn view(&self) -> StreamFaultView {
        match *self {
            StreamFault::Http { status, body } => StreamFaultView::Http {
                status,
                body: body@,
            },
            StreamFault::Other(inner) => StreamFaultView::Other(inner@),
        }
    }
}

impl DeepView for StreamFault {
    type V = StreamFaultView;

    open spec fn deep_view(&self) -> StreamFaultView {
        self@
    }
}

/// A failure of the transport, as plain values.
#[derive(Debug, PartialEq, Eq)]
pub enum WireError {
    /// An HTTP error response.
    Http {
        status: u16,
        body: String,
    },
    /// The web call failed.
    Call(String),
    /// The stream broke.
    Stream {
        fault: Option<StreamFault>,
        cause: String,
    },
    /// A frame of the stream is no JSON.
    StreamParse(String),
    /// There is nothing to authenticate with.
    Credentials(String),
    /// An error event inside the stream.
    ErrorEvent(Value),
    /// Anything else, as text.
    Other(String),
}

/// What a [`WireError`] holds.
#[verifier::ext_equal]
pub enum WireErrorView {
    Http { status: u16, body: Seq<char> },
    Call(Seq<char>),
    Stream { fault: Option<StreamFaultView>, cause: Seq<char> },
    StreamParse(Seq<char>),
    Credentials(Seq<char>),
    ErrorEvent(ValueView),
    Other(Seq<char>),
}

impl View for WireError {
    type V = WireErrorView;

    open spec fn view(&self) -> WireErrorView {
        match *self {
            WireError::Http { status, body } => WireErrorView::Http {
                status,
                body: body@,
            },
            WireError::Call(inner) => WireErrorView::Call(inner@),
            WireError::Stream { fault, cause } => WireErrorView::Stream {
                fault: fault.deep_view(),
                cause: cause@,
            },
            WireError::StreamParse(inner) => WireErrorView::StreamParse(inner@),
            WireError::Credentials(inner) => WireErrorView::Credentials(inner@),
            WireError::ErrorEvent(inner) => WireErrorView::ErrorEvent(inner@),
            WireError::Other(inner) => WireErrorView::Other(inner@),
        }
    }
}

impl DeepView for WireError {
    type V = WireErrorView;

    open spec fn deep_view(&self) -> WireErrorView {
        self@
    }
}

/// How much of a body an error keeps.
pub const EXCERPT_CHARS: usize = 500;

/// The head of a body: bodies can be arbitrarily large.
pub open spec fn excerpt_of(body: Seq<char>) -> Seq<char> {
    if body.len() <= EXCERPT_CHARS {
        body
    } else {
        body.take(EXCERPT_CHARS as int)
    }
}

fn excerpt(body: &str) -> (r: String)
    ensures
        r@ == excerpt_of(body@),
{
    let chars = text::chars_of(body);
    if chars.len() <= EXCERPT_CHARS {
        body.to_owned()
    } else {
        text::string_of(&chars, 0, EXCERPT_CHARS)
    }
}

/// The `error.message` of a JSON error body, where it has one that is a
/// string.
pub open spec fn reason_in(body: Seq<char>) -> Option<Seq<char>> {
    match json::parsed(body) {
        Ok(document) => match json::field_value(document, "error"@) {
            Some(error) => match json::field_value(error, "message"@) {
                Some(ValueView::String(message)) => Some(message),
                _ => None,
            },
            None => None,
        },
        Err(_) => None,
    }
}

/// The `error.message` of a JSON error body, where it has one that is a
/// string.
pub fn provider_reason(body: &str) -> (r: Option<String>)
    ensures
        r.deep_view() == reason_in(body@),
{
    match Value::parse(body) {
        Ok(document) => match document.get("error") {
            Some(error) => match error.get("message") {
                Some(Value::String(message)) => Some(message),
                _ => None,
            },
            None => None,
        },
        Err(_) => None,
    }
}

/// What a failed request is explained by: the provider's own reason, else the
/// head of the body; nothing where the body is blank.
pub open spec fn explanation(body: Seq<char>, reason: Option<Seq<char>>) -> Option<Seq<char>> {
    if text::trimmed(body).len() == 0 {
        None
    } else {
        match reason {
            Some(message) => Some(excerpt_of(message)),
            None => Some(excerpt_of(body)),
        }
    }
}

fn detail(body: &str, reason: Option<&str>) -> (r: Option<String>)
    ensures
        r.deep_view() == explanation(
            body@,
            match reason {
                Some(reason) => Some(reason@),
                None => None,
            },
        ),
{
    let blank = text::chars_of(text::trim(body).as_str()).len() == 0;
    if blank {
        return None;
    }
    match reason {
        Some(message) => Some(excerpt(message)),
        None => Some(excerpt(body)),
    }
}

/// Whether a body speaks of too long a context.
pub open spec fn speaks_of_context(body: Seq<char>) -> bool {
    text::occurs(body, "context_length"@) || text::occurs(body, "maximum context length"@)
}

/// What an HTTP error response comes to, given the provider's own reason.
pub open spec fn classified(status: u16, body: Seq<char>, reason: Option<Seq<char>>) -> ModelErrorView {
    if status == 401 || status == 403 {
        ModelErrorView::Auth(excerpt_of(body))
    } else if status == 408 || status == 409 || status == 425 || status == 429 {
        ModelErrorView::RateLimited { retry_after: None }
    } else if status == 400 {
        if speaks_of_context(body) {
            ModelErrorView::ContextLength
        } else {
            ModelErrorView::InvalidRequest(excerpt_of(body))
        }
    } else if status == 413 {
        ModelErrorView::ContextLength
    } else {
        ModelErrorView::Server {
            status,
            retriable: status >= 500,
            detail: explanation(body, reason),
        }
    }
}

/// Classifies an HTTP error response whose own reason is at hand. The response
/// headers are not, and with them how long to wait.
pub fn classify_with(status: u16, body: &str, reason: Option<&str>) -> (r: ModelError)
    ensures
        r@ == classified(
            status,
            body@,
            match reason {
                Some(reason) => Some(reason@),
                None => None,
            },
        ),
{
    match status {
        401 | 403 => ModelError::Auth(excerpt(body)),
        408 | 409 | 425 | 429 => ModelError::RateLimited { retry_after: None },
        400 => {
            if text::contains(body, "context_length") || text::contains(
                body,
                "maximum context length",
            ) {
                ModelError::ContextLength
            } else {
                ModelError::InvalidRequest(excerpt(body))
            }
        },
        413 => ModelError::ContextLength,
        _ => ModelError::Server { status, retriable: status >= 500, detail: detail(body, reason) },
    }
}

/// Classifies an HTTP error response.
pub fn classify_http(status: u16, body: &str) -> (r: ModelError)
    ensures
        r@ == classified(status, body@, reason_in(body@)),
{
    match provider_reason(body) {
        Some(reason) => classify_with(status, body, Some(reason.as_str())),
        None => classify_with(status, body, None),
    }
}

/// What an error event inside the stream comes to.
pub open spec fn classified_event(body: ValueView) -> ModelErrorView {
    let shown = json::rendered(body);
    if text::occurs(shown, "rate_limit"@) || text::occurs(shown, "insufficient_quota"@) {
        ModelErrorView::RateLimited { retry_after: None }
    } else {
        ModelErrorView::Protocol(excerpt_of(shown))
    }
}

/// Classifies an error event inside the stream.
pub fn classify_stream_error(body: &Value) -> (r: ModelError)
    ensures
        r@ == classified_event(body@),
{
    let shown = body.render();
    if text::contains(shown.as_str(), "rate_limit") || text::contains(
        shown.as_str(),
        "insufficient_quota",
    ) {
        ModelError::RateLimited { retry_after: None }
    } else {
        ModelError::Protocol(excerpt(shown.as_str()))
    }
}

/// What a failure of the transport comes to. Whatever is not recognized
/// degrades to an error that is not retried.
pub open spec fn mapped_error(error: WireErrorView) -> ModelErrorView {
    match error {
        WireErrorView::Http { status, body } => classified(status, body, reason_in(body)),
        WireErrorView::Call(shown) => ModelErrorView::Network(shown),
        WireErrorView::Stream { fault, cause } => match fault {
            Some(StreamFaultView::Http { status, body }) => classified(
                status,
                body,
                reason_in(body),
            ),
            Some(StreamFaultView::Other(shown)) => ModelErrorView::Network(shown),
            None => ModelErrorView::Network(cause),
        },
        WireErrorView::StreamParse(shown) => ModelErrorView::Protocol(shown),
        WireErrorView::Credentials(shown) => ModelErrorView::Auth(shown),
        WireErrorView::ErrorEvent(body) => classified_event(body),
        WireErrorView::Other(shown) => ModelErrorView::InvalidRequest(shown),
    }
}

/// Classifies a failure of the transport.
pub fn map_genai_error(error: WireError) -> (r: ModelError)
    ensures
        r@ == mapped_error(error@),
{
    match error {
        WireError::Http { status, body } => classify_http(status, body.as_str()),
        WireError::Call(shown) => ModelError::Network(shown),
        WireError::Stream { fault, cause } => match fault {
            Some(StreamFault::Http { status, body }) => classify_http(status, body.as_str()),
            Some(StreamFault::Other(shown)) => ModelError::Network(shown),
            None => ModelError::Network(cause),
        },
        WireError::StreamParse(shown) => ModelError::Protocol(shown),
        WireError::Credentials(shown) => ModelError::Auth(shown),
        WireError::ErrorEvent(body) => classify_stream_error(&body),
        WireError::Other(shown) => ModelError::InvalidRequest(shown),
    }
}

/// The classification is conservative: an HTTP response is called transient
/// only where its status says so.
pub proof fn only_transient_statuses_are_retried(
    status: u16,
    body: Seq<char>,
    reason: Option<Seq<char>>,
)
    ensures
        classified(status, body, reason) is RateLimited <==> (status == 408 || status == 409
            || status == 425 || status == 429),
        classified(status, body, reason) matches ModelErrorView::Server { retriable, .. }
            ==> retriable == (status >= 500),
{
}

/// An error keeps no more of a body than its head.
pub proof fn errors_stay_bounded(status: u16, body: Seq<char>, reason: Option<Seq<char>>)
    ensures
        match classified(status, body, reason) {
            ModelErrorView::Auth(shown) | ModelErrorView::InvalidRequest(shown) => shown.len()
                <= EXCERPT_CHARS,
            ModelErrorView::Server { detail: Some(shown), .. } => shown.len() <= EXCERPT_CHARS,
            _ => true,
        },
{
}

} // verus!
