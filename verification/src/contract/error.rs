//! Provider failures.
use crate::text;
use vstd::prelude::*;

verus! {

/// How long a provider asked to wait, to the nanosecond.
#[derive(Debug, Clone, Copy, PartialEq, Eq, Structural)]
pub struct RetryAfter {
    secs: u64,
    nanos: u32,
}

/// The text of a span of time, as the standard library shows it.
pub uninterp spec fn duration_text(secs: u64, nanos: u32) -> Seq<char>;

/// The `Debug` text of `std::time::Duration::new(secs, nanos)`, which depends
/// on the two numbers alone and is named [`duration_text`]. Constructing the
/// duration does not overflow, since the nanoseconds are less than a second.
#[verifier::external_body]
fn show_duration(secs: u64, nanos: u32) -> (r: String)
    requires
        nanos < 1_000_000_000,
    ensures
        r@ == duration_text(secs, nanos),
{
    format!("{:?}", std::time::Duration::new(secs, nanos))
}

impl RetryAfter {
    #[verifier::type_invariant]
    spec fn below_a_second(self) -> bool {
        self.nanos < 1_000_000_000
    }

    pub closed spec fn whole(self) -> u64 {
        self.secs
    }

    pub closed spec fn rest(self) -> u32 {
        self.nanos
    }

    /// A span of `secs` seconds and `nanos` nanoseconds, which are less than
    /// a second.
    pub fn new(secs: u64, nanos: u32) -> (r: Option<RetryAfter>)
        ensures
            match r {
                Some(span) => nanos < 1_000_000_000 && span.whole() == secs && span.rest()
                    == nanos,
                None => nanos >= 1_000_000_000,
            },
    {
        if nanos < 1_000_000_000 {
            Some(RetryAfter { secs, nanos })
        } else {
            None
        }
    }

    pub fn as_secs(&self) -> (r: u64)
        ensures
            r == self.whole(),
    {
        self.secs
    }

    pub fn subsec_nanos(&self) -> (r: u32)
        ensures
            r == self.rest(),
    {
        self.nanos
    }

    fn show(&self) -> (r: String)
        ensures
            r@ == duration_text(self.whole(), self.rest()),
    {
        proof {
            use_type_invariant(self);
        }
        show_duration(self.secs, self.nanos)
    }
}

/// What went wrong with a provider call. The variant decides whether to retry,
/// escalate to a bigger model, or fail the turn.
#[derive(Debug, PartialEq, Eq)]
pub enum ModelError {
    RateLimited {
        retry_after: Option<RetryAfter>,
    },
    /// Server and gateway failures; `retriable` distinguishes "try again" from
    /// "this request will never succeed".
    Server {
        status: u16,
        retriable: bool,
        /// The provider's own reason, where it gave one.
        detail: Option<String>,
    },
    Network(String),
    /// The wire did not conform to the dialect.
    Protocol(String),
    InvalidRequest(String),
    /// The request asked for something the model is declared not to support.
    CapabilityMismatch(String),
    Auth(String),
    ContextLength,
}

/// What a [`ModelError`] holds.
#[verifier::ext_equal]
pub enum ModelErrorView {
    RateLimited { retry_after: Option<RetryAfter> },
    Server { status: u16, retriable: bool, detail: Option<Seq<char>> },
    Network(Seq<char>),
    Protocol(Seq<char>),
    InvalidRequest(Seq<char>),
    CapabilityMismatch(Seq<char>),
    Auth(Seq<char>),
    ContextLength,
}

impl View for ModelError {
    type V = ModelErrorView;

    open spec fn view(&self) -> ModelErrorView {
        match *self {
            ModelError::RateLimited { retry_after } => ModelErrorView::RateLimited {
                retry_after,
            },
            ModelError::Server { status, retriable, detail } => ModelErrorView::Server {
                status,
                retriable,
                detail: detail.deep_view(),
            },
            ModelError::Network(inner) => ModelErrorView::Network(inner@),
            ModelError::Protocol(inner) => ModelErrorView::Protocol(inner@),
            ModelError::InvalidRequest(inner) => ModelErrorView::InvalidRequest(inner@),
            ModelError::CapabilityMismatch(inner) => ModelErrorView::CapabilityMismatch(inner@),
            ModelError::Auth(inner) => ModelErrorView::Auth(inner@),
            ModelError::ContextLength => ModelErrorView::ContextLength,
        }
    }
}

impl DeepView for ModelError {
    type V = ModelErrorView;

    open spec fn deep_view(&self) -> ModelErrorView {
        self@
    }
}

impl Clone for ModelError {
    fn clone(&self) -> (r: Self)
        ensures
            r@ == self@,
    {
        match self {
            ModelError::RateLimited { retry_after } => ModelError::RateLimited {
                retry_after: *retry_after,
            },
            ModelError::Server { status, retriable, detail } => ModelError::Server {
                status: *status,
                retriable: *retriable,
                detail: detail.clone(),
            },
            ModelError::Network(inner) => ModelError::Network(inner.clone()),
            ModelError::Protocol(inner) => ModelError::Protocol(inner.clone()),
            ModelError::InvalidRequest(inner) => ModelError::InvalidRequest(inner.clone()),
            ModelError::CapabilityMismatch(inner) => ModelError::CapabilityMismatch(inner.clone()),
            ModelError::Auth(inner) => ModelError::Auth(inner.clone()),
            ModelError::ContextLength => ModelError::ContextLength,
        }
    }
}

/// The text of a model error.
pub open spec fn error_text(error: ModelErrorView) -> Seq<char> {
    match error {
        ModelErrorView::RateLimited { retry_after } => match retry_after {
            Some(span) => "rate limited"@ + " (retry after "@ + duration_text(
                span.whole(),
                span.rest(),
            ) + ")"@,
            None => "rate limited"@,
        },
        ModelErrorView::Server { status, detail, .. } => {
            let head = "provider server error (HTTP "@ + text::decimal(status as nat) + ")"@;
            match detail {
                Some(detail) => head + ": "@ + detail,
                None => head,
            }
        },
        ModelErrorView::Network(inner) => "network error: "@ + inner,
        ModelErrorView::Protocol(inner) => "wire protocol violation: "@ + inner,
        ModelErrorView::InvalidRequest(inner) => "invalid request: "@ + inner,
        ModelErrorView::CapabilityMismatch(inner) => "capability mismatch: "@ + inner,
        ModelErrorView::Auth(inner) => "authentication failed: "@ + inner,
        ModelErrorView::ContextLength => "context length exceeded"@,
    }
}

impl ModelError {
    /// The error for humans.
    pub fn to_text(&self) -> (r: String)
        ensures
            r@ == error_text(self@),
    {
        match self {
            ModelError::RateLimited { retry_after } => {
                let mut out = "rate limited".to_owned();
                if let Some(span) = retry_after {
                    out.append(" (retry after ");
                    out.append(span.show().as_str());
                    out.append(")");
                }
                out
            },
            ModelError::Server { status, detail, .. } => {
                let mut out = "provider server error (HTTP ".to_owned();
                out.append(text::decimal_of(*status as u64).as_str());
                out.append(")");
                if let Some(detail) = detail {
                    out.append(": ");
                    out.append(detail.as_str());
                }
                out
            },
            ModelError::Network(inner) => text::prefixed("network error: ", inner.as_str()),
            ModelError::Protocol(inner) => text::prefixed(
                "wire protocol violation: ",
                inner.as_str(),
            ),
            ModelError::InvalidRequest(inner) => text::prefixed(
                "invalid request: ",
                inner.as_str(),
            ),
            ModelError::CapabilityMismatch(inner) => text::prefixed(
                "capability mismatch: ",
                inner.as_str(),
            ),
            ModelError::Auth(inner) => text::prefixed("authentication failed: ", inner.as_str()),
            ModelError::ContextLength => "context length exceeded".to_owned(),
        }
    }
}

} // verus!
