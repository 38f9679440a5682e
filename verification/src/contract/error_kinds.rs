//! Stable machine strings for [`crate::EventError::kind`].
use vstd::prelude::*;

verus! {

pub const RATE_LIMITED: &'static str = "rate_limited";

pub const SERVER: &'static str = "server";

pub const NETWORK: &'static str = "network";

pub const PROTOCOL: &'static str = "protocol";

pub const INVALID_REQUEST: &'static str = "invalid_request";

pub const CAPABILITY_MISMATCH: &'static str = "capability_mismatch";

pub const AUTH: &'static str = "auth";

pub const CONTEXT_LENGTH: &'static str = "context_length";

/// Assistant turn with no text, reasoning or tool calls.
pub const EMPTY_TURN: &'static str = "empty_turn";

/// Assistant turn limit exceeded.
pub const TURN_LIMIT: &'static str = "turn_limit";

/// A wired tool's invocation returned an error.
pub const TOOL: &'static str = "tool";

/// The model named a tool that is not wired in.
pub const UNKNOWN_TOOL: &'static str = "unknown_tool";

/// A client ended the run.
pub const INTERRUPTED: &'static str = "interrupted";

/// An approver, a timeout or a vanished client denied a gated call.
pub const APPROVAL_REJECTED: &'static str = "approval_rejected";

} // verus!
