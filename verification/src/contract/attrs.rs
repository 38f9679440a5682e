//! Well-known attribute-bag keys: the long-lived `selfevol.*` vocabulary.
use vstd::prelude::*;

verus! {

/// Provider id as wired, recorded on the start-run command.
pub const PROVIDER: &'static str = "selfevol.provider";

/// Model id as sent on the wire.
pub const MODEL: &'static str = "selfevol.model";

/// Binary version that wrote the trace.
pub const CADMUS_VERSION: &'static str = "selfevol.cadmus.version";

/// 1-based assistant-turn index within the run.
pub const TURN: &'static str = "selfevol.turn";

/// The frozen prefix's change-detection key.
pub const PREFIX_HASH: &'static str = "selfevol.prefix_hash";

/// The split of the eval case that a run belongs to.
pub const EVAL_SPLIT: &'static str = "selfevol.eval_split";

/// The approval request that a tool result was decided under.
pub const APPROVAL_REQUEST_ID: &'static str = "selfevol.approval.request_id";

/// The position of a tool result's call in its gated batch.
pub const APPROVAL_CALL_INDEX: &'static str = "selfevol.approval.call_index";

} // verus!
