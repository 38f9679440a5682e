//! A verified agent runtime: the provider-neutral contract types, the pure
//! half of the agent loop, and the mapping onto an OpenAI-style wire.
pub mod contract;
pub mod copies;
pub mod json;
pub mod json_laws;
pub mod openai;
pub mod pairs;
pub mod runtime;
pub mod text;
pub mod text_laws;

pub use contract::approval::Approval;
pub use contract::capabilities::{CacheSupport, Capabilities, ReasoningCaps, SoSupport, Support};
pub use contract::context::{InstructionFile, PrefixRecord, SkillSummary, TodoItem, TodoStatus};
pub use contract::error::{ModelError, RetryAfter};
pub use contract::eval::{CaseResult, EvalCase, EvalReport, EvalSplit, Expectation};
pub use contract::event::{
    Attributes, Clock, Command, EstimateSource, Event, EventError, EventKind, FoldedRef, IdSequence,
    ScoreEvent, Status, SteerMode, TurnOutcome,
};
pub use contract::live::{
    CallSnapshot, InFlight, LiveItem, LiveKind, LiveSink, LiveUpdate, OpenTurn, PendingApproval,
    SettledApproval, TimedRecv, ToolCompletion, TurnSnapshot,
};
pub use contract::log::{EventSink, LogError};
pub use contract::message::{ContentPart, Message, Role, ToolCall};
pub use contract::profile::{CacheHints, FewShotFormat, ModelProfile, ToolDescriptionStyle};
pub use contract::request::{
    CacheDirective, ChatRequest, EffortLevel, OutputMode, Reasoning, Sampling, ToolChoice, ToolSpec,
};
pub use contract::state::{FinishRecord, RunState, ToolResultProjection};
pub use contract::stream::{FinishReason, StreamChunk, Usage};
pub use contract::{attrs, error_kinds};
pub use openai::dialect::Dialect;
pub use openai::dialects::custom::CustomDialect;
pub use openai::dialects::deepseek::DeepSeekDialect;
pub use openai::dialects::kimi::KimiDialect;
pub use openai::dialects::relay_gpt::RelayGptDialect;
pub use openai::dialects::{dialect_by_name, dialect_names, BuiltinDialect};
pub use runtime::agent::failure::AgentError;
pub use runtime::agent::fold::FoldPolicy;
pub use runtime::agent::run::{AgentLoop, ContextBundle, Run, RunOutcome};
pub use runtime::agent::tool::{Concurrency, Effect, ToolDeclaration, ToolError};
pub use runtime::assembler::{AssembledTurn, MessageAssembler};
pub use runtime::context::{FrozenPrefix, SYSTEM_PROMPT};
pub use runtime::eval::score_case;
pub use runtime::replay::ReplayProvider;
pub use runtime::trailer::{
    render_trailer, GitStatus, InstructionTracker, NoInstructions, NoProbe, StatusProbe,
    TrailerTime, TrailerView,
};
pub use runtime::trajectory::replay_trace;
