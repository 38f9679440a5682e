//! What a model can do.
use crate::contract::request::EffortLevel;
use crate::copies::{clone_option, clone_plain, clone_texts};
use vstd::prelude::*;

verus! {

/// Whether a flag is honoured.
#[derive(Debug, Clone, Copy, PartialEq, Eq, Structural)]
pub enum Support {
    Yes,
    /// The vendor accepts the flag but does not guarantee the behavior.
    AllowedNotGuaranteed,
    No,
}

/// How structured output is supported.
#[derive(Debug, Clone, Copy, PartialEq, Eq, Structural)]
pub enum SoSupport {
    NativeStrict,
    NativeLoose,
    JsonMode,
    PromptOnly,
}

/// How prompt caching is supported.
#[derive(Debug, Clone, Copy, PartialEq, Eq, Structural)]
pub enum CacheSupport {
    ExplicitBreakpoints,
    Automatic,
    NamedObject,
    DiskAuto,
    Absent,
}

/// What a model's reasoning can be set to.
#[derive(Debug, PartialEq, Eq)]
pub struct ReasoningCaps {
    pub off_capable: bool,
    pub efforts: Vec<EffortLevel>,
    pub budget_capable: bool,
    pub always_on: bool,
}

/// What a [`ReasoningCaps`] holds.
#[verifier::ext_equal]
pub struct ReasoningCapsView {
    pub off_capable: bool,
    pub efforts: Seq<EffortLevel>,
    pub budget_capable: bool,
    pub always_on: bool,
}

impl View for ReasoningCaps {
    type V = ReasoningCapsView;

    open spec fn view(&self) -> ReasoningCapsView {
        ReasoningCapsView {
            off_capable: self.off_capable,
            efforts: self.efforts@,
            budget_capable: self.budget_capable,
            always_on: self.always_on,
        }
    }
}

impl DeepView for ReasoningCaps {
    type V = ReasoningCapsView;

    open spec fn deep_view(&self) -> ReasoningCapsView {
        self@
    }
}

impl Clone for ReasoningCaps {
    fn clone(&self) -> (r: Self)
        ensures
            r@ == self@,
    {
        ReasoningCaps {
            off_capable: self.off_capable,
            efforts: clone_plain(&self.efforts),
            budget_capable: self.budget_capable,
            always_on: self.always_on,
        }
    }
}

/// What a model can do. Mismatches fail fast at the adapter instead of being
/// silently downgraded on the wire.
#[derive(Debug, PartialEq, Eq)]
pub struct Capabilities {
    pub tools: bool,
    pub parallel_tools: Support,
    pub structured_output: SoSupport,
    pub reasoning: Option<ReasoningCaps>,
    pub prompt_cache: CacheSupport,
    pub logprobs: bool,
    pub max_context: u32,
    pub max_output: u32,
    /// Opaque fields this model requires echoed back verbatim.
    pub opaque_echo: Vec<String>,
}

/// What a [`Capabilities`] holds.
#[verifier::ext_equal]
pub struct CapabilitiesView {
    pub tools: bool,
    pub parallel_tools: Support,
    pub structured_output: SoSupport,
    pub reasoning: Option<ReasoningCapsView>,
    pub prompt_cache: CacheSupport,
    pub logprobs: bool,
    pub max_context: u32,
    pub max_output: u32,
    pub opaque_echo: Seq<Seq<char>>,
}

impl View for Capabilities {
    type V = CapabilitiesView;

    open spec fn view(&self) -> CapabilitiesView {
        CapabilitiesView {
            tools: self.tools,
            parallel_tools: self.parallel_tools,
            structured_output: self.structured_output,
            reasoning: self.reasoning.deep_view(),
            prompt_cache: self.prompt_cache,
            logprobs: self.logprobs,
            max_context: self.max_context,
            max_output: self.max_output,
            opaque_echo: self.opaque_echo.deep_view(),
        }
    }
}

impl DeepView for Capabilities {
    type V = CapabilitiesView;

    open spec fn deep_view(&self) -> CapabilitiesView {
        self@
    }
}

impl Clone for Capabilities {
    fn clone(&self) -> (r: Self)
        ensures
            r@ == self@,
    {
        Capabilities {
            tools: self.tools,
            parallel_tools: self.parallel_tools,
            structured_output: self.structured_output,
            reasoning: clone_option(&self.reasoning),
            prompt_cache: self.prompt_cache,
            logprobs: self.logprobs,
            max_context: self.max_context,
            max_output: self.max_output,
            opaque_echo: clone_texts(&self.opaque_echo),
        }
    }
}

} // verus!
