//! DeepSeek.
use crate::contract::capabilities::{
    CacheSupport, Capabilities, CapabilitiesView, ReasoningCaps, ReasoningCapsView, SoSupport,
    Support,
};
use crate::contract::error::{ModelError, ModelErrorView};
use crate::contract::request::{EffortLevel, OutputMode, OutputModeView, Reasoning};
use crate::openai::dialect;
use crate::openai::dialect::{Dialect, WireEffort, WireFormat, WireFormatView};
use vstd::prelude::*;

verus! {

/// DeepSeek, with `https://api.deepseek.com` as its endpoint. Thinking is
/// opt-in, and past thinking has to be echoed back.
pub struct DeepSeekDialect {
    model: String,
    capabilities: Capabilities,
}

/// What `deepseek-v4-flash` can do; the output limit is a conservative
/// registry value.
pub open spec fn v4_flash_capabilities() -> CapabilitiesView {
    CapabilitiesView {
        tools: true,
        parallel_tools: Support::Yes,
        structured_output: SoSupport::JsonMode,
        reasoning: Some(
            ReasoningCapsView {
                off_capable: true,
                efforts: seq![EffortLevel::Low, EffortLevel::High],
                budget_capable: false,
                always_on: false,
            },
        ),
        prompt_cache: CacheSupport::DiskAuto,
        logprobs: false,
        max_context: 128_000,
        max_output: 8_000,
        opaque_echo: seq!["reasoning_content"@],
    }
}

fn capabilities_of_v4_flash() -> (r: Capabilities)
    ensures
        r@ == v4_flash_capabilities(),
{
    let mut efforts: Vec<EffortLevel> = Vec::new();
    efforts.push(EffortLevel::Low);
    efforts.push(EffortLevel::High);
    let mut opaque_echo: Vec<String> = Vec::new();
    opaque_echo.push("reasoning_content".to_owned());
    let r = Capabilities {
        tools: true,
        parallel_tools: Support::Yes,
        structured_output: SoSupport::JsonMode,
        reasoning: Some(
            ReasoningCaps {
                off_capable: true,
                efforts,
                budget_capable: false,
                always_on: false,
            },
        ),
        prompt_cache: CacheSupport::DiskAuto,
        logprobs: false,
        max_context: 128_000,
        max_output: 8_000,
        opaque_echo,
    };
    assert(r@ =~= v4_flash_capabilities());
    r
}

/// The base URL.
pub const DEEPSEEK_ENDPOINT: &'static str = "https://api.deepseek.com/";

/// What turns thinking on, as JSON text.
pub const THINKING: &'static str = "{\"type\":\"enabled\"}";

/// Thinking is on exactly where an effort is asked for.
pub open spec fn thinking_field(reasoning: Reasoning) -> Option<Seq<(Seq<char>, Seq<char>)>> {
    match reasoning {
        Reasoning::Effort(_) => Some(seq![("thinking"@, THINKING@)]),
        _ => None,
    }
}

/// The effort parameter: none where thinking is off or left to the vendor,
/// else one of the two tiers, high for whatever is above low.
pub open spec fn thinking_effort(reasoning: Reasoning) -> Result<
    Option<WireEffort>,
    ModelErrorView,
> {
    match reasoning {
        Reasoning::Off | Reasoning::Adaptive => Ok(None),
        Reasoning::Effort(EffortLevel::Low) => Ok(Some(WireEffort::Low)),
        Reasoning::Effort(_) => Ok(Some(WireEffort::High)),
        Reasoning::Budget(_) => dialect::mismatch(
            "deepseek does not support token-budget reasoning"@,
        ),
    }
}

impl DeepSeekDialect {
    /// `deepseek-v4-flash`: the lightweight verification target.
    pub fn v4_flash() -> (r: DeepSeekDialect)
        ensures
            r.id_text() == "deepseek-v4-flash"@,
            r.model_text() == "deepseek-v4-flash"@,
            r.abilities() == v4_flash_capabilities(),
    {
        DeepSeekDialect {
            model: "deepseek-v4-flash".to_owned(),
            capabilities: capabilities_of_v4_flash(),
        }
    }
}

impl Dialect for DeepSeekDialect {
    closed spec fn id_text(&self) -> Seq<char> {
        self.model@
    }

    open spec fn base_url(&self) -> Seq<char> {
        DEEPSEEK_ENDPOINT@
    }

    open spec fn key_variable(&self) -> Seq<char> {
        "DEEPSEEK_API_KEY"@
    }

    closed spec fn model_text(&self) -> Seq<char> {
        self.model@
    }

    closed spec fn abilities(&self) -> CapabilitiesView {
        self.capabilities@
    }

    open spec fn echoes(&self) -> bool {
        true
    }

    open spec fn vendor_fields(&self, reasoning: Reasoning) -> Option<Seq<(Seq<char>, Seq<char>)>> {
        thinking_field(reasoning)
    }

    open spec fn effort(&self, reasoning: Reasoning) -> Result<Option<WireEffort>, ModelErrorView> {
        thinking_effort(reasoning)
    }

    open spec fn clamped(&self, temperature: u32) -> u32 {
        temperature
    }

    open spec fn format(&self, output: OutputModeView) -> Result<
        Option<WireFormatView>,
        ModelErrorView,
    > {
        dialect::mapped_output(self.abilities().structured_output, output)
    }

    fn id(&self) -> (r: &str) {
        self.model.as_str()
    }

    fn endpoint(&self) -> (r: String) {
        DEEPSEEK_ENDPOINT.to_owned()
    }

    fn api_key_env(&self) -> (r: &'static str) {
        "DEEPSEEK_API_KEY"
    }

    fn model_name(&self) -> (r: &str) {
        self.model.as_str()
    }

    fn capabilities(&self) -> (r: Capabilities) {
        self.capabilities.clone()
    }

    fn echo_reasoning(&self) -> (r: bool) {
        true
    }

    fn extra_body(&self, reasoning: &Reasoning) -> (r: Option<Vec<(String, String)>>) {
        match reasoning {
            Reasoning::Effort(_) => {
                let mut fields: Vec<(String, String)> = Vec::new();
                fields.push(("thinking".to_owned(), THINKING.to_owned()));
                assert(fields.deep_view() =~= seq![("thinking"@, THINKING@)]);
                Some(fields)
            },
            Reasoning::Off | Reasoning::Adaptive | Reasoning::Budget(_) => None,
        }
    }

    fn map_reasoning(&self, reasoning: &Reasoning) -> (r: Result<Option<WireEffort>, ModelError>) {
        match reasoning {
            Reasoning::Off | Reasoning::Adaptive => Ok(None),
            Reasoning::Effort(level) => {
                let mapped = match level {
                    EffortLevel::Low => WireEffort::Low,
                    EffortLevel::Medium | EffortLevel::High | EffortLevel::Max => WireEffort::High,
                };
                Ok(Some(mapped))
            },
            Reasoning::Budget(_) => Err(
                ModelError::CapabilityMismatch(
                    "deepseek does not support token-budget reasoning".to_owned(),
                ),
            ),
        }
    }

    fn clamp_temperature(&self, temperature: u32) -> (r: u32) {
        temperature
    }

    fn map_output(&self, output: &OutputMode) -> (r: Result<Option<WireFormat>, ModelError>) {
        dialect::default_map_output(&self.capabilities, output)
    }
}

} // verus!
