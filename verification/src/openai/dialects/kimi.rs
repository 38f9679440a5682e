//! Kimi (Moonshot AI).
use crate::contract::capabilities::{
    CacheSupport, Capabilities, CapabilitiesView, ReasoningCaps, ReasoningCapsView, SoSupport,
    Support,
};
use crate::contract::error::{ModelError, ModelErrorView};
use crate::contract::request::{EffortLevel, OutputMode, OutputModeView, Reasoning};
use crate::openai::dialect;
use crate::openai::dialect::{Dialect, WireEffort, WireFormat, WireFormatView};
use vstd::prelude::*;

verus! {

/// Kimi, with `https://api.moonshot.cn/v1` as its endpoint. Reasoning is
/// always on, in tiers.
pub struct KimiDialect {
    model: String,
    capabilities: Capabilities,
}

/// What `kimi-k3` can do; the output limit is a conservative registry value.
pub open spec fn k3_capabilities() -> CapabilitiesView {
    CapabilitiesView {
        tools: true,
        parallel_tools: Support::Yes,
        structured_output: SoSupport::JsonMode,
        reasoning: Some(
            ReasoningCapsView {
                off_capable: false,
                efforts: seq![EffortLevel::Low, EffortLevel::High, EffortLevel::Max],
                budget_capable: false,
                always_on: true,
            },
        ),
        prompt_cache: CacheSupport::Automatic,
        logprobs: false,
        max_context: 1_000_000,
        max_output: 32_000,
        opaque_echo: Seq::empty(),
    }
}

fn capabilities_of_k3() -> (r: Capabilities)
    ensures
        r@ == k3_capabilities(),
{
    let mut efforts: Vec<EffortLevel> = Vec::new();
    efforts.push(EffortLevel::Low);
    efforts.push(EffortLevel::High);
    efforts.push(EffortLevel::Max);
    let opaque_echo: Vec<String> = Vec::new();
    let r = Capabilities {
        tools: true,
        parallel_tools: Support::Yes,
        structured_output: SoSupport::JsonMode,
        reasoning: Some(
            ReasoningCaps {
                off_capable: false,
                efforts,
                budget_capable: false,
                always_on: true,
            },
        ),
        prompt_cache: CacheSupport::Automatic,
        logprobs: false,
        max_context: 1_000_000,
        max_output: 32_000,
        opaque_echo,
    };
    assert(r@ =~= k3_capabilities());
    r
}

/// The base URL: it ends with a slash, since the request path is joined onto
/// it and would replace a last segment without one.
pub const KIMI_ENDPOINT: &'static str = "https://api.moonshot.cn/v1/";

/// The IEEE single bits of 1.
pub const ONE: u32 = 0x3f80_0000;

/// The bits of negative zero.
pub const NEGATIVE_ZERO: u32 = 0x8000_0000;

/// The bits of infinity.
pub const INFINITY: u32 = 0x7f80_0000;

/// The bits of negative infinity.
pub const NEGATIVE_INFINITY: u32 = 0xff80_0000;

/// The bits of an IEEE single moved into the range from 0 to 1: a number
/// below it becomes 0, one above it becomes 1. Negative zero lies in the range,
/// and what is not a number stays as it is.
pub open spec fn in_unit_range(bits: u32) -> u32 {
    if NEGATIVE_ZERO < bits <= NEGATIVE_INFINITY {
        0
    } else if ONE < bits <= INFINITY {
        ONE
    } else {
        bits
    }
}

impl KimiDialect {
    /// `kimi-k3`: a context of a million tokens, always-on thinking in tiers.
    pub fn k3() -> (r: KimiDialect)
        ensures
            r.id_text() == "kimi-k3"@,
            r.model_text() == "kimi-k3"@,
            r.abilities() == k3_capabilities(),
    {
        KimiDialect { model: "kimi-k3".to_owned(), capabilities: capabilities_of_k3() }
    }
}

impl Dialect for KimiDialect {
    closed spec fn id_text(&self) -> Seq<char> {
        self.model@
    }

    open spec fn base_url(&self) -> Seq<char> {
        KIMI_ENDPOINT@
    }

    open spec fn key_variable(&self) -> Seq<char> {
        "MOONSHOT_API_KEY"@
    }

    closed spec fn model_text(&self) -> Seq<char> {
        self.model@
    }

    closed spec fn abilities(&self) -> CapabilitiesView {
        self.capabilities@
    }

    open spec fn echoes(&self) -> bool {
        false
    }

    open spec fn vendor_fields(&self, reasoning: Reasoning) -> Option<Seq<(Seq<char>, Seq<char>)>> {
        None
    }

    open spec fn effort(&self, reasoning: Reasoning) -> Result<Option<WireEffort>, ModelErrorView> {
        dialect::mapped_reasoning(self.abilities().reasoning, reasoning)
    }

    open spec fn clamped(&self, temperature: u32) -> u32 {
        in_unit_range(temperature)
    }

    open spec fn format(&self, output: OutputModeView) -> Result<
        Option<WireFormatView>,
        ModelErrorView,
    > {
        dialect::mapped_output(self.abilities().structured_output, output)
    }

    fn id(&self) -> (r: &str) {
        self.model.as_str()
    }

    fn endpoint(&self) -> (r: String) {
        KIMI_ENDPOINT.to_owned()
    }

    fn api_key_env(&self) -> (r: &'static str) {
        "MOONSHOT_API_KEY"
    }

    fn model_name(&self) -> (r: &str) {
        self.model.as_str()
    }

    fn capabilities(&self) -> (r: Capabilities) {
        self.capabilities.clone()
    }

    fn echo_reasoning(&self) -> (r: bool) {
        false
    }

    fn extra_body(&self, _reasoning: &Reasoning) -> (r: Option<Vec<(String, String)>>) {
        None
    }

    fn map_reasoning(&self, reasoning: &Reasoning) -> (r: Result<Option<WireEffort>, ModelError>) {
        dialect::default_map_reasoning(&self.capabilities, reasoning)
    }

    fn clamp_temperature(&self, temperature: u32) -> (r: u32) {
        if NEGATIVE_ZERO < temperature && temperature <= NEGATIVE_INFINITY {
            0
        } else if ONE < temperature && temperature <= INFINITY {
            ONE
        } else {
            temperature
        }
    }

    fn map_output(&self, output: &OutputMode) -> (r: Result<Option<WireFormat>, ModelError>) {
        dialect::default_map_output(&self.capabilities, output)
    }
}

} // verus!
