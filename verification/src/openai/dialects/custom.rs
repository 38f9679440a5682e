//! A custom OpenAI-compatible endpoint.
use crate::contract::capabilities::{
    CacheSupport, Capabilities, CapabilitiesView, ReasoningCaps, ReasoningCapsView, SoSupport,
    Support,
};
use crate::contract::error::{ModelError, ModelErrorView};
use crate::contract::request::{EffortLevel, OutputMode, OutputModeView, Reasoning};
use crate::openai::dialect;
use crate::openai::dialect::{Dialect, WireEffort, WireFormat, WireFormatView};
use crate::text;
use vstd::prelude::*;

verus! {

/// A custom OpenAI-compatible endpoint. Since such endpoints vary, the base
/// URL and the model are always explicit. It has no vendor quirks.
pub struct CustomDialect {
    model: String,
    base: String,
    capabilities: Capabilities,
}

/// What a model of the GPT-5 class can do.
pub open spec fn gpt_capabilities() -> CapabilitiesView {
    CapabilitiesView {
        tools: true,
        parallel_tools: Support::Yes,
        structured_output: SoSupport::NativeStrict,
        reasoning: Some(
            ReasoningCapsView {
                off_capable: true,
                efforts: seq![EffortLevel::Low, EffortLevel::Medium, EffortLevel::High],
                budget_capable: false,
                always_on: false,
            },
        ),
        prompt_cache: CacheSupport::Automatic,
        logprobs: false,
        max_context: 128_000,
        max_output: 16_000,
        opaque_echo: Seq::empty(),
    }
}

pub(crate) fn capabilities_of_gpt() -> (r: Capabilities)
    ensures
        r@ == gpt_capabilities(),
{
    let mut efforts: Vec<EffortLevel> = Vec::new();
    efforts.push(EffortLevel::Low);
    efforts.push(EffortLevel::Medium);
    efforts.push(EffortLevel::High);
    let opaque_echo: Vec<String> = Vec::new();
    let r = Capabilities {
        tools: true,
        parallel_tools: Support::Yes,
        structured_output: SoSupport::NativeStrict,
        reasoning: Some(
            ReasoningCaps {
                off_capable: true,
                efforts,
                budget_capable: false,
                always_on: false,
            },
        ),
        prompt_cache: CacheSupport::Automatic,
        logprobs: false,
        max_context: 128_000,
        max_output: 16_000,
        opaque_echo,
    };
    assert(r@ =~= gpt_capabilities());
    r
}

/// A URL with a slash at its end. The request path is joined onto it and
/// would replace a last segment without one.
pub open spec fn slash_terminated(url: Seq<char>) -> Seq<char> {
    if url.len() > 0 && url.last() == '/' {
        url
    } else {
        url.push('/')
    }
}

fn terminate(url: &str) -> (r: String)
    ensures
        r@ == slash_terminated(url@),
{
    let chars = text::chars_of(url);
    let mut out = url.to_owned();
    if chars.len() == 0 || chars[chars.len() - 1] != '/' {
        out.push('/');
    }
    out
}

impl CustomDialect {
    /// The endpoint, declared with what a model of the GPT-5 class can do.
    pub fn new(model: &str, base_url: &str) -> (r: CustomDialect)
        ensures
            r.id_text() == model@,
            r.model_text() == model@,
            r.base_url() == slash_terminated(base_url@),
            r.abilities() == gpt_capabilities(),
    {
        CustomDialect {
            model: model.to_owned(),
            base: terminate(base_url),
            capabilities: capabilities_of_gpt(),
        }
    }

    /// The endpoint, declared with what it really can do.
    pub fn with_capabilities(self, capabilities: Capabilities) -> (r: CustomDialect)
        ensures
            r.id_text() == self.id_text(),
            r.model_text() == self.model_text(),
            r.base_url() == self.base_url(),
            r.abilities() == capabilities@,
    {
        CustomDialect { model: self.model, base: self.base, capabilities }
    }
}

impl Dialect for CustomDialect {
    closed spec fn id_text(&self) -> Seq<char> {
        self.model@
    }

    closed spec fn base_url(&self) -> Seq<char> {
        self.base@
    }

    open spec fn key_variable(&self) -> Seq<char> {
        "CADMUS_CUSTOM_API_KEY"@
    }

    closed spec fn model_text(&self) -> Seq<char> {
        self.model@
    }

    closed spec fn abilities(&self) -> CapabilitiesView {
        self.capabilities@
    }

    open spec fn echoes(&self) -> bool {
        false
    }

    open spec fn vendor_fields(&self, reasoning: Reasoning) -> Option<Seq<(Seq<char>, Seq<char>)>> {
        None
    }

    open spec fn effort(&self, reasoning: Reasoning) -> Result<Option<WireEffort>, ModelErrorView> {
        dialect::mapped_reasoning(self.abilities().reasoning, reasoning)
    }

    open spec fn clamped(&self, temperature: u32) -> u32 {
        temperature
    }

    open spec fn format(&self, output: OutputModeView) -> Result<
        Option<WireFormatView>,
        ModelErrorView,
    > {
        dialect::mapped_output(self.abilities().structured_output, output)
    }

    fn id(&self) -> (r: &str) {
        self.model.as_str()
    }

    fn endpoint(&self) -> (r: String) {
        self.base.clone()
    }

    fn api_key_env(&self) -> (r: &'static str) {
        "CADMUS_CUSTOM_API_KEY"
    }

    fn model_name(&self) -> (r: &str) {
        self.model.as_str()
    }

    fn capabilities(&self) -> (r: Capabilities) {
        self.capabilities.clone()
    }

    fn echo_reasoning(&self) -> (r: bool) {
        false
    }

    fn extra_body(&self, _reasoning: &Reasoning) -> (r: Option<Vec<(String, String)>>) {
        None
    }

    fn map_reasoning(&self, reasoning: &Reasoning) -> (r: Result<Option<WireEffort>, ModelError>) {
        dialect::default_map_reasoning(&self.capabilities, reasoning)
    }

    fn clamp_temperature(&self, temperature: u32) -> (r: u32) {
        temperature
    }

    fn map_output(&self, output: &OutputMode) -> (r: Result<Option<WireFormat>, ModelError>) {
        dialect::default_map_output(&self.capabilities, output)
    }
}

} // verus!
