//! A GPT behind a relay station.
use crate::contract::capabilities::{Capabilities, CapabilitiesView};
use crate::contract::error::{ModelError, ModelErrorView};
use crate::contract::request::{OutputMode, OutputModeView, Reasoning};
use crate::openai::dialect;
use crate::openai::dialect::{Dialect, WireEffort, WireFormat, WireFormatView};
use crate::openai::dialects::custom;
use vstd::prelude::*;

verus! {

/// A GPT behind a relay station: an OpenAI-compatible endpoint whose base URL
/// is always explicit and taken as it is given. It has no vendor quirks.
pub struct RelayGptDialect {
    model: String,
    base: String,
    capabilities: Capabilities,
}

impl RelayGptDialect {
    /// The relay, declared with what a model of the GPT-5 class can do.
    pub fn new(model: &str, base_url: &str) -> (r: RelayGptDialect)
        ensures
            r.id_text() == model@,
            r.model_text() == model@,
            r.base_url() == base_url@,
            r.abilities() == custom::gpt_capabilities(),
    {
        RelayGptDialect {
            model: model.to_owned(),
            base: base_url.to_owned(),
            capabilities: custom::capabilities_of_gpt(),
        }
    }

    /// The relay, declared with what the model behind it really can do.
    pub fn with_capabilities(self, capabilities: Capabilities) -> (r: RelayGptDialect)
        ensures
            r.id_text() == self.id_text(),
            r.model_text() == self.model_text(),
            r.base_url() == self.base_url(),
            r.abilities() == capabilities@,
    {
        RelayGptDialect { model: self.model, base: self.base, capabilities }
    }
}

impl Dialect for RelayGptDialect {
    closed spec fn id_text(&self) -> Seq<char> {
        self.model@
    }

    closed spec fn base_url(&self) -> Seq<char> {
        self.base@
    }

    open spec fn key_variable(&self) -> Seq<char> {
        "RELAY_GPT_API_KEY"@
    }

    closed spec fn model_text(&self) -> Seq<char> {
        self.model@
    }

    closed spec fn abilities(&self) -> CapabilitiesView {
        self.capabilities@
    }

    open spec fn echoes(&self) -> bool {
        false
    }

    open spec fn vendor_fields(&self, reasoning: Reasoning) -> Option<Seq<(Seq<char>, Seq<char>)>> {
        None
    }

    open spec fn effort(&self, reasoning: Reasoning) -> Result<Option<WireEffort>, ModelErrorView> {
        dialect::mapped_reasoning(self.abilities().reasoning, reasoning)
    }

    open spec fn clamped(&self, temperature: u32) -> u32 {
        temperature
    }

    open spec fn format(&self, output: OutputModeView) -> Result<
        Option<WireFormatView>,
        ModelErrorView,
    > {
        dialect::mapped_output(self.abilities().structured_output, output)
    }

    fn id(&self) -> (r: &str) {
        self.model.as_str()
    }

    fn endpoint(&self) -> (r: String) {
        self.base.clone()
    }

    fn api_key_env(&self) -> (r: &'static str) {
        "RELAY_GPT_API_KEY"
    }

    fn model_name(&self) -> (r: &str) {
        self.model.as_str()
    }

    fn capabilities(&self) -> (r: Capabilities) {
        self.capabilities.clone()
    }

    fn echo_reasoning(&self) -> (r: bool) {
        false
    }

    fn extra_body(&self, _reasoning: &Reasoning) -> (r: Option<Vec<(String, String)>>) {
        None
    }

    fn map_reasoning(&self, reasoning: &Reasoning) -> (r: Result<Option<WireEffort>, ModelError>) {
        dialect::default_map_reasoning(&self.capabilities, reasoning)
    }

    fn clamp_temperature(&self, temperature: u32) -> (r: u32) {
        temperature
    }

    fn map_output(&self, output: &OutputMode) -> (r: Result<Option<WireFormat>, ModelError>) {
        dialect::default_map_output(&self.capabilities, output)
    }
}

} // verus!
