//! The vendors, and the registry of their names.
pub mod custom;
pub mod deepseek;
pub mod kimi;
pub mod relay_gpt;

use crate::contract::capabilities::{Capabilities, CapabilitiesView};
use crate::contract::error::{ModelError, ModelErrorView};
use crate::contract::request::{OutputMode, OutputModeView, Reasoning};
use crate::openai::dialect::{Dialect, WireEffort, WireFormat, WireFormatView};
use crate::openai::dialects::deepseek::DeepSeekDialect;
use crate::openai::dialects::kimi::KimiDialect;
use crate::text;
use vstd::prelude::*;

verus! {

/// A dialect of the registry.
pub enum BuiltinDialect {
    Kimi(KimiDialect),
    DeepSeek(DeepSeekDialect),
}

impl Dialect for BuiltinDialect {
    open spec fn id_text(&self) -> Seq<char> {
        match self {
            BuiltinDialect::Kimi(inner) => inner.id_text(),
            BuiltinDialect::DeepSeek(inner) => inner.id_text(),
        }
    }

    open spec fn base_url(&self) -> Seq<char> {
        match self {
            BuiltinDialect::Kimi(inner) => inner.base_url(),
            BuiltinDialect::DeepSeek(inner) => inner.base_url(),
        }
    }

    open spec fn key_variable(&self) -> Seq<char> {
        match self {
            BuiltinDialect::Kimi(inner) => inner.key_variable(),
            BuiltinDialect::DeepSeek(inner) => inner.key_variable(),
        }
    }

    open spec fn model_text(&self) -> Seq<char> {
        match self {
            BuiltinDialect::Kimi(inner) => inner.model_text(),
            BuiltinDialect::DeepSeek(inner) => inner.model_text(),
        }
    }

    open spec fn abilities(&self) -> CapabilitiesView {
        match self {
            BuiltinDialect::Kimi(inner) => inner.abilities(),
            BuiltinDialect::DeepSeek(inner) => inner.abilities(),
        }
    }

    open spec fn echoes(&self) -> bool {
        match self {
            BuiltinDialect::Kimi(inner) => inner.echoes(),
            BuiltinDialect::DeepSeek(inner) => inner.echoes(),
        }
    }

    open spec fn vendor_fields(&self, reasoning: Reasoning) -> Option<Seq<(Seq<char>, Seq<char>)>> {
        match self {
            BuiltinDialect::Kimi(inner) => inner.vendor_fields(reasoning),
            BuiltinDialect::DeepSeek(inner) => inner.vendor_fields(reasoning),
        }
    }

    open spec fn effort(&self, reasoning: Reasoning) -> Result<Option<WireEffort>, ModelErrorView> {
        match self {
            BuiltinDialect::Kimi(inner) => inner.effort(reasoning),
            BuiltinDialect::DeepSeek(inner) => inner.effort(reasoning),
        }
    }

    open spec fn clamped(&self, temperature: u32) -> u32 {
        match self {
            BuiltinDialect::Kimi(inner) => inner.clamped(temperature),
            BuiltinDialect::DeepSeek(inner) => inner.clamped(temperature),
        }
    }

    open spec fn format(&self, output: OutputModeView) -> Result<Option<WireFormatView>, ModelErrorView> {
        match self {
            BuiltinDialect::Kimi(inner) => inner.format(output),
            BuiltinDialect::DeepSeek(inner) => inner.format(output),
        }
    }

    fn id(&self) -> (r: &str) {
        match self {
            BuiltinDialect::Kimi(inner) => inner.id(),
            BuiltinDialect::DeepSeek(inner) => inner.id(),
        }
    }

    fn endpoint(&self) -> (r: String) {
        match self {
            BuiltinDialect::Kimi(inner) => inner.endpoint(),
            BuiltinDialect::DeepSeek(inner) => inner.endpoint(),
        }
    }

    fn api_key_env(&self) -> (r: &'static str) {
        match self {
            BuiltinDialect::Kimi(inner) => inner.api_key_env(),
            BuiltinDialect::DeepSeek(inner) => inner.api_key_env(),
        }
    }

    fn model_name(&self) -> (r: &str) {
        match self {
            BuiltinDialect::Kimi(inner) => inner.model_name(),
            BuiltinDialect::DeepSeek(inner) => inner.model_name(),
        }
    }

    fn capabilities(&self) -> (r: Capabilities) {
        match self {
            BuiltinDialect::Kimi(inner) => inner.capabilities(),
            BuiltinDialect::DeepSeek(inner) => inner.capabilities(),
        }
    }

    fn echo_reasoning(&self) -> (r: bool) {
        match self {
            BuiltinDialect::Kimi(inner) => inner.echo_reasoning(),
            BuiltinDialect::DeepSeek(inner) => inner.echo_reasoning(),
        }
    }

    fn extra_body(&self, reasoning: &Reasoning) -> (r: Option<Vec<(String, String)>>) {
        match self {
            BuiltinDialect::Kimi(inner) => inner.extra_body(reasoning),
            BuiltinDialect::DeepSeek(inner) => inner.extra_body(reasoning),
        }
    }

    fn map_reasoning(&self, reasoning: &Reasoning) -> (r: Result<Option<WireEffort>, ModelError>) {
        match self {
            BuiltinDialect::Kimi(inner) => inner.map_reasoning(reasoning),
            BuiltinDialect::DeepSeek(inner) => inner.map_reasoning(reasoning),
        }
    }

    fn clamp_temperature(&self, temperature: u32) -> (r: u32) {
        match self {
            BuiltinDialect::Kimi(inner) => inner.clamp_temperature(temperature),
            BuiltinDialect::DeepSeek(inner) => inner.clamp_temperature(temperature),
        }
    }

    fn map_output(&self, output: &OutputMode) -> (r: Result<Option<WireFormat>, ModelError>) {
        match self {
            BuiltinDialect::Kimi(inner) => inner.map_output(output),
            BuiltinDialect::DeepSeek(inner) => inner.map_output(output),
        }
    }
}

/// The registry: provider name to dialect.
pub fn dialect_by_name(name: &str) -> (r: Option<BuiltinDialect>)
    ensures
        match r {
            Some(BuiltinDialect::Kimi(inner)) => name@ == "kimi"@ && inner.id_text() == "kimi-k3"@
                && inner.model_text() == "kimi-k3"@ && inner.abilities()
                == kimi::k3_capabilities(),
            Some(BuiltinDialect::DeepSeek(inner)) => name@ == "deepseek"@ && inner.id_text()
                == "deepseek-v4-flash"@ && inner.model_text() == "deepseek-v4-flash"@
                && inner.abilities() == deepseek::v4_flash_capabilities(),
            None => name@ != "kimi"@ && name@ != "deepseek"@,
        },
        r is Some <==> provider_names().contains(name@) && name@ != "custom"@,
{
    proof {
        reveal_strlit("kimi");
        reveal_strlit("deepseek");
        reveal_strlit("custom");
        assert(provider_names()[0] == "kimi"@);
        assert(provider_names()[1] == "deepseek"@);
        assert("kimi"@.len() != "custom"@.len());
        assert("deepseek"@.len() != "custom"@.len());
    }
    if text::same(name, "kimi") {
        Some(BuiltinDialect::Kimi(KimiDialect::k3()))
    } else if text::same(name, "deepseek") {
        Some(BuiltinDialect::DeepSeek(DeepSeekDialect::v4_flash()))
    } else {
        None
    }
}

/// Every valid provider name.
pub open spec fn provider_names() -> Seq<Seq<char>> {
    seq!["kimi"@, "deepseek"@, "custom"@]
}

/// Every valid provider name: the vendors of the registry, and `custom` for an
/// endpoint of one's own.
pub fn dialect_names() -> (r: Vec<&'static str>)
    ensures
        r@.map_values(|name: &'static str| name@) == provider_names(),
{
    let mut names: Vec<&'static str> = Vec::new();
    names.push("kimi");
    names.push("deepseek");
    names.push("custom");
    assert(names@.map_values(|name: &'static str| name@) =~= provider_names());
    names
}

/// Whether a base URL ends with a slash, as the join with a request path needs
/// it.
pub open spec fn joins_cleanly(url: Seq<char>) -> bool {
    url.len() > 0 && url.last() == '/'
}

/// The endpoint of every registered dialect, and of a custom one whatever its
/// base URL, ends with a slash.
pub proof fn endpoints_are_slash_terminated(builtin: &BuiltinDialect, url: Seq<char>)
    ensures
        joins_cleanly(builtin.base_url()),
        joins_cleanly(custom::slash_terminated(url)),
{
    reveal_strlit("https://api.moonshot.cn/v1/");
    reveal_strlit("https://api.deepseek.com/");
}

} // verus!
