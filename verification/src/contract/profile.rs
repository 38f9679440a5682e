//! Prompt-affinity data.
use vstd::prelude::*;

verus! {

/// How tools are described to a model.
#[derive(Debug, Clone, Copy, PartialEq, Eq, Structural)]
pub enum ToolDescriptionStyle {
    Terse,
    Detailed,
}

/// How examples are laid out for a model.
#[derive(Debug, Clone, Copy, PartialEq, Eq, Structural)]
pub enum FewShotFormat {
    ChatTurns,
    DelimitedBlocks,
}

/// Prompt-cache affinity of a model.
#[derive(Debug, Clone, Copy, PartialEq, Eq, Structural)]
pub struct CacheHints {
    /// When set, the harness must keep the prefix byte-stable.
    pub stable_prefix_required: bool,
}

/// Prompt-affinity data for one model: versioned config data, not code.
#[derive(Debug, PartialEq, Eq)]
pub struct ModelProfile {
    /// Matches the model name used in requests.
    pub id: String,
    pub version: u32,
    pub system_preamble: String,
    pub tool_description_style: ToolDescriptionStyle,
    pub few_shot_format: FewShotFormat,
    pub cache_hints: CacheHints,
}

/// What a [`ModelProfile`] holds.
#[verifier::ext_equal]
pub struct ModelProfileView {
    pub id: Seq<char>,
    pub version: u32,
    pub system_preamble: Seq<char>,
    pub tool_description_style: ToolDescriptionStyle,
    pub few_shot_format: FewShotFormat,
    pub cache_hints: CacheHints,
}

impl View for ModelProfile {
    type V = ModelProfileView;

    open spec fn view(&self) -> ModelProfileView {
        ModelProfileView {
            id: self.id@,
            version: self.version,
            system_preamble: self.system_preamble@,
            tool_description_style: self.tool_description_style,
            few_shot_format: self.few_shot_format,
            cache_hints: self.cache_hints,
        }
    }
}

impl DeepView for ModelProfile {
    type V = ModelProfileView;

    open spec fn deep_view(&self) -> ModelProfileView {
        self@
    }
}

impl Clone for ModelProfile {
    fn clone(&self) -> (r: Self)
        ensures
            r@ == self@,
    {
        ModelProfile {
            id: self.id.clone(),
            version: self.version,
            system_preamble: self.system_preamble.clone(),
            tool_description_style: self.tool_description_style,
            few_shot_format: self.few_shot_format,
            cache_hints: self.cache_hints,
        }
    }
}

} // verus!
