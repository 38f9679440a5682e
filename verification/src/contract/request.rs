//! The provider call.
use crate::copies::{clone_plain, clone_vec};
use crate::contract::message;
use crate::contract::message::{Message, MessageView, Role};
use crate::json::{Value, ValueView};
use vstd::prelude::*;

verus! {

/// A tool as it is presented to the model.
#[derive(Debug, PartialEq, Eq)]
pub struct ToolSpec {
    pub name: String,
    pub description: String,
    /// JSON Schema of the arguments object.
    pub parameters: Value,
}

/// What a [`ToolSpec`] holds.
#[verifier::ext_equal]
pub struct ToolSpecView {
    pub name: Seq<char>,
    pub description: Seq<char>,
    pub parameters: ValueView,
}

impl View for ToolSpec {
    type V = ToolSpecView;

    open spec fn view(&self) -> ToolSpecView {
        ToolSpecView {
            name: self.name@,
            description: self.description@,
            parameters: self.parameters@,
        }
    }
}

impl DeepView for ToolSpec {
    type V = ToolSpecView;

    open spec fn deep_view(&self) -> ToolSpecView {
        self@
    }
}

impl Clone for ToolSpec {
    fn clone(&self) -> (r: Self)
        ensures
            r@ == self@,
    {
        ToolSpec {
            name: self.name.clone(),
            description: self.description.clone(),
            parameters: self.parameters.clone(),
        }
    }
}

/// Which tools the model may or must call.
#[derive(Debug, PartialEq, Eq)]
pub enum ToolChoice {
    Auto,
    Never,
    Required,
    Named(String),
}

/// What a [`ToolChoice`] holds.
#[verifier::ext_equal]
pub enum ToolChoiceView {
    Auto,
    Never,
    Required,
    Named(Seq<char>),
}

impl View for ToolChoice {
    type V = ToolChoiceView;

    open spec fn view(&self) -> ToolChoiceView {
        match *self {
            ToolChoice::Auto => ToolChoiceView::Auto,
            ToolChoice::Never => ToolChoiceView::Never,
            ToolChoice::Required => ToolChoiceView::Required,
            ToolChoice::Named(inner) => ToolChoiceView::Named(inner@),
        }
    }
}

impl DeepView for ToolChoice {
    type V = ToolChoiceView;

    open spec fn deep_view(&self) -> ToolChoiceView {
        self@
    }
}

impl Clone for ToolChoice {
    fn clone(&self) -> (r: Self)
        ensures
            r@ == self@,
    {
        match self {
            ToolChoice::Auto => ToolChoice::Auto,
            ToolChoice::Never => ToolChoice::Never,
            ToolChoice::Required => ToolChoice::Required,
            ToolChoice::Named(inner) => ToolChoice::Named(inner.clone()),
        }
    }
}

/// Structured-output mode.
#[derive(Debug, PartialEq, Eq)]
pub enum OutputMode {
    Text,
    Json,
    Schema {
        schema: Value,
        strict: bool,
    },
}

/// What a [`OutputMode`] holds.
#[verifier::ext_equal]
pub enum OutputModeView {
    Text,
    Json,
    Schema { schema: ValueView, strict: bool },
}

impl View for OutputMode {
    type V = OutputModeView;

    open spec fn view(&self) -> OutputModeView {
        match *self {
            OutputMode::Text => OutputModeView::Text,
            OutputMode::Json => OutputModeView::Json,
            OutputMode::Schema { schema, strict } => OutputModeView::Schema {
                schema: schema@,
                strict,
            },
        }
    }
}

impl DeepView for OutputMode {
    type V = OutputModeView;

    open spec fn deep_view(&self) -> OutputModeView {
        self@
    }
}

impl Clone for OutputMode {
    fn clone(&self) -> (r: Self)
        ensures
            r@ == self@,
    {
        match self {
            OutputMode::Text => OutputMode::Text,
            OutputMode::Json => OutputMode::Json,
            OutputMode::Schema { schema, strict } => OutputMode::Schema {
                schema: schema.clone(),
                strict: *strict,
            },
        }
    }
}

/// Reasoning effort tiers.
#[derive(Debug, Clone, Copy, PartialEq, Eq, Structural, PartialOrd, Ord)]
pub enum EffortLevel {
    Low,
    Medium,
    High,
    Max,
}

/// How much the model should reason.
#[derive(Debug, Clone, Copy, PartialEq, Eq, Structural)]
pub enum Reasoning {
    Off,
    Adaptive,
    Effort(EffortLevel),
    Budget(u32),
}

/// Sampling parameters. The two fractions are held as the bits of an IEEE
/// single.
#[derive(Debug, Clone, Copy, PartialEq, Eq, Structural)]
pub struct Sampling {
    pub temperature: Option<u32>,
    pub top_p: Option<u32>,
    pub seed: Option<u64>,
}

/// Prompt-cache placement.
#[derive(Debug, PartialEq, Eq)]
pub enum CacheDirective {
    Off,
    Auto,
    /// Indexes into [`ChatRequest::messages`] that carry a cache breakpoint.
    Breakpoints(Vec<usize>),
}

/// What a [`CacheDirective`] holds.
#[verifier::ext_equal]
pub enum CacheDirectiveView {
    Off,
    Auto,
    Breakpoints(Seq<usize>),
}

impl View for CacheDirective {
    type V = CacheDirectiveView;

    open spec fn view(&self) -> CacheDirectiveView {
        match *self {
            CacheDirective::Off => CacheDirectiveView::Off,
            CacheDirective::Auto => CacheDirectiveView::Auto,
            CacheDirective::Breakpoints(inner) => CacheDirectiveView::Breakpoints(inner@),
        }
    }
}

impl DeepView for CacheDirective {
    type V = CacheDirectiveView;

    open spec fn deep_view(&self) -> CacheDirectiveView {
        self@
    }
}

impl Clone for CacheDirective {
    fn clone(&self) -> (r: Self)
        ensures
            r@ == self@,
    {
        match self {
            CacheDirective::Off => CacheDirective::Off,
            CacheDirective::Auto => CacheDirective::Auto,
            CacheDirective::Breakpoints(inner) => CacheDirective::Breakpoints(clone_plain(inner)),
        }
    }
}

/// A provider call. Only the portable intersection lives here; anything
/// vendor-private goes through [`ChatRequest::extra`].
#[derive(Debug, PartialEq, Eq)]
pub struct ChatRequest {
    pub messages: Vec<Message>,
    pub tools: Vec<ToolSpec>,
    pub tool_choice: ToolChoice,
    /// `None` = vendor default.
    pub parallel_tools: Option<bool>,
    pub output: OutputMode,
    /// Tiers the adapter does not support are clamped to the nearest tier.
    pub reasoning: Reasoning,
    pub max_output_tokens: u32,
    pub sampling: Sampling,
    pub cache: CacheDirective,
    /// Escape hatch: vendor passthrough.
    pub extra: Value,
}

/// What a [`ChatRequest`] holds.
#[verifier::ext_equal]
pub struct ChatRequestView {
    pub messages: Seq<MessageView>,
    pub tools: Seq<ToolSpecView>,
    pub tool_choice: ToolChoiceView,
    pub parallel_tools: Option<bool>,
    pub output: OutputModeView,
    pub reasoning: Reasoning,
    pub max_output_tokens: u32,
    pub sampling: Sampling,
    pub cache: CacheDirectiveView,
    pub extra: ValueView,
}

impl View for ChatRequest {
    type V = ChatRequestView;

    open spec fn view(&self) -> ChatRequestView {
        ChatRequestView {
            messages: self.messages.deep_view(),
            tools: self.tools.deep_view(),
            tool_choice: self.tool_choice@,
            parallel_tools: self.parallel_tools,
            output: self.output@,
            reasoning: self.reasoning,
            max_output_tokens: self.max_output_tokens,
            sampling: self.sampling,
            cache: self.cache@,
            extra: self.extra@,
        }
    }
}

impl DeepView for ChatRequest {
    type V = ChatRequestView;

    open spec fn deep_view(&self) -> ChatRequestView {
        self@
    }
}

impl Clone for ChatRequest {
    fn clone(&self) -> (r: Self)
        ensures
            r@ == self@,
    {
        ChatRequest {
            messages: clone_vec(&self.messages),
            tools: clone_vec(&self.tools),
            tool_choice: self.tool_choice.clone(),
            parallel_tools: self.parallel_tools,
            output: self.output.clone(),
            reasoning: self.reasoning,
            max_output_tokens: self.max_output_tokens,
            sampling: self.sampling,
            cache: self.cache.clone(),
            extra: self.extra.clone(),
        }
    }
}

/// A plain single-turn text request.
pub open spec fn plain_request(text: Seq<char>, max_output_tokens: u32) -> ChatRequestView {
    ChatRequestView {
        messages: seq![message::text_message(Role::User, text)],
        tools: Seq::empty(),
        tool_choice: ToolChoiceView::Auto,
        parallel_tools: None,
        output: OutputModeView::Text,
        reasoning: Reasoning::Adaptive,
        max_output_tokens,
        sampling: Sampling { temperature: None, top_p: None, seed: None },
        cache: CacheDirectiveView::Off,
        extra: ValueView::Null,
    }
}

impl ChatRequest {
    /// A plain single-turn text request.
    pub fn user_text(text: &str, max_output_tokens: u32) -> (r: ChatRequest)
        ensures
            r@ == plain_request(text@, max_output_tokens),
    {
        let mut messages: Vec<Message> = Vec::new();
        messages.push(Message::user(text));
        let r = ChatRequest {
            messages,
            tools: Vec::new(),
            tool_choice: ToolChoice::Auto,
            parallel_tools: None,
            output: OutputMode::Text,
            reasoning: Reasoning::Adaptive,
            max_output_tokens,
            sampling: Sampling { temperature: None, top_p: None, seed: None },
            cache: CacheDirective::Off,
            extra: Value::Null,
        };
        assert(r@ =~= plain_request(text@, max_output_tokens));
        r
    }

    /// The same request with a different history, every other parameter
    /// unchanged.
    pub fn with_messages(self, messages: Vec<Message>) -> (r: ChatRequest)
        ensures
            r@ == (ChatRequestView { messages: messages.deep_view(), ..self@ }),
    {
        ChatRequest {
            messages,
            tools: self.tools,
            tool_choice: self.tool_choice,
            parallel_tools: self.parallel_tools,
            output: self.output,
            reasoning: self.reasoning,
            max_output_tokens: self.max_output_tokens,
            sampling: self.sampling,
            cache: self.cache,
            extra: self.extra,
        }
    }
}

} // verus!
