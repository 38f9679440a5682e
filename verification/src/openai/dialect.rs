//! The dialect seam: what one vendor and model need on the wire.
use crate::contract::capabilities::{
    CacheSupport, Capabilities, CapabilitiesView, ReasoningCapsView, SoSupport, Support,
};
use crate::contract::error::{ModelError, ModelErrorView};
use crate::contract::request::{
    CacheDirective, ChatRequest, ChatRequestView, EffortLevel, OutputMode, OutputModeView, Reasoning,
    ToolChoice, ToolChoiceView,
};
use crate::copies;
use crate::json;
use crate::json::{Number, Value, ValueView};
use crate::pairs;
use crate::text;
use genai::chat::JsonSpec;
use serde::Deserialize;
use serde_json::{Deserializer, Value as Json};
use vstd::prelude::*;

verus! {

/// A reasoning effort on the wire.
#[derive(Debug, Clone, Copy, PartialEq, Eq, Structural)]
pub enum WireEffort {
    /// Reasoning turned off.
    Zero,
    Low,
    Medium,
    High,
    Max,
    Budget(u32),
}

impl DeepView for WireEffort {
    type V = WireEffort;

    open spec fn deep_view(&self) -> WireEffort {
        *self
    }
}

/// A tool choice on the wire.
#[derive(Debug, PartialEq, Eq)]
pub enum WireToolChoice {
    Never,
    Required,
    Tool {
        name: String,
    },
}

/// What a [`WireToolChoice`] holds.
#[verifier::ext_equal]
pub enum WireToolChoiceView {
    Never,
    Required,
    Tool { name: Seq<char> },
}

impl View for WireToolChoice {
    type V = WireToolChoiceView;

    open spec fn view(&self) -> WireToolChoiceView {
        match *self {
            WireToolChoice::Never => WireToolChoiceView::Never,
            WireToolChoice::Required => WireToolChoiceView::Required,
            WireToolChoice::Tool { name } => WireToolChoiceView::Tool {
                name: name@,
            },
        }
    }
}

impl DeepView for WireToolChoice {
    type V = WireToolChoiceView;

    open spec fn deep_view(&self) -> WireToolChoiceView {
        self@
    }
}

/// A response format on the wire.
#[derive(Debug, PartialEq, Eq)]
pub enum WireFormat {
    JsonMode,
    JsonSpec {
        name: String,
        schema: Value,
    },
}

/// What a [`WireFormat`] holds.
#[verifier::ext_equal]
pub enum WireFormatView {
    JsonMode,
    JsonSpec { name: Seq<char>, schema: ValueView },
}

impl View for WireFormat {
    type V = WireFormatView;

    open spec fn view(&self) -> WireFormatView {
        match *self {
            WireFormat::JsonMode => WireFormatView::JsonMode,
            WireFormat::JsonSpec { name, schema } => WireFormatView::JsonSpec {
                name: name@,
                schema: schema@,
            },
        }
    }
}

impl DeepView for WireFormat {
    type V = WireFormatView;

    open spec fn deep_view(&self) -> WireFormatView {
        self@
    }
}

/// The options of one request. The two fractions are held as the bits of an
/// IEEE single.
#[derive(Debug, PartialEq, Eq)]
pub struct WireOptions {
    /// Usage arrives at the end of the stream.
    pub capture_usage: bool,
    /// Tool calls arrive accumulated, under consistent indexes.
    pub capture_tool_calls: bool,
    pub max_tokens: u32,
    pub temperature: Option<u32>,
    pub top_p: Option<u32>,
    pub seed: Option<u64>,
    pub tool_choice: Option<WireToolChoice>,
    pub reasoning_effort: Option<WireEffort>,
    pub response_format: Option<WireFormat>,
    /// Vendor fields merged into the top level of the request body, each with its
    /// value as JSON text.
    pub extra_body: Option<Vec<(String, String)>>,
}

/// What a [`WireOptions`] holds.
#[verifier::ext_equal]
pub struct WireOptionsView {
    pub capture_usage: bool,
    pub capture_tool_calls: bool,
    pub max_tokens: u32,
    pub temperature: Option<u32>,
    pub top_p: Option<u32>,
    pub seed: Option<u64>,
    pub tool_choice: Option<WireToolChoiceView>,
    pub reasoning_effort: Option<WireEffort>,
    pub response_format: Option<WireFormatView>,
    pub extra_body: Option<Seq<(Seq<char>, Seq<char>)>>,
}

impl View for WireOptions {
    type V = WireOptionsView;

    open spec fn view(&self) -> WireOptionsView {
        WireOptionsView {
            capture_usage: self.capture_usage,
            capture_tool_calls: self.capture_tool_calls,
            max_tokens: self.max_tokens,
            temperature: self.temperature,
            top_p: self.top_p,
            seed: self.seed,
            tool_choice: self.tool_choice.deep_view(),
            reasoning_effort: self.reasoning_effort,
            response_format: self.response_format.deep_view(),
            extra_body: self.extra_body.deep_view(),
        }
    }
}

impl DeepView for WireOptions {
    type V = WireOptionsView;

    open spec fn deep_view(&self) -> WireOptionsView {
        self@
    }
}

/// One dialect is one wire personality of a vendor and a model: endpoint
/// configuration, reasoning-field naming and the structured-output ladder.
pub trait Dialect {
    /// What [`Dialect::id`] returns.
    spec fn id_text(&self) -> Seq<char>;

    /// What [`Dialect::endpoint`] returns.
    spec fn base_url(&self) -> Seq<char>;

    /// What [`Dialect::api_key_env`] returns.
    spec fn key_variable(&self) -> Seq<char>;

    /// What [`Dialect::model_name`] returns.
    spec fn model_text(&self) -> Seq<char>;

    /// What [`Dialect::capabilities`] returns.
    spec fn abilities(&self) -> CapabilitiesView;

    /// What [`Dialect::echo_reasoning`] returns.
    spec fn echoes(&self) -> bool;

    /// What [`Dialect::extra_body`] returns.
    spec fn vendor_fields(&self, reasoning: Reasoning) -> Option<Seq<(Seq<char>, Seq<char>)>>;

    /// What [`Dialect::map_reasoning`] returns.
    spec fn effort(&self, reasoning: Reasoning) -> Result<Option<WireEffort>, ModelErrorView>;

    /// What [`Dialect::clamp_temperature`] returns.
    spec fn clamped(&self, temperature: u32) -> u32;

    /// What [`Dialect::map_output`] returns.
    spec fn format(&self, output: OutputModeView) -> Result<Option<WireFormatView>, ModelErrorView>;

    /// Stable id for logs and errors, such as `kimi-k3`.
    fn id(&self) -> (r: &str)
        ensures
            r@ == self.id_text(),
    ;

    /// The base URL that the request path is joined onto.
    fn endpoint(&self) -> (r: String)
        ensures
            r@ == self.base_url(),
    ;

    /// The environment variable that the API key is read from. Keys only ever
    /// travel through the environment.
    fn api_key_env(&self) -> (r: &'static str)
        ensures
            r@ == self.key_variable(),
    ;

    fn model_name(&self) -> (r: &str)
        ensures
            r@ == self.model_text(),
    ;

    /// The registry entry of this vendor and model.
    fn capabilities(&self) -> (r: Capabilities)
        ensures
            r@ == self.abilities(),
    ;

    /// Whether the reasoning of past assistant messages goes back into the
    /// request or is stripped.
    fn echo_reasoning(&self) -> (r: bool)
        ensures
            r == self.echoes(),
    ;

    /// Vendor fields merged into the top level of the request body.
    fn extra_body(&self, reasoning: &Reasoning) -> (r: Option<Vec<(String, String)>>)
        ensures
            r.deep_view() == self.vendor_fields(*reasoning),
    ;

    /// The requested reasoning tier in terms of what this model can do.
    fn map_reasoning(&self, reasoning: &Reasoning) -> (r: Result<Option<WireEffort>, ModelError>)
        ensures
            copies::held(r) == self.effort(*reasoning),
    ;

    /// The requested temperature within the vendor's range, both as the bits of
    /// an IEEE single.
    fn clamp_temperature(&self, temperature: u32) -> (r: u32)
        ensures
            r == self.clamped(temperature),
    ;

    /// The requested output in terms of what this model can do.
    fn map_output(&self, output: &OutputMode) -> (r: Result<Option<WireFormat>, ModelError>)
        ensures
            copies::held(r) == self.format(output@),
    ;
}

/// The position of a tier: the higher, the more effort.
pub open spec fn effort_rank_of(level: EffortLevel) -> int {
    match level {
        EffortLevel::Low => 0,
        EffortLevel::Medium => 1,
        EffortLevel::High => 2,
        EffortLevel::Max => 3,
    }
}

/// How many tiers apart two tiers are.
pub open spec fn tiers_apart(a: EffortLevel, b: EffortLevel) -> int {
    let d = effort_rank_of(a) - effort_rank_of(b);
    if d < 0 {
        -d
    } else {
        d
    }
}

/// Whether `a` is the better stand-in for `level` than `b`: nearer, or as near
/// and lower.
pub open spec fn nearer(a: EffortLevel, b: EffortLevel, level: EffortLevel) -> bool {
    ||| tiers_apart(a, level) < tiers_apart(b, level)
    ||| tiers_apart(a, level) == tiers_apart(b, level) && effort_rank_of(a) < effort_rank_of(b)
}

/// The tier of `efforts` that stands in for `level`.
pub open spec fn nearest(efforts: Seq<EffortLevel>, level: EffortLevel) -> EffortLevel
    decreases efforts.len(),
{
    if efforts.len() <= 1 {
        efforts[0]
    } else {
        let best = nearest(efforts.drop_last(), level);
        if nearer(efforts.last(), best, level) {
            efforts.last()
        } else {
            best
        }
    }
}

/// A tier is clamped to one that the model has and than which no other is
/// nearer; of two that are as near, the lower. A tier that the model has
/// stands for itself.
pub proof fn nearest_tier_is_supported_and_closest(efforts: Seq<EffortLevel>, level: EffortLevel)
    requires
        efforts.len() > 0,
    ensures
        efforts.contains(nearest(efforts, level)),
        forall|i: int|
            0 <= i < efforts.len() ==> !nearer(
                #[trigger] efforts[i],
                nearest(efforts, level),
                level,
            ),
        efforts.contains(level) ==> nearest(efforts, level) == level,
    decreases efforts.len(),
{
    if efforts.len() == 1 {
        assert(efforts.contains(efforts[0]));
    } else {
        let before = efforts.drop_last();
        nearest_tier_is_supported_and_closest(before, level);
        let best = nearest(before, level);
        let i = choose|i: int| 0 <= i < before.len() && before[i] == best;
        assert(efforts[i] == best);
        assert(efforts[efforts.len() - 1] == efforts.last());
        assert forall|i: int| 0 <= i < efforts.len() implies !nearer(
            #[trigger] efforts[i],
            nearest(efforts, level),
            level,
        ) by {
            if i < before.len() {
                assert(efforts[i] == before[i]);
            }
        }
    }
    if efforts.contains(level) {
        let i = choose|i: int| 0 <= i < efforts.len() && efforts[i] == level;
        assert(!nearer(efforts[i], nearest(efforts, level), level));
    }
}

/// A tier as it is written on the wire.
pub open spec fn wire_level(level: EffortLevel) -> WireEffort {
    match level {
        EffortLevel::Low => WireEffort::Low,
        EffortLevel::Medium => WireEffort::Medium,
        EffortLevel::High => WireEffort::High,
        EffortLevel::Max => WireEffort::Max,
    }
}

/// The request asks for something that the model does not have.
pub open spec fn mismatch<T>(message: Seq<char>) -> Result<T, ModelErrorView> {
    Err(ModelErrorView::CapabilityMismatch(message))
}

/// The reasoning parameter by capability: an exact tier where it is declared,
/// else the nearest one.
pub open spec fn mapped_reasoning(
    reasoning_caps: Option<ReasoningCapsView>,
    reasoning: Reasoning,
) -> Result<Option<WireEffort>, ModelErrorView> {
    match reasoning {
        Reasoning::Adaptive => Ok(None),
        Reasoning::Off => match reasoning_caps {
            Some(caps) if caps.off_capable => Ok(Some(WireEffort::Zero)),
            _ => mismatch("reasoning cannot be turned off on this model"@),
        },
        Reasoning::Effort(level) => match reasoning_caps {
            None => mismatch("model has no reasoning"@),
            Some(caps) => if caps.efforts.len() == 0 {
                mismatch("model declares no reasoning tiers"@)
            } else {
                Ok(Some(wire_level(nearest(caps.efforts, level))))
            },
        },
        Reasoning::Budget(tokens) => match reasoning_caps {
            Some(caps) if caps.budget_capable => Ok(Some(WireEffort::Budget(tokens))),
            _ => mismatch("model does not support token-budget reasoning"@),
        },
    }
}

fn effort_rank(level: EffortLevel) -> (r: u8)
    ensures
        r == effort_rank_of(level),
{
    match level {
        EffortLevel::Low => 0,
        EffortLevel::Medium => 1,
        EffortLevel::High => 2,
        EffortLevel::Max => 3,
    }
}

fn map_level(level: EffortLevel) -> (r: WireEffort)
    ensures
        r == wire_level(level),
{
    match level {
        EffortLevel::Low => WireEffort::Low,
        EffortLevel::Medium => WireEffort::Medium,
        EffortLevel::High => WireEffort::High,
        EffortLevel::Max => WireEffort::Max,
    }
}

fn distance(a: EffortLevel, b: EffortLevel) -> (r: u8)
    ensures
        r == tiers_apart(a, b),
{
    let x: u8 = effort_rank(a);
    let y: u8 = effort_rank(b);
    if x < y {
        y - x
    } else {
        x - y
    }
}

fn is_nearer(a: EffortLevel, b: EffortLevel, level: EffortLevel) -> (r: bool)
    ensures
        r == nearer(a, b, level),
{
    let x: u8 = distance(a, level);
    let y: u8 = distance(b, level);
    x < y || (x == y && effort_rank(a) < effort_rank(b))
}

/// The tier of `efforts` that stands in for `level`: the nearest, and of two
/// that are as near, the lower.
fn nearest_tier(efforts: &Vec<EffortLevel>, level: EffortLevel) -> (r: EffortLevel)
    requires
        efforts.len() > 0,
    ensures
        r == nearest(efforts@, level),
{
    let mut best = efforts[0];
    let mut i: usize = 1;
    while i < efforts.len()
        invariant
            1 <= i <= efforts.len(),
            best == nearest(efforts@.take(i as int), level),
        decreases efforts.len() - i,
    {
        let candidate = efforts[i];
        assert(efforts@.take(i as int + 1).drop_last() =~= efforts@.take(i as int));
        assert(efforts@.take(i as int + 1).last() == candidate);
        if is_nearer(candidate, best, level) {
            best = candidate;
        }
        i += 1;
    }
    assert(efforts@.take(i as int) =~= efforts@);
    best
}

/// The default reasoning-tier mapping, driven by the capability declaration.
pub fn default_map_reasoning(capabilities: &Capabilities, reasoning: &Reasoning) -> (r: Result<
    Option<WireEffort>,
    ModelError,
>)
    ensures
        copies::held(r) == mapped_reasoning(capabilities@.reasoning, *reasoning),
{
    match *reasoning {
        Reasoning::Adaptive => Ok(None),
        Reasoning::Off => {
            if let Some(caps) = &capabilities.reasoning {
                if caps.off_capable {
                    return Ok(Some(WireEffort::Zero));
                }
            }
            Err(
                ModelError::CapabilityMismatch(
                    "reasoning cannot be turned off on this model".to_owned(),
                ),
            )
        },
        Reasoning::Effort(level) => match &capabilities.reasoning {
            None => Err(ModelError::CapabilityMismatch("model has no reasoning".to_owned())),
            Some(caps) => {
                if caps.efforts.len() == 0 {
                    return Err(
                        ModelError::CapabilityMismatch(
                            "model declares no reasoning tiers".to_owned(),
                        ),
                    );
                }
                Ok(Some(map_level(nearest_tier(&caps.efforts, level))))
            },
        },
        Reasoning::Budget(tokens) => {
            if let Some(caps) = &capabilities.reasoning {
                if caps.budget_capable {
                    return Ok(Some(WireEffort::Budget(tokens)));
                }
            }
            Err(
                ModelError::CapabilityMismatch(
                    "model does not support token-budget reasoning".to_owned(),
                ),
            )
        },
    }
}

/// How deep a schema may be nested to be closed: its reader takes the stack for
/// every open bracket.
pub const MAX_NESTING: usize = 512;

/// Why a schema cannot be closed.
#[derive(Debug, Clone, Copy, PartialEq, Eq, Structural)]
pub enum SchemaFault {
    NotJson,
    TooDeep,
}

/// The schema with `"additionalProperties": false` in every object node;
/// nothing where the given text is not JSON.
pub uninterp spec fn closed_schema_value(schema: Seq<char>) -> Option<ValueView>;

/// `genai::chat::JsonSpec::schema_with_additional_properties_false` on a
/// schema given as JSON text, which `serde_json::Deserializer` reads with its
/// own depth limit off: the nesting of the text is bounded here instead. What
/// comes out depends on the text alone and is named [`closed_schema_value`];
/// nothing comes back where the text is not JSON. How the nodes are walked is
/// not stated.
#[verifier::external_body]
fn read_and_close(schema: &str) -> (r: Option<Value>)
    requires
        json::nesting(schema@).most <= MAX_NESTING,
    ensures
        r.deep_view() == closed_schema_value(schema@),
{
    let mut reader = Deserializer::from_str(schema);
    reader.disable_recursion_limit();
    let tree = Json::deserialize(&mut reader).ok()?;
    reader.end().ok()?;
    Some(match JsonSpec::new("", tree).schema_with_additional_properties_false() {
        Json::Null => Value::Null,
        Json::Bool(flag) => Value::Bool(flag),
        Json::Number(n) => Value::Number(Number { unsigned: n.as_u64(), text: n.to_string() }),
        Json::String(text) => Value::String(text),
        Json::Array(a) => Value::Array(a.iter().map(Json::to_string).collect()),
        Json::Object(o) => Value::Object(o.into_iter().map(|(k, v)| (k, v.to_string())).collect()),
    })
}

/// A schema with every object node closed, or why it cannot be.
pub open spec fn closed_schema(schema: ValueView) -> Result<ValueView, SchemaFault> {
    let text = json::rendered(schema);
    if json::nesting(text).most > MAX_NESTING {
        Err(SchemaFault::TooDeep)
    } else {
        match closed_schema_value(text) {
            Some(value) => Ok(value),
            None => Err(SchemaFault::NotJson),
        }
    }
}

/// A schema with every object node closed, or why it cannot be.
fn close_schema(schema: &Value) -> (r: Result<Value, SchemaFault>)
    ensures
        match r {
            Ok(value) => closed_schema(schema@) == Ok::<ValueView, SchemaFault>(value@),
            Err(fault) => closed_schema(schema@) == Err::<ValueView, SchemaFault>(fault),
        },
{
    let text = schema.render();
    if json::nesting_of(text.as_str()) > MAX_NESTING {
        return Err(SchemaFault::TooDeep);
    }
    match read_and_close(text.as_str()) {
        Some(value) => Ok(value),
        None => Err(SchemaFault::NotJson),
    }
}

/// The response format for a schema.
pub open spec fn schema_format(schema: ValueView) -> Result<Option<WireFormatView>, ModelErrorView> {
    Ok(Some(WireFormatView::JsonSpec { name: "response"@, schema }))
}

/// The strict response format for a schema that was closed, or could not be.
pub open spec fn strict_format(closed: Result<ValueView, SchemaFault>) -> Result<
    Option<WireFormatView>,
    ModelErrorView,
> {
    match closed {
        Ok(schema) => schema_format(schema),
        Err(SchemaFault::NotJson) => Err(
            ModelErrorView::InvalidRequest("response schema is not JSON"@),
        ),
        Err(SchemaFault::TooDeep) => Err(
            ModelErrorView::InvalidRequest("response schema nests too deeply"@),
        ),
    }
}

/// The strict response format for a schema that was closed, or could not be.
pub fn map_closed(closed: Result<Value, SchemaFault>) -> (r: Result<
    Option<WireFormat>,
    ModelError,
>)
    ensures
        match closed {
            Ok(schema) => copies::held(r) == strict_format(Ok(schema@)),
            Err(fault) => copies::held(r) == strict_format(Err(fault)),
        },
{
    match closed {
        Ok(schema) => Ok(Some(WireFormat::JsonSpec { name: "response".to_owned(), schema })),
        Err(SchemaFault::NotJson) => Err(
            ModelError::InvalidRequest("response schema is not JSON".to_owned()),
        ),
        Err(SchemaFault::TooDeep) => Err(
            ModelError::InvalidRequest("response schema nests too deeply".to_owned()),
        ),
    }
}

/// The structured-output ladder. Only a strict schema is closed, and only
/// where the vendor enforces it.
pub open spec fn mapped_output(support: SoSupport, output: OutputModeView) -> Result<
    Option<WireFormatView>,
    ModelErrorView,
> {
    match output {
        OutputModeView::Text => Ok(None),
        OutputModeView::Json => match support {
            SoSupport::PromptOnly => mismatch("json mode unsupported (prompt-only vendor)"@),
            _ => Ok(Some(WireFormatView::JsonMode)),
        },
        OutputModeView::Schema { schema, strict } => if strict {
            match support {
                SoSupport::NativeStrict => strict_format(closed_schema(schema)),
                _ => mismatch("native strict structured output unsupported"@),
            }
        } else {
            match support {
                SoSupport::NativeStrict | SoSupport::NativeLoose => schema_format(schema),
                SoSupport::JsonMode => Ok(Some(WireFormatView::JsonMode)),
                SoSupport::PromptOnly => mismatch(
                    "structured output unsupported (prompt-only vendor)"@,
                ),
            }
        },
    }
}

/// The default structured-output ladder. The schemas that every vendor takes
/// are left to the caller.
pub fn default_map_output(capabilities: &Capabilities, output: &OutputMode) -> (r: Result<
    Option<WireFormat>,
    ModelError,
>)
    ensures
        copies::held(r) == mapped_output(capabilities@.structured_output, output@),
{
    let support = capabilities.structured_output;
    match output {
        OutputMode::Text => Ok(None),
        OutputMode::Json => match support {
            SoSupport::NativeStrict | SoSupport::NativeLoose | SoSupport::JsonMode => Ok(
                Some(WireFormat::JsonMode),
            ),
            SoSupport::PromptOnly => Err(
                ModelError::CapabilityMismatch(
                    "json mode unsupported (prompt-only vendor)".to_owned(),
                ),
            ),
        },
        OutputMode::Schema { schema, strict } => {
            if *strict {
                match support {
                    SoSupport::NativeStrict => map_closed(close_schema(schema)),
                    _ => Err(
                        ModelError::CapabilityMismatch(
                            "native strict structured output unsupported".to_owned(),
                        ),
                    ),
                }
            } else {
                match support {
                    SoSupport::NativeStrict | SoSupport::NativeLoose => Ok(
                        Some(
                            WireFormat::JsonSpec {
                                name: "response".to_owned(),
                                schema: schema.clone(),
                            },
                        ),
                    ),
                    SoSupport::JsonMode => Ok(Some(WireFormat::JsonMode)),
                    SoSupport::PromptOnly => Err(
                        ModelError::CapabilityMismatch(
                            "structured output unsupported (prompt-only vendor)".to_owned(),
                        ),
                    ),
                }
            }
        },
    }
}

/// A tool choice as it is written on the wire; the vendor's default is not.
pub open spec fn wire_choice(choice: ToolChoiceView) -> Option<WireToolChoiceView> {
    match choice {
        ToolChoiceView::Auto => None,
        ToolChoiceView::Never => Some(WireToolChoiceView::Never),
        ToolChoiceView::Required => Some(WireToolChoiceView::Required),
        ToolChoiceView::Named(name) => Some(WireToolChoiceView::Tool { name }),
    }
}

fn map_tool_choice(choice: &ToolChoice) -> (r: Option<WireToolChoice>)
    ensures
        r.deep_view() == wire_choice(choice@),
{
    match choice {
        ToolChoice::Auto => None,
        ToolChoice::Never => Some(WireToolChoice::Never),
        ToolChoice::Required => Some(WireToolChoice::Required),
        ToolChoice::Named(name) => Some(WireToolChoice::Tool { name: name.clone() }),
    }
}

/// A cache mode as it is shown for debugging.
pub open spec fn cache_text(support: CacheSupport) -> Seq<char> {
    match support {
        CacheSupport::ExplicitBreakpoints => "ExplicitBreakpoints"@,
        CacheSupport::Automatic => "Automatic"@,
        CacheSupport::NamedObject => "NamedObject"@,
        CacheSupport::DiskAuto => "DiskAuto"@,
        CacheSupport::Absent => "None"@,
    }
}

fn show_cache(support: CacheSupport) -> (r: &'static str)
    ensures
        r@ == cache_text(support),
{
    match support {
        CacheSupport::ExplicitBreakpoints => "ExplicitBreakpoints",
        CacheSupport::Automatic => "Automatic",
        CacheSupport::NamedObject => "NamedObject",
        CacheSupport::DiskAuto => "DiskAuto",
        CacheSupport::Absent => "None",
    }
}

/// Fields to be sent, none where there is nothing to send.
pub type Fields = Option<Seq<(Seq<char>, Seq<char>)>>;

/// `base` with `extra` merged over it.
pub open spec fn merged_over(base: Fields, extra: Fields) -> Fields {
    match extra {
        None => base,
        Some(extra) => Some(
            json::merged_fields(
                match base {
                    Some(base) => base,
                    None => Seq::empty(),
                },
                extra,
            ),
        ),
    }
}

/// The caller's vendor fields: those of a non-empty object.
pub open spec fn passed_through(extra: ValueView) -> Fields {
    match extra {
        ValueView::Object(fields) if fields.len() > 0 => Some(fields),
        _ => None,
    }
}

/// The field that a request about parallel tool calls becomes.
pub open spec fn parallel_field(parallel: Option<bool>) -> Fields {
    match parallel {
        None => None,
        Some(parallel) => Some(
            seq![
                (
                    "parallel_tool_calls"@,
                    json::rendered(ValueView::Bool(parallel)),
                ),
            ],
        ),
    }
}

/// Everything that goes into the request body beside the named options: the
/// parallel-calls flag, the vendor's own fields, and what the caller passes
/// through, each written over what came before.
pub open spec fn extra_fields<D: Dialect>(dialect: &D, request: ChatRequestView) -> Fields {
    merged_over(
        merged_over(
            parallel_field(request.parallel_tools),
            dialect.vendor_fields(request.reasoning),
        ),
        passed_through(request.extra),
    )
}

/// The value that `fields` give to `key`.
pub open spec fn given(fields: Fields, key: Seq<char>) -> Option<Seq<char>> {
    match fields {
        Some(fields) => json::last_value(fields, key),
        None => None,
    }
}

/// Nothing that goes into the request body is swallowed: what the caller
/// passes through is sent as it stands, the vendor's own fields are sent but
/// for those that the caller overrides, and so is the parallel-calls flag.
pub proof fn no_field_is_swallowed<D: Dialect>(
    dialect: &D,
    request: ChatRequestView,
    key: Seq<char>,
)
    ensures
        (match extra_fields(dialect, request) {
            Some(fields) => pairs::lookup(fields, key),
            None => None,
        }) == (match given(passed_through(request.extra), key) {
            Some(value) => Some(value),
            None => match given(dialect.vendor_fields(request.reasoning), key) {
                Some(value) => Some(value),
                None => given(parallel_field(request.parallel_tools), key),
            },
        }),
{
    let flag = parallel_field(request.parallel_tools);
    let vendor = dialect.vendor_fields(request.reasoning);
    let inner = merged_over(flag, vendor);
    let passed = passed_through(request.extra);
    let empty = Seq::<(Seq<char>, Seq<char>)>::empty();
    let flag_fields = if flag is Some { flag.unwrap() } else { empty };
    if flag is Some {
        assert(flag_fields.drop_last() =~= empty);
        assert(flag_fields.drop_first() =~= empty);
        assert(pairs::lookup(flag_fields, key) == json::last_value(flag_fields, key)) by {
            reveal_with_fuel(pairs::lookup, 2);
            reveal_with_fuel(json::last_value, 2);
        }
    }
    if vendor is Some {
        json::merging_overrides(flag_fields, vendor.unwrap(), key);
    }
    let inner_fields = if inner is Some { inner.unwrap() } else { empty };
    if passed is Some {
        json::merging_overrides(inner_fields, passed.unwrap(), key);
    }
}

/// The options of a request, or the first thing about it that the model does
/// not have: tools, the reasoning, the output, parallel calls, cache
/// breakpoints, in this order.
pub open spec fn options<D: Dialect>(dialect: &D, request: ChatRequestView) -> Result<
    WireOptionsView,
    ModelErrorView,
> {
    let caps = dialect.abilities();
    if request.tools.len() > 0 && !caps.tools {
        mismatch(dialect.id_text() + " does not support tool calling"@)
    } else {
        match (dialect.effort(request.reasoning), dialect.format(request.output)) {
            (Err(error), _) => Err(error),
            (_, Err(error)) => Err(error),
            (Ok(reasoning_effort), Ok(response_format)) => if request.parallel_tools is Some
                && caps.parallel_tools == Support::No {
                mismatch(dialect.id_text() + " does not support parallel tool calls"@)
            } else if request.cache is Breakpoints {
                mismatch(
                    dialect.id_text() + " has no explicit cache breakpoints (cache mode: "@
                        + cache_text(caps.prompt_cache) + ")"@,
                )
            } else {
                Ok(
                    WireOptionsView {
                        capture_usage: true,
                        capture_tool_calls: true,
                        max_tokens: request.max_output_tokens,
                        temperature: match request.sampling.temperature {
                            Some(temperature) => Some(dialect.clamped(temperature)),
                            None => None,
                        },
                        top_p: request.sampling.top_p,
                        seed: request.sampling.seed,
                        tool_choice: wire_choice(request.tool_choice),
                        reasoning_effort,
                        response_format,
                        extra_body: extra_fields(dialect, request),
                    },
                )
            },
        }
    }
}

/// Merges `extra` over `base`, one field after the other.
fn merge_extra(base: Option<Vec<(String, String)>>, extra: &Vec<(String, String)>) -> (r: Option<
    Vec<(String, String)>,
>)
    ensures
        r.deep_view() == merged_over(base.deep_view(), Some(extra.deep_view())),
{
    let ghost start = match base.deep_view() {
        Some(base) => base,
        None => Seq::empty(),
    };
    let mut out: Vec<(String, String)> = match base {
        Some(base) => base,
        None => Vec::new(),
    };
    assert(out.deep_view() =~= start);
    let ghost added = extra.deep_view();
    let mut i: usize = 0;
    assert(added.take(0) =~= Seq::empty());
    while i < extra.len()
        invariant
            i <= extra.len(),
            added == extra.deep_view(),
            out.deep_view() == json::merged_fields(start, added.take(i as int)),
        decreases extra.len() - i,
    {
        json::put_field(&mut out, extra[i].0.as_str(), extra[i].1.as_str());
        i += 1;
        assert(added.take(i as int).drop_last() =~= added.take(i as int - 1));
        assert(added.take(i as int).last() == added[i as int - 1]);
        assert(added[i as int - 1] == extra[i as int - 1].deep_view());
    }
    assert(added.take(i as int) =~= added);
    Some(out)
}

/// Composes the options of a request.
pub fn build_options<D: Dialect>(dialect: &D, request: &ChatRequest) -> (r: Result<
    WireOptions,
    ModelError,
>)
    ensures
        copies::held(r) == options(dialect, request@),
{
    let capabilities = dialect.capabilities();
    assert(request@.tools.len() == request.tools.len());
    if request.tools.len() > 0 && !capabilities.tools {
        let mut out = dialect.id().to_owned();
        out.append(" does not support tool calling");
        return Err(ModelError::CapabilityMismatch(out));
    }
    let reasoning_effort = match dialect.map_reasoning(&request.reasoning) {
        Ok(effort) => effort,
        Err(error) => {
            return Err(error);
        },
    };
    let response_format = match dialect.map_output(&request.output) {
        Ok(format) => format,
        Err(error) => {
            return Err(error);
        },
    };
    let temperature: Option<u32> = match request.sampling.temperature {
        Some(temperature) => Some(dialect.clamp_temperature(temperature)),
        None => None,
    };
    let mut extra_body: Option<Vec<(String, String)>> = None;
    if let Some(parallel) = request.parallel_tools {
        match capabilities.parallel_tools {
            Support::No => {
                let mut out = dialect.id().to_owned();
                out.append(" does not support parallel tool calls");
                return Err(ModelError::CapabilityMismatch(out));
            },
            Support::Yes | Support::AllowedNotGuaranteed => {
                let mut fields: Vec<(String, String)> = Vec::new();
                fields.push(
                    ("parallel_tool_calls".to_owned(), Value::Bool(parallel).render()),
                );
                assert(fields.deep_view() =~= seq![
                    ("parallel_tool_calls"@, json::rendered(ValueView::Bool(parallel))),
                ]);
                extra_body = Some(fields);
            },
        }
    }
    assert(extra_body.deep_view() == parallel_field(request.parallel_tools));
    match &request.cache {
        CacheDirective::Off | CacheDirective::Auto => {},
        CacheDirective::Breakpoints(_) => {
            let mut out = dialect.id().to_owned();
            out.append(" has no explicit cache breakpoints (cache mode: ");
            out.append(show_cache(capabilities.prompt_cache));
            out.append(")");
            return Err(ModelError::CapabilityMismatch(out));
        },
    }
    if let Some(vendor) = dialect.extra_body(&request.reasoning) {
        extra_body = merge_extra(extra_body, &vendor);
    }
    if let Value::Object(extra) = &request.extra {
        if extra.len() > 0 {
            extra_body = merge_extra(extra_body, extra);
        }
    }
    Ok(
        WireOptions {
            capture_usage: true,
            capture_tool_calls: true,
            max_tokens: request.max_output_tokens,
            temperature,
            top_p: request.sampling.top_p,
            seed: request.sampling.seed,
            tool_choice: map_tool_choice(&request.tool_choice),
            reasoning_effort,
            response_format,
            extra_body,
        },
    )
}

/// What the API key comes to: its value where the variable is set, the name
/// of the variable where it is not.
pub open spec fn key_or_complaint(variable: Seq<char>, value: Option<Seq<char>>) -> Result<
    Seq<char>,
    ModelErrorView,
> {
    match value {
        Some(key) => Ok(key),
        None => Err(
            ModelErrorView::Auth("environment variable "@ + variable + " is not set"@),
        ),
    }
}

/// The API key, given what the environment holds under the dialect's variable.
pub fn api_key<D: Dialect>(dialect: &D, value: Option<String>) -> (r: Result<String, ModelError>)
    ensures
        copies::held(r) == key_or_complaint(dialect.key_variable(), value.deep_view()),
{
    match value {
        Some(key) => Ok(key),
        None => {
            let mut out = text::prefixed("environment variable ", dialect.api_key_env());
            out.append(" is not set");
            Err(ModelError::Auth(out))
        },
    }
}

} // verus!
