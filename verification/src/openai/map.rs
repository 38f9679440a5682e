//! Messages and metadata, between the contract and the wire.
use crate::contract::error::{ModelError, ModelErrorView};
use crate::contract::message;
use crate::contract::message::{ContentPart, ContentPartView, Message, MessageView, Role};
use crate::contract::request::{ChatRequest, ChatRequestView, ToolSpec, ToolSpecView};
use crate::contract::stream::{FinishReason, FinishReasonView, Usage, UsageView};
use crate::copies;
use crate::json::{Value, ValueView};
use crate::text;
use vstd::prelude::*;

verus! {

/// One part of an assistant message on the wire.
#[derive(Debug, PartialEq, Eq)]
pub enum WirePart {
    Text(String),
    ReasoningContent(String),
    ToolCall {
        call_id: String,
        fn_name: String,
        fn_arguments: Value,
    },
}

/// What a [`WirePart`] holds.
#[verifier::ext_equal]
pub enum WirePartView {
    Text(Seq<char>),
    ReasoningContent(Seq<char>),
    ToolCall { call_id: Seq<char>, fn_name: Seq<char>, fn_arguments: ValueView },
}

impl View for WirePart {
    type V = WirePartView;

    open spec fn view(&self) -> WirePartView {
        match *self {
            WirePart::Text(inner) => WirePartView::Text(inner@),
            WirePart::ReasoningContent(inner) => WirePartView::ReasoningContent(inner@),
            WirePart::ToolCall { call_id, fn_name, fn_arguments } => WirePartView::ToolCall {
                call_id: call_id@,
                fn_name: fn_name@,
                fn_arguments: fn_arguments@,
            },
        }
    }
}

impl DeepView for WirePart {
    type V = WirePartView;

    open spec fn deep_view(&self) -> WirePartView {
        self@
    }
}

/// One message on the wire.
#[derive(Debug, PartialEq, Eq)]
pub enum WireMessage {
    System(String),
    User(String),
    ToolResponse {
        call_id: String,
        content: String,
    },
    Assistant(Vec<WirePart>),
}

/// What a [`WireMessage`] holds.
#[verifier::ext_equal]
pub enum WireMessageView {
    System(Seq<char>),
    User(Seq<char>),
    ToolResponse { call_id: Seq<char>, content: Seq<char> },
    Assistant(Seq<WirePartView>),
}

impl View for WireMessage {
    type V = WireMessageView;

    open spec fn view(&self) -> WireMessageView {
        match *self {
            WireMessage::System(inner) => WireMessageView::System(inner@),
            WireMessage::User(inner) => WireMessageView::User(inner@),
            WireMessage::ToolResponse { call_id, content } => WireMessageView::ToolResponse {
                call_id: call_id@,
                content: content@,
            },
            WireMessage::Assistant(inner) => WireMessageView::Assistant(inner.deep_view()),
        }
    }
}

impl DeepView for WireMessage {
    type V = WireMessageView;

    open spec fn deep_view(&self) -> WireMessageView {
        self@
    }
}

/// A tool on the wire.
#[derive(Debug, PartialEq, Eq)]
pub struct WireTool {
    pub name: String,
    pub description: String,
    pub schema: Value,
}

/// What a [`WireTool`] holds.
#[verifier::ext_equal]
pub struct WireToolView {
    pub name: Seq<char>,
    pub description: Seq<char>,
    pub schema: ValueView,
}

impl View for WireTool {
    type V = WireToolView;

    open spec fn view(&self) -> WireToolView {
        WireToolView {
            name: self.name@,
            description: self.description@,
            schema: self.schema@,
        }
    }
}

impl DeepView for WireTool {
    type V = WireToolView;

    open spec fn deep_view(&self) -> WireToolView {
        self@
    }
}

/// A request on the wire.
#[derive(Debug, PartialEq, Eq)]
pub struct WireRequest {
    /// The leading system messages.
    pub system: Option<String>,
    pub messages: Vec<WireMessage>,
    pub tools: Option<Vec<WireTool>>,
}

/// What a [`WireRequest`] holds.
#[verifier::ext_equal]
pub struct WireRequestView {
    pub system: Option<Seq<char>>,
    pub messages: Seq<WireMessageView>,
    pub tools: Option<Seq<WireToolView>>,
}

impl View for WireRequest {
    type V = WireRequestView;

    open spec fn view(&self) -> WireRequestView {
        WireRequestView {
            system: self.system.deep_view(),
            messages: self.messages.deep_view(),
            tools: self.tools.deep_view(),
        }
    }
}

impl DeepView for WireRequest {
    type V = WireRequestView;

    open spec fn deep_view(&self) -> WireRequestView {
        self@
    }
}

/// The usage object of the wire.
#[derive(Debug, PartialEq, Eq)]
pub struct WireUsage {
    /// All input, cache hits included.
    pub prompt_tokens: Option<i32>,
    pub cached_tokens: Option<i32>,
    pub cache_creation_tokens: Option<i32>,
    pub completion_tokens: Option<i32>,
    pub reasoning_tokens: Option<i32>,
    /// The whole object.
    pub raw: Value,
}

/// What a [`WireUsage`] holds.
#[verifier::ext_equal]
pub struct WireUsageView {
    pub prompt_tokens: Option<i32>,
    pub cached_tokens: Option<i32>,
    pub cache_creation_tokens: Option<i32>,
    pub completion_tokens: Option<i32>,
    pub reasoning_tokens: Option<i32>,
    pub raw: ValueView,
}

impl View for WireUsage {
    type V = WireUsageView;

    open spec fn view(&self) -> WireUsageView {
        WireUsageView {
            prompt_tokens: self.prompt_tokens,
            cached_tokens: self.cached_tokens,
            cache_creation_tokens: self.cache_creation_tokens,
            completion_tokens: self.completion_tokens,
            reasoning_tokens: self.reasoning_tokens,
            raw: self.raw@,
        }
    }
}

impl DeepView for WireUsage {
    type V = WireUsageView;

    open spec fn deep_view(&self) -> WireUsageView {
        self@
    }
}

/// Why the wire says that it stopped, with the word that it used.
#[derive(Debug, PartialEq, Eq)]
pub enum StopReason {
    Completed(String),
    StopSequence(String),
    MaxTokens(String),
    ToolCall(String),
    ContentFilter(String),
    Other(String),
}

/// What a [`StopReason`] holds.
#[verifier::ext_equal]
pub enum StopReasonView {
    Completed(Seq<char>),
    StopSequence(Seq<char>),
    MaxTokens(Seq<char>),
    ToolCall(Seq<char>),
    ContentFilter(Seq<char>),
    Other(Seq<char>),
}

impl View for StopReason {
    type V = StopReasonView;

    open spec fn view(&self) -> StopReasonView {
        match *self {
            StopReason::Completed(inner) => StopReasonView::Completed(inner@),
            StopReason::StopSequence(inner) => StopReasonView::StopSequence(inner@),
            StopReason::MaxTokens(inner) => StopReasonView::MaxTokens(inner@),
            StopReason::ToolCall(inner) => StopReasonView::ToolCall(inner@),
            StopReason::ContentFilter(inner) => StopReasonView::ContentFilter(inner@),
            StopReason::Other(inner) => StopReasonView::Other(inner@),
        }
    }
}

impl DeepView for StopReason {
    type V = StopReasonView;

    open spec fn deep_view(&self) -> StopReasonView {
        self@
    }
}

/// The parts of an assistant message on the wire, without reasoning where
/// there is no obligation to echo it; nothing where there is an image.
pub open spec fn wire_parts(parts: Seq<ContentPartView>, echo_reasoning: bool) -> Option<
    Seq<WirePartView>,
>
    decreases parts.len(),
{
    if parts.len() == 0 {
        Some(Seq::empty())
    } else {
        match wire_parts(parts.drop_last(), echo_reasoning) {
            None => None,
            Some(before) => match parts.last() {
                ContentPartView::Text { text } => Some(before.push(WirePartView::Text(text))),
                ContentPartView::Reasoning { text } => if echo_reasoning {
                    Some(before.push(WirePartView::ReasoningContent(text)))
                } else {
                    Some(before)
                },
                ContentPartView::ToolCall { call } => Some(
                    before.push(
                        WirePartView::ToolCall {
                            call_id: call.id,
                            fn_name: call.name,
                            fn_arguments: call.arguments,
                        },
                    ),
                ),
                ContentPartView::Image { .. } => None,
            },
        }
    }
}

/// One message on the wire, or why it cannot be there.
pub open spec fn wire_message(message: MessageView, echo_reasoning: bool) -> Result<
    WireMessageView,
    ModelErrorView,
> {
    let text = message::body_text(message.content);
    match message.role {
        Role::System => Ok(WireMessageView::System(text)),
        Role::User => Ok(WireMessageView::User(text)),
        Role::Tool => match message.tool_call_id {
            Some(call_id) => Ok(WireMessageView::ToolResponse { call_id, content: text }),
            None => Err(
                ModelErrorView::InvalidRequest("tool message is missing its tool_call_id"@),
            ),
        },
        Role::Assistant => match wire_parts(message.content, echo_reasoning) {
            Some(parts) => Ok(WireMessageView::Assistant(parts)),
            None => Err(
                ModelErrorView::CapabilityMismatch(
                    "image parts are not wired for OpenAI-compatible dialects"@,
                ),
            ),
        },
    }
}

/// Messages on the wire, or why the first that cannot be there cannot.
pub open spec fn wire_messages(messages: Seq<MessageView>, echo_reasoning: bool) -> Result<
    Seq<WireMessageView>,
    ModelErrorView,
>
    decreases messages.len(),
{
    if messages.len() == 0 {
        Ok(Seq::empty())
    } else {
        match wire_messages(messages.drop_last(), echo_reasoning) {
            Err(error) => Err(error),
            Ok(before) => match wire_message(messages.last(), echo_reasoning) {
                Err(error) => Err(error),
                Ok(last) => Ok(before.push(last)),
            },
        }
    }
}

/// How many messages at the start are system messages.
pub open spec fn leading_system(messages: Seq<MessageView>) -> int
    decreases messages.len(),
{
    if messages.len() == 0 || messages[0].role != Role::System {
        0
    } else {
        1 + leading_system(messages.drop_first())
    }
}

/// The texts of the given messages.
pub open spec fn bodies(messages: Seq<MessageView>) -> Seq<Seq<char>> {
    messages.map_values(|m: MessageView| message::body_text(m.content))
}

/// The system slot: the leading system messages, a blank line between them.
pub open spec fn system_slot(messages: Seq<MessageView>) -> Option<Seq<char>> {
    let count = leading_system(messages);
    if count == 0 {
        None
    } else {
        Some(text::joined(bodies(messages.take(count)), "\n\n"@))
    }
}

/// A tool on the wire.
pub open spec fn wire_tool(spec: ToolSpecView) -> WireToolView {
    WireToolView { name: spec.name, description: spec.description, schema: spec.parameters }
}

/// The tools on the wire: none at all rather than an empty list.
pub open spec fn wire_tools(tools: Seq<ToolSpecView>) -> Option<Seq<WireToolView>> {
    if tools.len() == 0 {
        None
    } else {
        Some(tools.map_values(|spec: ToolSpecView| wire_tool(spec)))
    }
}

/// A request on the wire: the leading system messages in the system slot, the
/// rest as messages.
pub open spec fn wire_request(request: ChatRequestView, echo_reasoning: bool) -> Result<
    WireRequestView,
    ModelErrorView,
> {
    let count = leading_system(request.messages);
    match wire_messages(request.messages.skip(count), echo_reasoning) {
        Err(error) => Err(error),
        Ok(messages) => Ok(
            WireRequestView {
                system: system_slot(request.messages),
                messages,
                tools: wire_tools(request.tools),
            },
        ),
    }
}

/// The leading system messages are exactly those before the first message of
/// another role.
pub proof fn leading_system_is_a_prefix(messages: Seq<MessageView>)
    ensures
        0 <= leading_system(messages) <= messages.len(),
        forall|i: int|
            0 <= i < leading_system(messages) ==> (#[trigger] messages[i]).role == Role::System,
        leading_system(messages) < messages.len() ==> messages[leading_system(messages)].role
            != Role::System,
    decreases messages.len(),
{
    if messages.len() > 0 && messages[0].role == Role::System {
        let rest = messages.drop_first();
        leading_system_is_a_prefix(rest);
        assert forall|i: int| 0 <= i < leading_system(messages) implies (
        #[trigger] messages[i]).role == Role::System by {
            if i > 0 {
                assert(messages[i] == rest[i - 1]);
            }
        }
        if leading_system(messages) < messages.len() {
            assert(messages[leading_system(messages)] == rest[leading_system(rest)]);
        }
    }
}

proof fn leading_system_is(messages: Seq<MessageView>, at: int)
    requires
        0 <= at <= messages.len(),
        forall|i: int| 0 <= i < at ==> (#[trigger] messages[i]).role == Role::System,
        at < messages.len() ==> messages[at].role != Role::System,
    ensures
        leading_system(messages) == at,
    decreases messages.len(),
{
    if at > 0 {
        let rest = messages.drop_first();
        assert(messages[0].role == Role::System);
        assert forall|i: int| 0 <= i < at - 1 implies (#[trigger] rest[i]).role
            == Role::System by {
            assert(rest[i] == messages[i + 1]);
        }
        leading_system_is(rest, at - 1);
    }
}

/// Reasoning is stripped exactly where there is no obligation to echo it:
/// without the obligation no part of an assistant message on the wire is
/// reasoning, and with it no part of the message is dropped.
pub proof fn reasoning_follows_the_obligation(parts: Seq<ContentPartView>)
    ensures
        wire_parts(parts, false) matches Some(stripped) ==> forall|i: int|
            0 <= i < stripped.len() ==> #[trigger] stripped[i] !is ReasoningContent,
        wire_parts(parts, true) matches Some(echoed) ==> echoed.len() == parts.len(),
        wire_parts(parts, true) is Some <==> wire_parts(parts, false) is Some,
    decreases parts.len(),
{
    if parts.len() > 0 {
        reasoning_follows_the_obligation(parts.drop_last());
    }
}

fn map_parts(parts: &Vec<ContentPart>, echo_reasoning: bool) -> (r: Option<Vec<WirePart>>)
    ensures
        r.deep_view() == wire_parts(parts.deep_view(), echo_reasoning),
{
    let ghost all = parts.deep_view();
    let mut out: Vec<WirePart> = Vec::new();
    let mut i: usize = 0;
    assert(out.deep_view() =~= Seq::empty());
    while i < parts.len()
        invariant
            i <= parts.len(),
            all == parts.deep_view(),
            wire_parts(all.take(i as int), echo_reasoning) == Some(out.deep_view()),
        decreases parts.len() - i,
    {
        let ghost before = out.deep_view();
        assert(all.take(i as int + 1).drop_last() =~= all.take(i as int));
        assert(all.take(i as int + 1).last() == parts[i as int]@);
        match &parts[i] {
            ContentPart::Text { text } => {
                out.push(WirePart::Text(text.clone()));
                assert(out.deep_view() =~= before.push(WirePartView::Text(text@)));
            },
            ContentPart::Reasoning { text } => {
                if echo_reasoning {
                    out.push(WirePart::ReasoningContent(text.clone()));
                    assert(out.deep_view() =~= before.push(WirePartView::ReasoningContent(text@)));
                }
            },
            ContentPart::ToolCall { call } => {
                let part = WirePart::ToolCall {
                    call_id: call.id.clone(),
                    fn_name: call.name.clone(),
                    fn_arguments: call.arguments.clone(),
                };
                let ghost view = part@;
                out.push(part);
                assert(out.deep_view() =~= before.push(view));
            },
            ContentPart::Image { .. } => {
                proof {
                    an_image_stays(all, i as int + 1, echo_reasoning);
                }
                return None;
            },
        }
        i += 1;
    }
    assert(all.take(i as int) =~= all);
    Some(out)
}

proof fn an_image_stays(parts: Seq<ContentPartView>, upto: int, echo_reasoning: bool)
    requires
        0 <= upto <= parts.len(),
        wire_parts(parts.take(upto), echo_reasoning) is None,
    ensures
        wire_parts(parts, echo_reasoning) is None,
    decreases parts.len() - upto,
{
    if upto < parts.len() {
        assert(parts.take(upto + 1).drop_last() =~= parts.take(upto));
        an_image_stays(parts, upto + 1, echo_reasoning);
    } else {
        assert(parts.take(upto) =~= parts);
    }
}

proof fn a_failure_stays(messages: Seq<MessageView>, upto: int, echo_reasoning: bool)
    requires
        0 <= upto <= messages.len(),
        wire_messages(messages.take(upto), echo_reasoning) is Err,
    ensures
        wire_messages(messages, echo_reasoning) == wire_messages(
            messages.take(upto),
            echo_reasoning,
        ),
    decreases messages.len() - upto,
{
    if upto < messages.len() {
        assert(messages.take(upto + 1).drop_last() =~= messages.take(upto));
        a_failure_stays(messages, upto + 1, echo_reasoning);
    } else {
        assert(messages.take(upto) =~= messages);
    }
}

fn map_message(message: &Message, echo_reasoning: bool) -> (r: Result<WireMessage, ModelError>)
    ensures
        copies::held(r) == wire_message(message@, echo_reasoning),
{
    match message.role {
        Role::System => Ok(WireMessage::System(message.text_body())),
        Role::User => Ok(WireMessage::User(message.text_body())),
        Role::Tool => match &message.tool_call_id {
            Some(call_id) => Ok(
                WireMessage::ToolResponse { call_id: call_id.clone(), content: message.text_body() },
            ),
            None => Err(
                ModelError::InvalidRequest("tool message is missing its tool_call_id".to_owned()),
            ),
        },
        Role::Assistant => match map_parts(&message.content, echo_reasoning) {
            Some(parts) => Ok(WireMessage::Assistant(parts)),
            None => Err(
                ModelError::CapabilityMismatch(
                    "image parts are not wired for OpenAI-compatible dialects".to_owned(),
                ),
            ),
        },
    }
}

fn map_tool_spec(spec: &ToolSpec) -> (r: WireTool)
    ensures
        r@ == wire_tool(spec@),
{
    WireTool {
        name: spec.name.clone(),
        description: spec.description.clone(),
        schema: spec.parameters.clone(),
    }
}

fn map_tools(tools: &Vec<ToolSpec>) -> (r: Option<Vec<WireTool>>)
    ensures
        r.deep_view() == wire_tools(tools.deep_view()),
{
    let ghost all = tools.deep_view();
    let ghost mapped = all.map_values(|spec: ToolSpecView| wire_tool(spec));
    if tools.len() == 0 {
        return None;
    }
    let mut out: Vec<WireTool> = Vec::new();
    let mut i: usize = 0;
    while i < tools.len()
        invariant
            i <= tools.len(),
            all == tools.deep_view(),
            mapped == all.map_values(|spec: ToolSpecView| wire_tool(spec)),
            out.len() == i,
            out.deep_view() == mapped.take(i as int),
        decreases tools.len() - i,
    {
        out.push(map_tool_spec(&tools[i]));
        assert(all[i as int] == tools[i as int]@);
        i += 1;
        assert(out.deep_view() =~= mapped.take(i as int));
    }
    assert(mapped.take(i as int) =~= mapped);
    Some(out)
}

/// The leading system messages' texts.
fn hoist(messages: &Vec<Message>) -> (r: Vec<String>)
    ensures
        r.len() == leading_system(messages.deep_view()),
        r.len() <= messages.len(),
        r.deep_view() == bodies(messages.deep_view().take(r.len() as int)),
{
    let ghost all = messages.deep_view();
    let mut out: Vec<String> = Vec::new();
    let mut i: usize = 0;
    while i < messages.len() && messages[i].role == Role::System
        invariant
            i <= messages.len(),
            all == messages.deep_view(),
            out.len() == i,
            out.deep_view() == bodies(all.take(i as int)),
            forall|j: int| 0 <= j < i ==> (#[trigger] all[j]).role == Role::System,
        decreases messages.len() - i,
    {
        assert(all[i as int] == messages[i as int]@);
        let ghost before = out.deep_view();
        let body = messages[i].text_body();
        let ghost view = body@;
        out.push(body);
        assert(out.deep_view() =~= before.push(view));
        i += 1;
        assert(bodies(all.take(i as int)) =~= bodies(all.take(i as int - 1)).push(view));
    }
    proof {
        if i < messages.len() {
            assert(all[i as int] == messages[i as int]@);
        }
        assert(all.len() == messages.len());
        leading_system_is(all, i as int);
    }
    out
}

/// Maps a request onto the wire: leading system messages are hoisted into the
/// system slot, the rest becomes messages. Stripping reasoning where there is
/// no obligation to echo it is a policy, not a silent drop.
pub fn build_genai_request(request: &ChatRequest, echo_reasoning: bool) -> (r: Result<
    WireRequest,
    ModelError,
>)
    ensures
        copies::held(r) == wire_request(request@, echo_reasoning),
{
    let ghost all = request.messages.deep_view();
    let hoisted = hoist(&request.messages);
    let count: usize = hoisted.len();
    let ghost rest = all.skip(count as int);
    let mut messages: Vec<WireMessage> = Vec::new();
    let mut i: usize = count;
    assert(rest.take(0) =~= Seq::empty());
    assert(messages.deep_view() =~= Seq::empty());
    while i < request.messages.len()
        invariant
            count <= i <= request.messages.len(),
            all == request.messages.deep_view(),
            all == request@.messages,
            rest == all.skip(count as int),
            count == leading_system(all),
            wire_messages(rest.take(i - count), echo_reasoning) == Ok::<
                Seq<WireMessageView>,
                ModelErrorView,
            >(messages.deep_view()),
        decreases request.messages.len() - i,
    {
        let ghost before = messages.deep_view();
        let ghost upto = i - count + 1;
        assert(rest.take(upto).drop_last() =~= rest.take(i - count));
        assert(rest.take(upto).last() == request.messages[i as int]@);
        match map_message(&request.messages[i], echo_reasoning) {
            Ok(message) => {
                let ghost view = message@;
                messages.push(message);
                assert(messages.deep_view() =~= before.push(view));
            },
            Err(error) => {
                proof {
                    a_failure_stays(rest, upto, echo_reasoning);
                }
                return Err(error);
            },
        }
        i += 1;
    }
    assert(rest.take(i - count) =~= rest);
    let system = if count > 0 {
        Some(text::join(&hoisted, "\n\n"))
    } else {
        None
    };
    Ok(WireRequest { system, messages, tools: map_tools(&request.tools) })
}

/// A counter: absent and negative ones count nothing.
pub open spec fn tokens(value: Option<i32>) -> u64 {
    match value {
        Some(n) => if n < 0 {
            0
        } else {
            n as u64
        },
        None => 0,
    }
}

/// The usage in buckets: the wire counts cache hits among the input, so that
/// the uncached input is what remains.
pub open spec fn bucketed(usage: WireUsageView) -> UsageView {
    let total = tokens(usage.prompt_tokens);
    let cache_read = tokens(usage.cached_tokens);
    UsageView {
        input: if total < cache_read {
            0
        } else {
            (total - cache_read) as u64
        },
        cache_read,
        cache_write: tokens(usage.cache_creation_tokens),
        output: tokens(usage.completion_tokens),
        reasoning: tokens(usage.reasoning_tokens),
        raw: usage.raw,
    }
}

/// The cached and the uncached input make up the whole of it.
pub proof fn input_buckets_add_up(usage: WireUsageView)
    requires
        tokens(usage.cached_tokens) <= tokens(usage.prompt_tokens),
    ensures
        bucketed(usage).input + bucketed(usage).cache_read == tokens(usage.prompt_tokens),
{
}

fn as_u64(value: Option<i32>) -> (r: u64)
    ensures
        r == tokens(value),
{
    match value {
        Some(n) => if n < 0 {
            0
        } else {
            n as u64
        },
        None => 0,
    }
}

/// The usage in buckets.
pub fn map_usage(usage: &WireUsage) -> (r: Usage)
    ensures
        r@ == bucketed(usage@),
{
    let total: u64 = as_u64(usage.prompt_tokens);
    let cache_read: u64 = as_u64(usage.cached_tokens);
    Usage {
        input: if total < cache_read {
            0
        } else {
            total - cache_read
        },
        cache_read,
        cache_write: as_u64(usage.cache_creation_tokens),
        output: as_u64(usage.completion_tokens),
        reasoning: as_u64(usage.reasoning_tokens),
        raw: usage.raw.clone(),
    }
}

/// A stop reason in the contract's terms.
pub open spec fn finish_of(reason: StopReasonView) -> FinishReasonView {
    match reason {
        StopReasonView::Completed(_) | StopReasonView::StopSequence(_) => FinishReasonView::Stop,
        StopReasonView::MaxTokens(_) => FinishReasonView::Length,
        StopReasonView::ToolCall(_) => FinishReasonView::ToolCalls,
        StopReasonView::ContentFilter(_) => FinishReasonView::ContentFilter,
        StopReasonView::Other(raw) => FinishReasonView::Other(raw),
    }
}

/// A stop reason in the contract's terms.
pub fn map_stop_reason(reason: &StopReason) -> (r: FinishReason)
    ensures
        r@ == finish_of(reason@),
{
    match reason {
        StopReason::Completed(_) | StopReason::StopSequence(_) => FinishReason::Stop,
        StopReason::MaxTokens(_) => FinishReason::Length,
        StopReason::ToolCall(_) => FinishReason::ToolCalls,
        StopReason::ContentFilter(_) => FinishReason::ContentFilter,
        StopReason::Other(raw) => FinishReason::Other(raw.clone()),
    }
}

} // verus!
