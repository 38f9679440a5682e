//! What a call puts on the wire and what a stream brings back, in terms of the
//! request and of the events.
use crate::contract::capabilities::{CacheSupport, ReasoningCapsView, SoSupport, Support};
use crate::contract::error::ModelErrorView;
use crate::contract::message;
use crate::contract::message::{ContentPartView, MessageView, Role, ToolCallView};
use crate::contract::request::{
    ChatRequestView, EffortLevel, OutputModeView, Reasoning, ToolChoiceView,
};
use crate::contract::stream::{FinishReasonView, StreamChunkView};
use crate::json;
use crate::json::ValueView;
use crate::openai::dialect;
use crate::openai::dialect::{Dialect, WireEffort, WireFormatView, WireToolChoiceView};
use crate::openai::error;
use crate::openai::error::{StreamFaultView, WireErrorView};
use crate::openai::map::{StopReasonView, WireMessageView, WirePartView, WireUsageView};
use crate::openai::provider;
use crate::openai::stream_laws;
use crate::openai::stream_map;
use crate::openai::stream_map::{OpenCallView, WireEventView};
use crate::pairs;
use crate::runtime::assembler;
use crate::runtime::assembly_laws;
use crate::text;
use crate::text_laws;
use vstd::prelude::*;

verus! {

/// The tool calls among the parts on the wire, in order.
pub open spec fn calls_on_the_wire(parts: Seq<WirePartView>) -> Seq<ToolCallView>
    decreases parts.len(),
{
    if parts.len() == 0 {
        Seq::empty()
    } else {
        let before = calls_on_the_wire(parts.drop_last());
        match parts.last() {
            WirePartView::ToolCall { call_id, fn_name, fn_arguments } => before.push(
                ToolCallView { id: call_id, name: fn_name, arguments: fn_arguments },
            ),
            _ => before,
        }
    }
}

/// The text parts on the wire, in order.
pub open spec fn texts_on_the_wire(parts: Seq<WirePartView>) -> Seq<Seq<char>>
    decreases parts.len(),
{
    if parts.len() == 0 {
        Seq::empty()
    } else {
        let before = texts_on_the_wire(parts.drop_last());
        match parts.last() {
            WirePartView::Text(said) => before.push(said),
            _ => before,
        }
    }
}

/// The reasoning parts on the wire, in order.
pub open spec fn reasoning_on_the_wire(parts: Seq<WirePartView>) -> Seq<Seq<char>>
    decreases parts.len(),
{
    if parts.len() == 0 {
        Seq::empty()
    } else {
        let before = reasoning_on_the_wire(parts.drop_last());
        match parts.last() {
            WirePartView::ReasoningContent(thought) => before.push(thought),
            _ => before,
        }
    }
}

/// Whether `parts` is the content of an assistant message on the wire: the tool
/// calls are exactly those of the message, in order, each with its id, its name
/// and its arguments; the text parts are exactly those of the message; the
/// reasoning is that of the message where it is to be echoed, and else none.
pub open spec fn says_the_same(
    parts: Seq<WirePartView>,
    content: Seq<ContentPartView>,
    echo_reasoning: bool,
) -> bool {
    &&& calls_on_the_wire(parts) == message::calls_in(content)
    &&& texts_on_the_wire(parts) == message::texts_in(content)
    &&& reasoning_on_the_wire(parts) == (if echo_reasoning {
        assembly_laws::reasonings_in(content)
    } else {
        Seq::empty()
    })
}

/// An assistant message goes onto the wire with all its calls and texts, and
/// with its reasoning where that is to be echoed; only an image keeps it from
/// the wire.
pub proof fn assistant_messages_keep_their_parts(
    content: Seq<ContentPartView>,
    echo_reasoning: bool,
)
    ensures
        crate::openai::map::wire_parts(content, echo_reasoning) matches Some(parts)
            ==> says_the_same(parts, content, echo_reasoning),
        crate::openai::map::wire_parts(content, echo_reasoning) is Some <==> forall|j: int|
            0 <= j < content.len() ==> #[trigger] content[j] !is Image,
    decreases content.len(),
{
    if content.len() > 0 {
        let before = content.drop_last();
        assistant_messages_keep_their_parts(before, echo_reasoning);
        assert(content[content.len() - 1] == content.last());
        assert(forall|j: int| 0 <= j < before.len() ==> before[j] == content[j]);
        match crate::openai::map::wire_parts(content, echo_reasoning) {
            Some(parts) => {
                match crate::openai::map::wire_parts(before, echo_reasoning) {
                    Some(earlier) => {
                        if content.last() is Reasoning && !echo_reasoning {
                            assert(parts == earlier);
                        } else {
                            assert(parts.drop_last() =~= earlier);
                        }
                    },
                    None => {},
                }
                assert forall|j: int| 0 <= j < content.len() implies #[trigger]
                    content[j] !is Image by {
                    if j < before.len() {
                        assert(before[j] !is Image);
                    }
                }
            },
            None => {
                if crate::openai::map::wire_parts(before, echo_reasoning) is None {
                    let j = choose|j: int| 0 <= j < before.len() && #[trigger] before[j] is Image;
                    assert(content[j] is Image);
                }
            },
        }
    }
}

/// The text parts, reasoning and calls of an echoed message stay in their
/// places: part by part, each is on the wire what it is in the message.
pub proof fn echoed_messages_keep_their_order(content: Seq<ContentPartView>, j: int)
    requires
        0 <= j < content.len(),
        forall|i: int| 0 <= i < content.len() ==> #[trigger] content[i] !is Image,
    ensures
        crate::openai::map::wire_parts(content, true) matches Some(parts) && parts.len()
            == content.len() && match content[j] {
            ContentPartView::Text { text } => parts[j] == WirePartView::Text(text),
            ContentPartView::Reasoning { text } => parts[j] == WirePartView::ReasoningContent(text),
            ContentPartView::ToolCall { call } => parts[j] == (WirePartView::ToolCall {
                call_id: call.id,
                fn_name: call.name,
                fn_arguments: call.arguments,
            }),
            ContentPartView::Image { .. } => false,
        },
    decreases content.len(),
{
    let before = content.drop_last();
    assert(forall|i: int| 0 <= i < before.len() ==> before[i] == content[i]);
    assert(content[content.len() - 1] == content.last());
    assistant_messages_keep_their_parts(before, true);
    crate::openai::map::reasoning_follows_the_obligation(before);
    if j < before.len() {
        echoed_messages_keep_their_order(before, j);
        assert(before[j] == content[j]);
    }
}

/// Whether `sent` is `message` on the wire.
pub open spec fn stands_for(
    sent: WireMessageView,
    message: MessageView,
    echo_reasoning: bool,
) -> bool {
    match message.role {
        Role::System => sent == WireMessageView::System(message::body_text(message.content)),
        Role::User => sent == WireMessageView::User(message::body_text(message.content)),
        Role::Tool => sent is ToolResponse && Some(sent->call_id) == message.tool_call_id
            && sent->content == message::body_text(message.content),
        Role::Assistant => sent is Assistant && says_the_same(
            sent->Assistant_0,
            message.content,
            echo_reasoning,
        ),
    }
}

/// Whether a message can be on the wire.
pub open spec fn sendable(message: MessageView) -> bool {
    match message.role {
        Role::Tool => message.tool_call_id is Some,
        Role::Assistant => forall|j: int|
            0 <= j < message.content.len() ==> #[trigger] message.content[j] !is Image,
        _ => true,
    }
}

proof fn one_message(message: MessageView, echo_reasoning: bool)
    ensures
        match crate::openai::map::wire_message(message, echo_reasoning) {
            Ok(sent) => sendable(message) && stands_for(sent, message, echo_reasoning),
            Err(error) => !sendable(message) && error == (if message.role == Role::Tool {
                ModelErrorView::InvalidRequest("tool message is missing its tool_call_id"@)
            } else {
                ModelErrorView::CapabilityMismatch(
                    "image parts are not wired for OpenAI-compatible dialects"@,
                )
            }),
        },
{
    assistant_messages_keep_their_parts(message.content, echo_reasoning);
}

proof fn one_by_one(messages: Seq<MessageView>, echo_reasoning: bool)
    ensures
        match crate::openai::map::wire_messages(messages, echo_reasoning) {
            Ok(sent) => {
                &&& sent.len() == messages.len()
                &&& forall|i: int|
                    #![trigger messages[i]]
                    0 <= i < messages.len() ==> sendable(messages[i]) && stands_for(
                        sent[i],
                        messages[i],
                        echo_reasoning,
                    )
            },
            Err(_) => exists|i: int| 0 <= i < messages.len() && !sendable(#[trigger] messages[i]),
        },
    decreases messages.len(),
{
    if messages.len() > 0 {
        let before = messages.drop_last();
        one_by_one(before, echo_reasoning);
        one_message(messages.last(), echo_reasoning);
        assert(forall|i: int| 0 <= i < before.len() ==> before[i] == messages[i]);
        assert(messages[messages.len() - 1] == messages.last());
        match crate::openai::map::wire_messages(messages, echo_reasoning) {
            Ok(sent) => {
                assert forall|i: int|
                    #![trigger messages[i]]
                    0 <= i < messages.len() implies sendable(messages[i]) && stands_for(
                    sent[i],
                    messages[i],
                    echo_reasoning,
                ) by {
                    if i < before.len() {
                        assert(before[i] == messages[i]);
                    }
                }
            },
            Err(_) => {
                if crate::openai::map::wire_messages(before, echo_reasoning) is Err {
                    let i = choose|i: int|
                        0 <= i < before.len() && !sendable(#[trigger] before[i]);
                    assert(!sendable(messages[i]));
                } else {
                    assert(!sendable(messages[messages.len() - 1]));
                }
            },
        }
    }
}

/// Every message of a request goes onto the wire, in order and as what it is;
/// the system messages that lead go, a blank line between their texts, into the
/// system slot instead. A request is refused exactly where one of the messages
/// behind the leading ones cannot be sent.
pub proof fn requests_carry_every_message(
    request: ChatRequestView,
    leading: int,
    echo_reasoning: bool,
)
    requires
        0 <= leading <= request.messages.len(),
        forall|i: int| 0 <= i < leading ==> (#[trigger] request.messages[i]).role == Role::System,
        leading < request.messages.len() ==> request.messages[leading].role != Role::System,
    ensures
        match crate::openai::map::wire_request(request, echo_reasoning) {
            Ok(wire) => {
                &&& wire.messages.len() == request.messages.len() - leading
                &&& forall|i: int|
                    leading <= i < request.messages.len() ==> stands_for(
                        wire.messages[i - leading],
                        #[trigger] request.messages[i],
                        echo_reasoning,
                    )
                &&& wire.system is Some <==> leading > 0
                &&& leading == 1 ==> wire.system == Some(
                    message::body_text(request.messages[0].content),
                )
            },
            Err(_) => exists|i: int|
                leading <= i < request.messages.len() && !sendable(#[trigger] request.messages[i]),
        },
        crate::openai::map::wire_request(request, echo_reasoning) is Ok ==> forall|i: int|
            leading <= i < request.messages.len() ==> sendable(#[trigger] request.messages[i]),
{
    crate::openai::map::leading_system_is_a_prefix(request.messages);
    let count = crate::openai::map::leading_system(request.messages);
    if count < leading {
        assert(request.messages[count].role == Role::System);
    }
    if leading < count {
        assert(request.messages[leading].role == Role::System);
    }
    assert(count == leading);
    let rest = request.messages.skip(leading);
    one_by_one(rest, echo_reasoning);
    assert(forall|i: int|
        leading <= i < request.messages.len() ==> rest[i - leading] == #[trigger] request.messages[
            i]);
    match crate::openai::map::wire_request(request, echo_reasoning) {
        Ok(wire) => {
            assert forall|i: int| leading <= i < request.messages.len() implies stands_for(
                wire.messages[i - leading],
                #[trigger] request.messages[i],
                echo_reasoning,
            ) && sendable(request.messages[i]) by {
                assert(rest[i - leading] == request.messages[i]);
            }
            if leading == 1 {
                let texts = crate::openai::map::bodies(request.messages.take(1));
                assert(texts.len() == 1);
                assert(texts[0] == message::body_text(request.messages[0].content));
            }
        },
        Err(_) => {
            let k = choose|k: int| 0 <= k < rest.len() && !sendable(#[trigger] rest[k]);
            assert(!sendable(request.messages[k + leading]));
        },
    }
}

/// The system slot grows with the leading system messages: one more of them
/// adds a blank line and its text.
pub proof fn system_slots_add_up(messages: Seq<MessageView>, more: MessageView)
    requires
        messages.len() > 0,
        forall|i: int| 0 <= i < messages.len() ==> (#[trigger] messages[i]).role == Role::System,
        more.role == Role::System,
    ensures
        crate::openai::map::system_slot(messages) is Some,
        crate::openai::map::system_slot(messages.push(more)) == Some(
            crate::openai::map::system_slot(messages).unwrap() + "\n\n"@ + message::body_text(
                more.content,
            ),
        ),
{
    let all = messages.push(more);
    crate::openai::map::leading_system_is_a_prefix(messages);
    crate::openai::map::leading_system_is_a_prefix(all);
    let a = crate::openai::map::leading_system(messages);
    let b = crate::openai::map::leading_system(all);
    if a < messages.len() {
        assert(messages[a].role == Role::System);
    }
    if b < all.len() {
        if b < messages.len() {
            assert(all[b] == messages[b]);
            assert(messages[b].role == Role::System);
        }
        assert(all[b].role == Role::System);
    }
    assert(messages.take(a) =~= messages);
    assert(all.take(b) =~= all);
    let texts = crate::openai::map::bodies(messages);
    assert(crate::openai::map::bodies(all).drop_last() =~= texts);
    assert(crate::openai::map::bodies(all).last() == message::body_text(more.content));
}

/// Every tool of a request goes onto the wire at its place, with its name, its
/// description and its schema; a request without tools sends no list.
pub proof fn requests_carry_every_tool(request: ChatRequestView, echo_reasoning: bool, k: int)
    requires
        crate::openai::map::wire_request(request, echo_reasoning) is Ok,
    ensures
        ({
            let tools = crate::openai::map::wire_request(request, echo_reasoning)->Ok_0.tools;
            &&& request.tools.len() == 0 <==> tools is None
            &&& 0 <= k < request.tools.len() ==> {
                &&& tools->0.len() == request.tools.len()
                &&& tools->0[k].name == request.tools[k].name
                &&& tools->0[k].description == request.tools[k].description
                &&& tools->0[k].schema == request.tools[k].parameters
            }
        }),
{
}

/// Counters pass through: each bucket is its counter, an absent or negative
/// one counting nothing, and the cached part of the prompt is taken out of the
/// input, never below nothing. The whole object is kept.
pub proof fn counters_pass_through(usage: WireUsageView)
    ensures
        ({
            let mapped = crate::openai::map::bucketed(usage);
            let count = |n: Option<i32>| if n is Some && n->0 > 0 {
                n->0 as int
            } else {
                0
            };
            &&& mapped.cache_read == count(usage.cached_tokens)
            &&& mapped.cache_write == count(usage.cache_creation_tokens)
            &&& mapped.output == count(usage.completion_tokens)
            &&& mapped.reasoning == count(usage.reasoning_tokens)
            &&& mapped.input == (if count(usage.prompt_tokens) >= count(usage.cached_tokens) {
                count(usage.prompt_tokens) - count(usage.cached_tokens)
            } else {
                0
            })
            &&& mapped.raw == usage.raw
        }),
{
}

/// A stop reason keeps its meaning: a natural stop and a stop sequence are a
/// stop, and each other reason is told apart from the rest.
pub proof fn stop_reasons_keep_their_meaning(a: StopReasonView, b: StopReasonView)
    ensures
        crate::openai::map::finish_of(a) is Stop <==> a is Completed || a is StopSequence,
        crate::openai::map::finish_of(a) is Length <==> a is MaxTokens,
        crate::openai::map::finish_of(a) is ToolCalls <==> a is ToolCall,
        crate::openai::map::finish_of(a) is ContentFilter <==> a is ContentFilter,
        a matches StopReasonView::Other(word) ==> crate::openai::map::finish_of(a)
            == FinishReasonView::Other(word),
{
}

/// What a request asks for is what its options say: the token limit, the
/// sampling and the tool choice unchanged, the temperature within the vendor's
/// range, the reasoning and the format as the dialect maps them, and usage and
/// whole calls always asked for.
pub proof fn options_say_what_was_asked<D: Dialect>(dialect: &D, request: ChatRequestView)
    requires
        dialect::options(dialect, request) is Ok,
    ensures
        ({
            let options = dialect::options(dialect, request)->Ok_0;
            &&& options.capture_usage && options.capture_tool_calls
            &&& options.max_tokens == request.max_output_tokens
            &&& options.top_p == request.sampling.top_p
            &&& options.seed == request.sampling.seed
            &&& options.temperature is Some <==> request.sampling.temperature is Some
            &&& request.sampling.temperature matches Some(asked) ==> options.temperature == Some(
                dialect.clamped(asked),
            )
            &&& dialect.effort(request.reasoning) == Ok::<Option<WireEffort>, ModelErrorView>(
                options.reasoning_effort,
            )
            &&& dialect.format(request.output) == Ok::<Option<WireFormatView>, ModelErrorView>(
                options.response_format,
            )
            &&& options.tool_choice is None <==> request.tool_choice is Auto
            &&& options.tool_choice == Some(WireToolChoiceView::Never) <==> request.tool_choice
                is Never
            &&& options.tool_choice == Some(WireToolChoiceView::Required) <==> request.tool_choice
                is Required
            &&& request.tool_choice matches ToolChoiceView::Named(name) ==> options.tool_choice
                == Some(WireToolChoiceView::Tool { name })
        }),
{
}

/// A request is taken by a dialect exactly where the model has all that it asks
/// for: tools only where it has tools, a word on parallel calls only where it
/// can make them, a reasoning and a format that the dialect maps, and no cache
/// breakpoints.
pub proof fn options_are_refused_for_cause<D: Dialect>(dialect: &D, request: ChatRequestView)
    ensures
        dialect::options(dialect, request) is Ok <==> {
            &&& request.tools.len() > 0 ==> dialect.abilities().tools
            &&& request.parallel_tools is Some ==> dialect.abilities().parallel_tools
                != Support::No
            &&& dialect.effort(request.reasoning) is Ok
            &&& dialect.format(request.output) is Ok
            &&& !(request.cache is Breakpoints)
        },
{
}

/// What the caller passes through reaches the request body field by field; the
/// vendor's fields do where the caller does not override them; a word on
/// parallel calls does where neither overrides it, as `true` or `false`.
/// Nothing else does.
pub proof fn bodies_carry_every_field<D: Dialect>(
    dialect: &D,
    request: ChatRequestView,
    key: Seq<char>,
)
    requires
        dialect::options(dialect, request) is Ok,
    ensures
        ({
            let options = dialect::options(dialect, request)->Ok_0;
            let sent = match options.extra_body {
                Some(fields) => pairs::lookup(fields, key),
                None => None,
            };
            let own = match request.extra {
                ValueView::Object(fields) => json::last_value(fields, key),
                _ => None,
            };
            let vendor = match dialect.vendor_fields(request.reasoning) {
                Some(fields) => json::last_value(fields, key),
                None => None,
            };
            &&& own is Some ==> sent == own
            &&& own is None && vendor is Some ==> sent == vendor
            &&& own is None && vendor is None && key == "parallel_tool_calls"@ ==> sent == (
            match request.parallel_tools {
                Some(parallel) => Some(
                    if parallel {
                        "true"@
                    } else {
                        "false"@
                    },
                ),
                None => None,
            })
            &&& own is None && vendor is None && key != "parallel_tool_calls"@ ==> sent is None
        }),
{
    dialect::no_field_is_swallowed(dialect, request, key);
    let flag = dialect::parallel_field(request.parallel_tools);
    if let Some(fields) = flag {
        assert(fields.drop_last() =~= Seq::empty());
        reveal_with_fuel(json::last_value, 2);
    }
    match request.extra {
        ValueView::Object(fields) => {
            if fields.len() == 0 {
                assert(json::last_value(fields, key) is None);
            }
        },
        _ => {},
    }
}

/// Reasoning is mapped by what the model can do: left to the vendor it is not
/// written, off and a budget only where the model has them, an effort to a tier
/// that the model declares, and to itself where it declares it.
pub proof fn reasoning_is_mapped_by_capability(
    caps: Option<ReasoningCapsView>,
    level: EffortLevel,
    tokens: u32,
)
    ensures
        dialect::mapped_reasoning(caps, Reasoning::Adaptive) == Ok::<
            Option<WireEffort>,
            ModelErrorView,
        >(None),
        dialect::mapped_reasoning(caps, Reasoning::Off) == Ok::<
            Option<WireEffort>,
            ModelErrorView,
        >(Some(WireEffort::Zero)) <==> caps is Some && caps->0.off_capable,
        dialect::mapped_reasoning(caps, Reasoning::Off) is Ok <==> caps is Some
            && caps->0.off_capable,
        dialect::mapped_reasoning(caps, Reasoning::Budget(tokens)) == Ok::<
            Option<WireEffort>,
            ModelErrorView,
        >(Some(WireEffort::Budget(tokens))) <==> caps is Some && caps->0.budget_capable,
        dialect::mapped_reasoning(caps, Reasoning::Budget(tokens)) is Ok <==> caps is Some
            && caps->0.budget_capable,
        dialect::mapped_reasoning(caps, Reasoning::Effort(level)) is Ok <==> caps is Some
            && caps->0.efforts.len() > 0,
        caps is Some && caps->0.efforts.contains(level) ==> dialect::mapped_reasoning(
            caps,
            Reasoning::Effort(level),
        ) == Ok::<Option<WireEffort>, ModelErrorView>(
            Some(
                match level {
                    EffortLevel::Low => WireEffort::Low,
                    EffortLevel::Medium => WireEffort::Medium,
                    EffortLevel::High => WireEffort::High,
                    EffortLevel::Max => WireEffort::Max,
                },
            ),
        ),
{
    if let Some(caps) = caps {
        if caps.efforts.len() > 0 {
            dialect::nearest_tier_is_supported_and_closest(caps.efforts, level);
        }
    }
}

/// The tiers in order of effort.
pub open spec fn tier(level: EffortLevel) -> int {
    match level {
        EffortLevel::Low => 1,
        EffortLevel::Medium => 2,
        EffortLevel::High => 3,
        EffortLevel::Max => 4,
    }
}

/// The tier that stands in for another is the nearest that the model has: no
/// tier of the model lies between the two, nor is one nearer; where one lies as
/// near on the other side, the lower one stands in.
pub proof fn stand_in_tiers_are_nearest(efforts: Seq<EffortLevel>, level: EffortLevel, i: int)
    requires
        0 <= i < efforts.len(),
    ensures
        ({
            let stand_in = tier(dialect::nearest(efforts, level));
            let far = |t: int| if t < tier(level) {
                tier(level) - t
            } else {
                t - tier(level)
            };
            &&& far(stand_in) <= far(tier(efforts[i]))
            &&& far(stand_in) == far(tier(efforts[i])) ==> stand_in <= tier(efforts[i])
            &&& efforts.contains(dialect::nearest(efforts, level))
        }),
{
    dialect::nearest_tier_is_supported_and_closest(efforts, level);
    assert(!dialect::nearer(efforts[i], dialect::nearest(efforts, level), level));
}

/// The ladder of structured output: plain text is always taken and asks for no
/// format; JSON is taken by all but vendors that only go by the prompt; a strict
/// schema only where it is enforced, and then closed; a loose schema is sent as
/// it stands where the vendor takes schemas, and as JSON where it only knows
/// that.
pub proof fn output_ladder(support: SoSupport, schema: ValueView)
    ensures
        dialect::mapped_output(support, OutputModeView::Text) == Ok::<
            Option<WireFormatView>,
            ModelErrorView,
        >(None),
        support == SoSupport::PromptOnly <==> dialect::mapped_output(
            support,
            OutputModeView::Json,
        ) is Err,
        support != SoSupport::PromptOnly ==> dialect::mapped_output(support, OutputModeView::Json)
            == Ok::<Option<WireFormatView>, ModelErrorView>(Some(WireFormatView::JsonMode)),
        ({
            let loose = dialect::mapped_output(
                support,
                OutputModeView::Schema { schema, strict: false },
            );
            &&& support == SoSupport::NativeStrict || support == SoSupport::NativeLoose ==> loose
                == Ok::<Option<WireFormatView>, ModelErrorView>(
                Some(WireFormatView::JsonSpec { name: "response"@, schema }),
            )
            &&& support == SoSupport::JsonMode ==> loose == Ok::<
                Option<WireFormatView>,
                ModelErrorView,
            >(Some(WireFormatView::JsonMode))
            &&& support == SoSupport::PromptOnly ==> loose is Err
        }),
        ({
            let strict = dialect::mapped_output(
                support,
                OutputModeView::Schema { schema, strict: true },
            );
            &&& support != SoSupport::NativeStrict ==> strict is Err
            &&& support == SoSupport::NativeStrict ==> match dialect::closed_schema(schema) {
                Ok(closed) => strict == Ok::<Option<WireFormatView>, ModelErrorView>(
                    Some(WireFormatView::JsonSpec { name: "response"@, schema: closed }),
                ),
                Err(_) => strict matches Err(ModelErrorView::InvalidRequest(_)),
            }
        }),
        dialect::closed_schema(schema) matches Ok(closed) ==> dialect::closed_schema_value(
            json::rendered(schema),
        ) == Some(closed),
        json::nesting(json::rendered(schema)).most <= 512 && dialect::closed_schema_value(
            json::rendered(schema),
        ) is Some ==> dialect::closed_schema(schema) is Ok,
{
}

/// Thinking at DeepSeek is opt-in: an effort turns it on and is written, low as
/// low and anything above as high; without one nothing is sent about it, and a
/// budget is refused.
pub proof fn deepseek_thinks_on_request(reasoning: Reasoning)
    ensures
        ({
            let fields = crate::openai::dialects::deepseek::thinking_field(reasoning);
            let effort = crate::openai::dialects::deepseek::thinking_effort(reasoning);
            &&& reasoning matches Reasoning::Effort(level) ==> {
                &&& fields == Some(seq![("thinking"@, "{\"type\":\"enabled\"}"@)])
                &&& effort == Ok::<Option<WireEffort>, ModelErrorView>(
                    Some(
                        if level == EffortLevel::Low {
                            WireEffort::Low
                        } else {
                            WireEffort::High
                        },
                    ),
                )
            }
            &&& !(reasoning is Effort) ==> fields is None
            &&& reasoning is Off || reasoning is Adaptive ==> effort == Ok::<
                Option<WireEffort>,
                ModelErrorView,
            >(None)
            &&& reasoning is Budget ==> effort is Err
        }),
{
}

/// Temperatures at Kimi stay within 0 and 1: one that is within stays as it is,
/// one above becomes 1 and one below becomes 0. Bits from 0 up to those of 1
/// are the numbers within; the sign is the topmost bit.
pub proof fn kimi_temperatures_stay_in_range(bits: u32)
    ensures
        ({
            let clamped = crate::openai::dialects::kimi::in_unit_range(bits);
            &&& bits <= 0x3f80_0000 || bits == 0x8000_0000 ==> clamped == bits
            &&& 0x3f80_0000 <= bits <= 0x7f80_0000 ==> clamped == 0x3f80_0000
            &&& 0x8000_0000 < bits <= 0xff80_0000 ==> clamped == 0
            &&& 0x7f80_0000 < bits < 0x8000_0000 || bits > 0xff80_0000 ==> clamped == bits
        }),
{
}

/// A call is prepared exactly where both its messages and its options can be
/// sent, and then consists of the two; the messages are refused first.
pub proof fn calls_are_prepared_whole<D: Dialect>(dialect: &D, request: ChatRequestView)
    ensures
        ({
            let wire = crate::openai::map::wire_request(request, dialect.echoes());
            let options = dialect::options(dialect, request);
            match provider::prepared(dialect, request) {
                Ok(sent) => wire is Ok && options is Ok && sent == (wire->Ok_0, options->Ok_0),
                Err(error) => (wire is Err && wire->Err_0 == error) || (wire is Ok && options
                    is Err && options->Err_0 == error),
            }
        }),
{
}

/// What an HTTP status means: 401 and 403 are refusals of the key, 408, 409,
/// 425 and 429 pass with time, 413 and a 400 that speaks of the context's
/// length are a context too long, any other 400 is a bad request, and the rest
/// is the server's, to be tried again from 500 on.
pub proof fn statuses_are_told_apart(status: u16, body: Seq<char>, reason: Option<Seq<char>>)
    ensures
        ({
            let told = error::classified(status, body, reason);
            &&& told is Auth <==> status == 401 || status == 403
            &&& told is RateLimited <==> status == 408 || status == 409 || status == 425 || status
                == 429
            &&& told is ContextLength <==> status == 413 || status == 400 && error::speaks_of_context(
                body,
            )
            &&& told is InvalidRequest <==> status == 400 && !error::speaks_of_context(body)
            &&& told is Server <==> !(status == 400 || status == 401 || status == 403 || status
                == 408 || status == 409 || status == 413 || status == 425 || status == 429)
            &&& told matches ModelErrorView::Server { status: kept, retriable, .. } ==> kept
                == status && retriable == (status >= 500)
            &&& told matches ModelErrorView::RateLimited { retry_after } ==> retry_after is None
        }),
        error::speaks_of_context(body) <==> {
            ||| exists|head: Seq<char>, tail: Seq<char>|
                body == #[trigger] (head + "context_length"@ + tail)
            ||| exists|head: Seq<char>, tail: Seq<char>|
                body == #[trigger] (head + "maximum context length"@ + tail)
        },
{
    text_laws::occurring_is_standing_between(body, "context_length"@);
    text_laws::occurring_is_standing_between(body, "maximum context length"@);
}

/// Whether `shown` is the head of `whole`: all of it, or its first 500
/// characters.
pub open spec fn is_head_of(shown: Seq<char>, whole: Seq<char>) -> bool {
    &&& shown.is_prefix_of(whole)
    &&& shown.len() == (if whole.len() < 500 {
        whole.len()
    } else {
        500
    })
}

/// An error quotes the head of what it is about: the body for a refused key and
/// a bad request, the provider's own reason for a server error where there is
/// one, else the body; a blank body is not quoted.
pub proof fn errors_quote_the_head(status: u16, body: Seq<char>, reason: Option<Seq<char>>)
    ensures
        match error::classified(status, body, reason) {
            ModelErrorView::Auth(shown) | ModelErrorView::InvalidRequest(shown) => is_head_of(
                shown,
                body,
            ),
            ModelErrorView::Server { detail, .. } => {
                &&& detail is None <==> text_laws::blank(body)
                &&& detail matches Some(shown) ==> is_head_of(
                    shown,
                    match reason {
                        Some(reason) => reason,
                        None => body,
                    },
                )
            },
            _ => true,
        },
{
    if text_laws::blank(body) {
        text_laws::trimming_empties_blanks(body);
    } else if text::trimmed(body).len() == 0 {
        text_laws::trimming_takes_white_space_only(body);
        let core = text::trimmed(body);
        let (head, tail) = choose|head: Seq<char>, tail: Seq<char>|
            #![trigger text_laws::blank(head), text_laws::blank(tail)]
            text_laws::blank(head) && text_laws::blank(tail) && body == head + core + tail;
        assert forall|i: int| 0 <= i < body.len() implies text::white(#[trigger] body[i]) by {
            if i < head.len() {
                assert(body[i] == head[i]);
            } else {
                assert(body[i] == tail[i - head.len()]);
            }
        }
        assert(text_laws::blank(body));
    }
}

/// A failure of the transport keeps its kind: an HTTP response, in front of the
/// stream or within it, is classified by its status; a failed call and a broken
/// stream are the network's, a frame that is no JSON breaks the protocol, a
/// missing key is a matter of authentication, and what is not recognized is not
/// tried again.
pub proof fn failures_keep_their_kind(
    status: u16,
    body: Seq<char>,
    shown: Seq<char>,
    cause: Seq<char>,
)
    ensures
        error::mapped_error(WireErrorView::Http { status, body }) == error::classified(
            status,
            body,
            error::reason_in(body),
        ),
        error::mapped_error(
            WireErrorView::Stream { fault: Some(StreamFaultView::Http { status, body }), cause },
        ) == error::mapped_error(WireErrorView::Http { status, body }),
        error::mapped_error(
            WireErrorView::Stream { fault: Some(StreamFaultView::Other(shown)), cause },
        ) == ModelErrorView::Network(shown),
        error::mapped_error(WireErrorView::Stream { fault: None, cause })
            == ModelErrorView::Network(cause),
        error::mapped_error(WireErrorView::Call(shown)) == ModelErrorView::Network(shown),
        error::mapped_error(WireErrorView::StreamParse(shown)) == ModelErrorView::Protocol(shown),
        error::mapped_error(WireErrorView::Credentials(shown)) == ModelErrorView::Auth(shown),
        error::mapped_error(WireErrorView::Other(shown)) == ModelErrorView::InvalidRequest(shown),
{
}

/// An error event within a stream passes with time exactly where it speaks of a
/// rate limit or of a quota; any other breaks the protocol, and its head is
/// quoted.
pub proof fn error_events_are_read(body: ValueView)
    ensures
        ({
            let shown = json::rendered(body);
            let told = error::mapped_error(WireErrorView::ErrorEvent(body));
            let limited = text::occurs(shown, "rate_limit"@) || text::occurs(
                shown,
                "insufficient_quota"@,
            );
            &&& limited <==> told == (ModelErrorView::RateLimited { retry_after: None })
            &&& !limited ==> told is Protocol && is_head_of(told->Protocol_0, shown)
        }),
{
}

/// A provider's own reason is the text under `message` within the object under
/// `error` of its JSON body, and there is none otherwise.
pub proof fn reasons_are_read_from_the_body(
    body: Seq<char>,
    document: ValueView,
    inner: ValueView,
    message: Seq<char>,
)
    requires
        json::parsed(body) == Ok::<ValueView, Seq<char>>(document),
        json::field_value(document, "error"@) == Some(inner),
    ensures
        json::field_value(inner, "message"@) == Some(ValueView::String(message)) ==>
            error::reason_in(body) == Some(message),
        !(json::field_value(inner, "message"@) matches Some(ValueView::String(_))) ==>
            error::reason_in(body) is None,
{
}

/// The text of a wire stream, one chunk after another.
pub open spec fn text_events(events: Seq<WireEventView>) -> Seq<char>
    decreases events.len(),
{
    if events.len() == 0 {
        Seq::empty()
    } else {
        match events.last() {
            WireEventView::Chunk(content) => text_events(events.drop_last()) + content,
            _ => text_events(events.drop_last()),
        }
    }
}

/// The reasoning of a wire stream, one chunk after another.
pub open spec fn reasoning_events(events: Seq<WireEventView>) -> Seq<char>
    decreases events.len(),
{
    if events.len() == 0 {
        Seq::empty()
    } else {
        match events.last() {
            WireEventView::ReasoningChunk(content) => reasoning_events(events.drop_last())
                + content,
            _ => reasoning_events(events.drop_last()),
        }
    }
}

proof fn silent_chunks(chunks: Seq<StreamChunkView>)
    requires
        forall|i: int|
            0 <= i < chunks.len() ==> #[trigger] chunks[i] !is TextDelta && chunks[i]
                !is ReasoningDelta,
    ensures
        assembler::text_of(chunks) == Seq::<char>::empty(),
        assembly_laws::reasoning_of(chunks) == Seq::<char>::empty(),
    decreases chunks.len(),
{
    if chunks.len() > 0 {
        assert(chunks[chunks.len() - 1] == chunks.last());
        let before = chunks.drop_last();
        assert forall|i: int| 0 <= i < before.len() implies #[trigger] before[i] !is TextDelta
            && before[i] !is ReasoningDelta by {
            assert(before[i] == chunks[i]);
        }
        silent_chunks(before);
    }
}

/// No text and no reasoning of a wire stream is lost or changed on its way
/// into the turn: the turn's text is the text chunks of the wire in order, and
/// its reasoning the reasoning chunks.
pub proof fn streamed_text_arrives(events: Seq<WireEventView>)
    ensures
        ({
            let chunks = stream_laws::fed(events).1;
            let content = assembler::finished_turn(assembler::assembled(chunks)).message.content;
            &&& assembler::text_of(chunks) == text_events(events)
            &&& assembly_laws::reasoning_of(chunks) == reasoning_events(events)
            &&& message::body_text(content) == text_events(events)
            &&& assembly_laws::reasonings_in(content) == assembly_laws::unless_empty(
                reasoning_events(events),
            )
        }),
{
    texts_are_fed(events);
    assembly_laws::turns_hold_what_streamed_in(stream_laws::fed(events).1);
}

proof fn texts_are_fed(events: Seq<WireEventView>)
    ensures
        assembler::text_of(stream_laws::fed(events).1) == text_events(events),
        assembly_laws::reasoning_of(stream_laws::fed(events).1) == reasoning_events(events),
    decreases events.len(),
{
    if events.len() > 0 {
        let before = events.drop_last();
        texts_are_fed(before);
        let (calls, chunks) = stream_laws::fed(before);
        let added = stream_map::mapped(calls, events.last()).1;
        let any = StreamChunkView::TextDelta(Seq::empty());
        assembly_laws::deltas_add_up(chunks, added, any);
        match events.last() {
            WireEventView::Chunk(content) => {
                assembly_laws::deltas_add_up(chunks, added, StreamChunkView::TextDelta(content));
            },
            WireEventView::ReasoningChunk(content) => {
                assembly_laws::deltas_add_up(
                    chunks,
                    added,
                    StreamChunkView::ReasoningDelta(content),
                );
            },
            _ => {
                silent_chunks(added);
            },
        }
        assert(assembler::text_of(stream_laws::fed(events).1) =~= text_events(events));
        assert(assembly_laws::reasoning_of(stream_laws::fed(events).1) =~= reasoning_events(
            events,
        ));
    }
}

/// The end of a wire stream reaches the turn: its usage in buckets and its stop
/// reason in the contract's terms are the turn's; an end without usage adds
/// none, and one without a reason is told as unspecified.
pub proof fn stream_ends_reach_the_turn(
    events: Seq<WireEventView>,
    usage: Option<WireUsageView>,
    stop_reason: Option<StopReasonView>,
)
    ensures
        ({
            let end = WireEventView::End { usage, stop_reason };
            let turn = assembler::finished_turn(
                assembler::assembled(stream_laws::fed(events.push(end)).1),
            );
            &&& usage matches Some(counted) ==> turn.usage == Some(
                crate::openai::map::bucketed(counted),
            )
            &&& turn.finish == (match stop_reason {
                Some(reason) => crate::openai::map::finish_of(reason),
                None => FinishReasonView::Other("unspecified"@),
            })
        }),
{
    let end = WireEventView::End { usage, stop_reason };
    let all = events.push(end);
    assert(all.drop_last() =~= events);
    let (calls, before) = stream_laws::fed(events);
    let added = stream_map::closing(calls.len(), usage, stop_reason);
    let chunks = stream_laws::fed(all).1;
    assert(chunks == before + added);
    let last = chunks.len() - 1;
    assert(chunks[last] == added[added.len() - 1]);
    assert(assembly_laws::last_done(chunks, last));
    assembly_laws::last_reports_stand(chunks, last);
    if usage is Some {
        let at = chunks.len() - 2;
        assert(chunks[at] == added[added.len() - 2]);
        assert(assembly_laws::last_usage(chunks, at));
        assembly_laws::last_reports_stand(chunks, at);
    }
}

/// Thought signatures are passed on under their own name; a stream's start
/// brings nothing.
pub proof fn signatures_are_passed_on(calls: Seq<OpenCallView>, signature: Seq<char>)
    ensures
        stream_map::mapped(calls, WireEventView::Start) == (
            calls,
            Seq::<StreamChunkView>::empty(),
        ),
        stream_map::mapped(calls, WireEventView::ThoughtSignatureChunk(signature)) == (
            calls,
            seq![
                StreamChunkView::OpaqueDelta(
                    ValueView::Object(seq![("thought_signature"@, json::quoted(signature))]),
                ),
            ],
        ),
{
}

/// A call fails exactly where the first item of its stream is a failure, with
/// that failure; else the stream begins with that item, or is empty.
pub proof fn first_items_decide_the_call(first: Option<Result<StreamChunkView, ModelErrorView>>)
    ensures
        match stream_map::opened(first) {
            Ok(Some(chunk)) => first == Some(Ok::<StreamChunkView, ModelErrorView>(chunk)),
            Ok(None) => first is None,
            Err(failure) => first == Some(Err::<StreamChunkView, ModelErrorView>(failure)),
        },
{
}

/// The key is what the environment holds; without it the complaint names the
/// variable.
pub proof fn keys_come_from_the_environment(variable: Seq<char>, key: Seq<char>)
    ensures
        dialect::key_or_complaint(variable, Some(key)) == Ok::<Seq<char>, ModelErrorView>(key),
        dialect::key_or_complaint(variable, None) == Err::<Seq<char>, ModelErrorView>(
            ModelErrorView::Auth("environment variable "@ + variable + " is not set"@),
        ),
{
}

/// Accumulated arguments that did not grow pass nothing on and are forgotten.
pub proof fn shrunken_arguments_pass_nothing_on(
    calls: Seq<OpenCallView>,
    at: int,
    name: Seq<char>,
    arguments: ValueView,
)
    requires
        0 <= at < calls.len(),
        forall|i: int| 0 <= i < at ==> (#[trigger] calls[i]).id != calls[at].id,
        crate::runtime::context::bytes_of(message::payload_text(arguments)).len()
            <= calls[at].sent,
    ensures
        stream_map::mapped(
            calls,
            WireEventView::ToolCallChunk {
                call_id: calls[at].id,
                fn_name: name,
                fn_arguments: arguments,
            },
        ) == (calls, Seq::<StreamChunkView>::empty()),
{
    known_call(calls, at);
}

proof fn known_call(calls: Seq<OpenCallView>, at: int)
    requires
        0 <= at < calls.len(),
        forall|i: int| 0 <= i < at ==> (#[trigger] calls[i]).id != calls[at].id,
    ensures
        stream_map::index_of_call(calls, calls[at].id) == at,
    decreases calls.len(),
{
    if at > 0 {
        let rest = calls.drop_first();
        assert(calls[0].id != calls[at].id);
        assert(rest[at - 1] == calls[at]);
        assert forall|i: int| 0 <= i < at - 1 implies (#[trigger] rest[i]).id
            != rest[at - 1].id by {
            assert(rest[i] == calls[i + 1]);
        }
        known_call(rest, at - 1);
    }
}

/// A body that is no JSON, or has nothing under `error`, gives no reason.
pub proof fn other_bodies_give_no_reason(body: Seq<char>, document: ValueView)
    ensures
        json::parsed(body) is Err ==> error::reason_in(body) is None,
        json::parsed(body) == Ok::<ValueView, Seq<char>>(document) && json::field_value(
            document,
            "error"@,
        ) is None ==> error::reason_in(body) is None,
{
}

/// What sets the vendors apart: DeepSeek alone has past reasoning echoed and
/// sends fields of its own, Kimi alone keeps temperatures in a range, and each
/// reads its key from its own variable. All map outputs, and all but DeepSeek
/// map reasoning, by what their models can do.
pub proof fn vendors_keep_their_ways(
    kimi: &crate::openai::dialects::kimi::KimiDialect,
    deepseek: &crate::openai::dialects::deepseek::DeepSeekDialect,
    custom: &crate::openai::dialects::custom::CustomDialect,
    relay: &crate::openai::dialects::relay_gpt::RelayGptDialect,
    reasoning: Reasoning,
    output: OutputModeView,
    temperature: u32,
)
    ensures
        deepseek.echoes() && !kimi.echoes() && !custom.echoes() && !relay.echoes(),
        kimi.vendor_fields(reasoning) is None,
        custom.vendor_fields(reasoning) is None,
        relay.vendor_fields(reasoning) is None,
        deepseek.vendor_fields(reasoning) is Some <==> reasoning is Effort,
        deepseek.clamped(temperature) == temperature,
        custom.clamped(temperature) == temperature,
        relay.clamped(temperature) == temperature,
        kimi.clamped(temperature) == temperature || kimi.clamped(temperature) == 0
            || kimi.clamped(temperature) == 0x3f80_0000,
        temperature <= 0x3f80_0000 ==> kimi.clamped(temperature) == temperature,
        kimi.effort(reasoning) == dialect::mapped_reasoning(kimi.abilities().reasoning, reasoning),
        custom.effort(reasoning) == dialect::mapped_reasoning(
            custom.abilities().reasoning,
            reasoning,
        ),
        relay.effort(reasoning) == dialect::mapped_reasoning(
            relay.abilities().reasoning,
            reasoning,
        ),
        kimi.format(output) == dialect::mapped_output(kimi.abilities().structured_output, output),
        deepseek.format(output) == dialect::mapped_output(
            deepseek.abilities().structured_output,
            output,
        ),
        custom.format(output) == dialect::mapped_output(
            custom.abilities().structured_output,
            output,
        ),
        relay.format(output) == dialect::mapped_output(relay.abilities().structured_output, output),
        kimi.key_variable() == "MOONSHOT_API_KEY"@,
        deepseek.key_variable() == "DEEPSEEK_API_KEY"@,
        custom.key_variable() == "CADMUS_CUSTOM_API_KEY"@,
        relay.key_variable() == "RELAY_GPT_API_KEY"@,
{
}

/// A base URL of one's own is kept, with a slash at its end where it has none.
pub proof fn custom_urls_are_kept(url: Seq<char>)
    ensures
        ({
            let kept = crate::openai::dialects::custom::slash_terminated(url);
            &&& url.is_prefix_of(kept)
            &&& kept.len() > 0 && kept.last() == '/'
            &&& url.len() > 0 && url.last() == '/' ==> kept == url
            &&& !(url.len() > 0 && url.last() == '/') ==> kept.len() == url.len() + 1
        }),
{
    let kept = crate::openai::dialects::custom::slash_terminated(url);
    assert(kept.subrange(0, url.len() as int) =~= url);
}

/// What a refused request is told: of all that the model lacks the first, in the
/// order tools, reasoning, output, parallel calls, cache breakpoints; the
/// dialect's own refusals name the dialect.
pub proof fn refusals_name_the_first_lack<D: Dialect>(dialect: &D, request: ChatRequestView)
    ensures
        ({
            let told = dialect::options(dialect, request);
            let caps = dialect.abilities();
            let no_tools = request.tools.len() > 0 && !caps.tools;
            let effort = dialect.effort(request.reasoning);
            let format = dialect.format(request.output);
            let no_parallel = request.parallel_tools is Some && caps.parallel_tools == Support::No;
            &&& no_tools ==> told->Err_0 == ModelErrorView::CapabilityMismatch(
                dialect.id_text() + " does not support tool calling"@,
            )
            &&& !no_tools && effort is Err ==> told->Err_0 == effort->Err_0
            &&& !no_tools && effort is Ok && format is Err ==> told->Err_0 == format->Err_0
            &&& !no_tools && effort is Ok && format is Ok && no_parallel ==> told->Err_0
                == ModelErrorView::CapabilityMismatch(
                dialect.id_text() + " does not support parallel tool calls"@,
            )
            &&& !no_tools && effort is Ok && format is Ok && !no_parallel && request.cache
                is Breakpoints ==> told->Err_0 == ModelErrorView::CapabilityMismatch(
                dialect.id_text() + " has no explicit cache breakpoints (cache mode: "@ + (
                match caps.prompt_cache {
                    CacheSupport::ExplicitBreakpoints => "ExplicitBreakpoints"@,
                    CacheSupport::Automatic => "Automatic"@,
                    CacheSupport::NamedObject => "NamedObject"@,
                    CacheSupport::DiskAuto => "DiskAuto"@,
                    CacheSupport::Absent => "None"@,
                }) + ")"@,
            )
        }),
{
}

/// What a reasoning or an output that the model lacks is told.
pub proof fn lacks_are_told(
    caps: Option<ReasoningCapsView>,
    level: EffortLevel,
    tokens: u32,
    support: SoSupport,
    schema: ValueView,
)
    ensures
        dialect::mapped_reasoning(caps, Reasoning::Off) matches Err(told) ==> told
            == ModelErrorView::CapabilityMismatch("reasoning cannot be turned off on this model"@),
        dialect::mapped_reasoning(caps, Reasoning::Budget(tokens)) matches Err(told) ==> told
            == ModelErrorView::CapabilityMismatch(
            "model does not support token-budget reasoning"@,
        ),
        dialect::mapped_reasoning(caps, Reasoning::Effort(level)) matches Err(told) ==> told
            == ModelErrorView::CapabilityMismatch(
            if caps is None {
                "model has no reasoning"@
            } else {
                "model declares no reasoning tiers"@
            },
        ),
        dialect::mapped_output(support, OutputModeView::Json) matches Err(told) ==> told
            == ModelErrorView::CapabilityMismatch("json mode unsupported (prompt-only vendor)"@),
        dialect::mapped_output(
            support,
            OutputModeView::Schema { schema, strict: false },
        ) matches Err(told) ==> told == ModelErrorView::CapabilityMismatch(
            "structured output unsupported (prompt-only vendor)"@,
        ),
        support != SoSupport::NativeStrict ==> dialect::mapped_output(
            support,
            OutputModeView::Schema { schema, strict: true },
        ) == Err::<Option<WireFormatView>, ModelErrorView>(
            ModelErrorView::CapabilityMismatch("native strict structured output unsupported"@),
        ),
{
}

} // verus!
