//! The OpenAI-compatible wire.
use cadmus::contract::testing::keeps_index_discipline;
use cadmus::json::{nesting_of, Value};
use cadmus::openai::dialect::{
    api_key, build_options, default_map_output, default_map_reasoning, map_closed, SchemaFault, WireEffort,
    WireFormat, WireOptions, WireToolChoice,
};
use cadmus::openai::error::{
    classify_http, classify_stream_error, classify_with, map_genai_error, provider_reason,
    StreamFault, WireError,
};
use cadmus::openai::map::{
    build_genai_request, map_stop_reason, map_usage, StopReason, WireMessage, WirePart, WireUsage,
};
use cadmus::openai::provider::prepare;
use cadmus::openai::stream_map::{open_stream, StreamMapper, WireEvent};
use cadmus::{
    dialect_by_name, dialect_names, CacheDirective, CacheSupport, Capabilities, ChatRequest,
    ContentPart, CustomDialect, DeepSeekDialect, Dialect, EffortLevel, FinishReason, KimiDialect,
    Message, MessageAssembler, ModelError, OutputMode, Reasoning, ReasoningCaps, RelayGptDialect,
    Role, Sampling, SoSupport, StreamChunk, Support, ToolCall, ToolChoice, ToolSpec, TurnOutcome,
    Usage,
};

fn json(text: &str) -> Value {
    Value::parse(text).expect("valid JSON")
}

fn tool_spec(name: &str) -> ToolSpec {
    ToolSpec {
        name: name.into(),
        description: format!("{name} tool"),
        parameters: json("{\"type\": \"object\"}"),
    }
}

// --- The registry.

#[test]
fn endpoints_are_slash_terminated_for_url_join() {
    let endpoints = vec![
        KimiDialect::k3().endpoint(),
        DeepSeekDialect::v4_flash().endpoint(),
        CustomDialect::new("gpt-5.2", "http://localhost:8080/v1").endpoint(),
    ];
    for base in endpoints {
        assert!(base.ends_with('/'), "endpoint `{base}` must end with `/`");
    }
}

#[test]
fn registry_resolves_every_builtin_name() {
    for name in ["kimi", "deepseek"] {
        assert!(dialect_by_name(name).is_some(), "missing dialect: {name}");
    }
    assert!(
        dialect_by_name("custom").is_none(),
        "custom takes coordinates"
    );
    assert!(dialect_by_name("bogus").is_none());
    assert_eq!(dialect_names(), &["kimi", "deepseek", "custom"]);
}

#[test]
fn registered_dialects_are_the_vendors() {
    let kimi = dialect_by_name("kimi").expect("registered");
    assert_eq!(kimi.id(), "kimi-k3");
    assert_eq!(kimi.model_name(), "kimi-k3");
    assert_eq!(kimi.endpoint(), "https://api.moonshot.cn/v1/");
    assert_eq!(kimi.api_key_env(), "MOONSHOT_API_KEY");
    assert!(!kimi.echo_reasoning());
    assert_eq!(kimi.capabilities().max_context, 1_000_000);
    let deepseek = dialect_by_name("deepseek").expect("registered");
    assert_eq!(deepseek.id(), "deepseek-v4-flash");
    assert_eq!(deepseek.endpoint(), "https://api.deepseek.com/");
    assert_eq!(deepseek.api_key_env(), "DEEPSEEK_API_KEY");
    assert!(deepseek.echo_reasoning());
    assert_eq!(deepseek.capabilities().opaque_echo, ["reasoning_content"]);
}

#[test]
fn custom_and_relayed_endpoints_keep_their_coordinates() {
    let custom = CustomDialect::new("gpt-5.2", "http://h/v1/");
    assert_eq!(custom.endpoint(), "http://h/v1/");
    assert_eq!(CustomDialect::new("m", "").endpoint(), "/");
    assert_eq!(custom.id(), "gpt-5.2");
    assert_eq!(custom.api_key_env(), "CADMUS_CUSTOM_API_KEY");
    assert_eq!(custom.capabilities().max_output, 16_000);
    let relay = RelayGptDialect::new("gpt", "http://relay/v1");
    assert_eq!(relay.endpoint(), "http://relay/v1");
    assert_eq!(relay.api_key_env(), "RELAY_GPT_API_KEY");
    let less = relay.with_capabilities(no_tools());
    assert_eq!(less.capabilities(), no_tools());
    assert_eq!(less.model_name(), "gpt");
}

// --- Dialects.

fn no_tools() -> Capabilities {
    Capabilities {
        tools: false,
        parallel_tools: Support::No,
        structured_output: SoSupport::PromptOnly,
        reasoning: None,
        prompt_cache: CacheSupport::Absent,
        logprobs: false,
        max_context: 8_000,
        max_output: 1_000,
        opaque_echo: vec![],
    }
}

fn reasoning(efforts: Vec<EffortLevel>) -> Capabilities {
    Capabilities {
        reasoning: Some(ReasoningCaps {
            off_capable: false,
            efforts,
            budget_capable: false,
            always_on: true,
        }),
        ..no_tools()
    }
}

fn mismatch(message: &str) -> ModelError {
    ModelError::CapabilityMismatch(message.into())
}

#[test]
fn tiers_clamp_to_the_nearest_and_lower_on_ties() {
    let kimi = KimiDialect::k3();
    for (level, effort) in [
        (EffortLevel::Low, WireEffort::Low),
        (EffortLevel::Medium, WireEffort::Low),
        (EffortLevel::High, WireEffort::High),
        (EffortLevel::Max, WireEffort::Max),
    ] {
        assert_eq!(
            kimi.map_reasoning(&Reasoning::Effort(level)),
            Ok(Some(effort))
        );
    }
    let top = reasoning(vec![EffortLevel::Max, EffortLevel::High]);
    assert_eq!(
        default_map_reasoning(&top, &Reasoning::Effort(EffortLevel::Low)),
        Ok(Some(WireEffort::High))
    );
}

#[test]
fn reasoning_that_a_model_lacks_is_refused() {
    let kimi = KimiDialect::k3();
    assert_eq!(kimi.map_reasoning(&Reasoning::Adaptive), Ok(None));
    assert_eq!(
        kimi.map_reasoning(&Reasoning::Off),
        Err(mismatch("reasoning cannot be turned off on this model"))
    );
    assert_eq!(
        kimi.map_reasoning(&Reasoning::Budget(9)),
        Err(mismatch("model does not support token-budget reasoning"))
    );
    assert_eq!(
        default_map_reasoning(&no_tools(), &Reasoning::Effort(EffortLevel::Low)),
        Err(mismatch("model has no reasoning"))
    );
    assert_eq!(
        default_map_reasoning(&reasoning(vec![]), &Reasoning::Effort(EffortLevel::Low)),
        Err(mismatch("model declares no reasoning tiers"))
    );
    let custom = CustomDialect::new("m", "u");
    assert_eq!(
        custom.map_reasoning(&Reasoning::Off),
        Ok(Some(WireEffort::Zero))
    );
    let mut caps = reasoning(vec![]);
    caps.reasoning = Some(ReasoningCaps {
        off_capable: false,
        efforts: vec![],
        budget_capable: true,
        always_on: false,
    });
    assert_eq!(
        default_map_reasoning(&caps, &Reasoning::Budget(9)),
        Ok(Some(WireEffort::Budget(9)))
    );
}

#[test]
fn deepseek_thinks_only_where_asked() {
    let deepseek = DeepSeekDialect::v4_flash();
    assert_eq!(deepseek.map_reasoning(&Reasoning::Off), Ok(None));
    assert_eq!(deepseek.map_reasoning(&Reasoning::Adaptive), Ok(None));
    assert_eq!(
        deepseek.map_reasoning(&Reasoning::Effort(EffortLevel::Low)),
        Ok(Some(WireEffort::Low))
    );
    for level in [EffortLevel::Medium, EffortLevel::High, EffortLevel::Max] {
        assert_eq!(
            deepseek.map_reasoning(&Reasoning::Effort(level)),
            Ok(Some(WireEffort::High))
        );
    }
    assert_eq!(
        deepseek.map_reasoning(&Reasoning::Budget(1)),
        Err(mismatch("deepseek does not support token-budget reasoning"))
    );
    assert_eq!(
        deepseek.extra_body(&Reasoning::Effort(EffortLevel::Low)),
        Some(vec![(
            "thinking".to_string(),
            "{\"type\":\"enabled\"}".to_string()
        )])
    );
    assert_eq!(deepseek.extra_body(&Reasoning::Off), None);
}

#[test]
fn kimi_clamps_the_temperature_into_its_range() {
    let kimi = KimiDialect::k3();
    for value in [
        -1.5_f32,
        -0.0,
        0.0,
        f32::MIN_POSITIVE,
        0.5,
        1.0,
        1.000_000_1,
        2.0,
        f32::INFINITY,
        f32::NEG_INFINITY,
        f32::MAX,
        f32::MIN,
    ] {
        let clamped = kimi.clamp_temperature(value.to_bits());
        assert_eq!(clamped, value.clamp(0.0, 1.0).to_bits(), "{value}");
    }
    assert!(f32::from_bits(kimi.clamp_temperature(f32::NAN.to_bits())).is_nan());
    let custom = CustomDialect::new("m", "u");
    assert_eq!(
        custom.clamp_temperature(2.0_f32.to_bits()),
        2.0_f32.to_bits()
    );
}

fn with_output(support: SoSupport) -> Capabilities {
    Capabilities {
        structured_output: support,
        ..no_tools()
    }
}

#[test]
fn structured_output_walks_the_ladder() {
    let schema = json("{\"type\": \"object\", \"properties\": {\"a\": {\"type\": \"object\"}}}");
    let loose = OutputMode::Schema {
        schema: schema.clone(),
        strict: false,
    };
    let strict = OutputMode::Schema {
        schema: schema.clone(),
        strict: true,
    };
    let named = |schema: Value| {
        Ok(Some(WireFormat::JsonSpec {
            name: "response".into(),
            schema,
        }))
    };
    let native = with_output(SoSupport::NativeStrict);
    assert_eq!(default_map_output(&native, &OutputMode::Text), Ok(None));
    assert_eq!(
        default_map_output(&native, &OutputMode::Json),
        Ok(Some(WireFormat::JsonMode))
    );
    assert_eq!(default_map_output(&native, &loose), named(schema.clone()));
    // Every object node is closed.
    assert_eq!(
        default_map_output(&native, &strict),
        named(json(
            "{\"type\": \"object\", \"additionalProperties\": false, \"properties\": \
             {\"a\": {\"type\": \"object\", \"additionalProperties\": false}}}"
        ))
    );
    let native_loose = with_output(SoSupport::NativeLoose);
    assert_eq!(default_map_output(&native_loose, &loose), named(schema));
    assert_eq!(
        default_map_output(&native_loose, &strict),
        Err(mismatch("native strict structured output unsupported"))
    );
    let json_mode = with_output(SoSupport::JsonMode);
    assert_eq!(
        default_map_output(&json_mode, &loose),
        Ok(Some(WireFormat::JsonMode))
    );
    let prompt_only = with_output(SoSupport::PromptOnly);
    assert_eq!(
        default_map_output(&prompt_only, &OutputMode::Json),
        Err(mismatch("json mode unsupported (prompt-only vendor)"))
    );
    assert_eq!(
        default_map_output(&prompt_only, &loose),
        Err(mismatch("structured output unsupported (prompt-only vendor)"))
    );
}

#[test]
fn a_closed_schema_is_sent_as_it_was_closed() {
    assert_eq!(
        map_closed(Ok(json("[7]"))),
        Ok(Some(WireFormat::JsonSpec {
            name: "response".into(),
            schema: json("[7]"),
        }))
    );
    assert_eq!(
        map_closed(Err(SchemaFault::NotJson)),
        Err(ModelError::InvalidRequest(
            "response schema is not JSON".into()
        ))
    );
    assert_eq!(
        map_closed(Err(SchemaFault::TooDeep)),
        Err(ModelError::InvalidRequest(
            "response schema nests too deeply".into()
        ))
    );
}

/// An object schema with `levels` objects inside each other below it.
fn nested_schema(levels: usize) -> Value {
    let mut inner = "{\"type\":\"object\"}".to_owned();
    for _ in 1..levels {
        inner = format!("{{\"properties\":{{\"p\":{inner}}},\"type\":\"object\"}}");
    }
    Value::Object(vec![
        ("properties".into(), format!("{{\"p\":{inner}}}")),
        ("type".into(), "\"object\"".into()),
    ])
}

#[test]
fn a_strict_schema_is_closed_up_to_the_nesting_bound() {
    let native = CustomDialect::new("m", "http://localhost/").capabilities();
    let strict = |schema: Value| OutputMode::Schema {
        schema,
        strict: true,
    };
    let deep = nested_schema(255);
    assert_eq!(nesting_of(&deep.render()), 511);
    let Ok(Some(WireFormat::JsonSpec { schema, .. })) = default_map_output(&native, &strict(deep))
    else {
        panic!("within the bound");
    };
    let closed = schema
        .render()
        .matches("\"additionalProperties\":false")
        .count();
    assert_eq!(closed, 256);

    assert_eq!(
        default_map_output(&native, &strict(nested_schema(256))),
        Err(ModelError::InvalidRequest(
            "response schema nests too deeply".into()
        ))
    );
    let endless = Value::Array(vec!["[".repeat(100_000)]);
    assert_eq!(
        default_map_output(&native, &strict(endless.clone())),
        Err(ModelError::InvalidRequest(
            "response schema nests too deeply".into()
        ))
    );
    let open = Value::Array(vec!["[".into()]);
    assert_eq!(
        default_map_output(&native, &strict(open)),
        Err(ModelError::InvalidRequest(
            "response schema is not JSON".into()
        ))
    );
    // A loose schema goes out as it is, and JSON mode does not look at it.
    let loose = OutputMode::Schema {
        schema: endless.clone(),
        strict: false,
    };
    assert_eq!(
        default_map_output(&native, &loose),
        Ok(Some(WireFormat::JsonSpec {
            name: "response".into(),
            schema: endless,
        }))
    );
    let json_mode = KimiDialect::k3().capabilities();
    assert_eq!(
        default_map_output(&json_mode, &loose),
        Ok(Some(WireFormat::JsonMode))
    );
}

#[test]
fn brackets_inside_strings_do_not_nest() {
    assert_eq!(nesting_of(""), 0);
    assert_eq!(nesting_of("[[],{}]"), 2);
    assert_eq!(nesting_of("{\"a[\":\"\\\"[[[\",\"b\":[1]}"), 2);
    assert_eq!(nesting_of("]]][["), 2);
}

fn plain() -> ChatRequest {
    ChatRequest::user_text("hi", 1_024)
}

fn plain_options() -> WireOptions {
    WireOptions {
        capture_usage: true,
        capture_tool_calls: true,
        max_tokens: 1_024,
        temperature: None,
        top_p: None,
        seed: None,
        tool_choice: None,
        reasoning_effort: None,
        response_format: None,
        extra_body: None,
    }
}

#[test]
fn options_carry_what_the_request_asks_for() {
    let custom = CustomDialect::new("m", "u");
    assert_eq!(build_options(&custom, &plain()), Ok(plain_options()));
    let request = ChatRequest {
        tools: vec![tool_spec("t")],
        tool_choice: ToolChoice::Named("t".into()),
        reasoning: Reasoning::Effort(EffortLevel::High),
        output: OutputMode::Json,
        sampling: Sampling {
            temperature: Some(0.5_f32.to_bits()),
            top_p: Some(0.25_f32.to_bits()),
            seed: Some(7),
        },
        cache: CacheDirective::Auto,
        ..plain()
    };
    assert_eq!(
        build_options(&custom, &request),
        Ok(WireOptions {
            temperature: Some(0.5_f32.to_bits()),
            top_p: Some(0.25_f32.to_bits()),
            seed: Some(7),
            tool_choice: Some(WireToolChoice::Tool { name: "t".into() }),
            reasoning_effort: Some(WireEffort::High),
            response_format: Some(WireFormat::JsonMode),
            ..plain_options()
        })
    );
}

#[test]
fn vendor_fields_are_merged_and_never_swallowed() {
    let deepseek = DeepSeekDialect::v4_flash();
    let request = ChatRequest {
        parallel_tools: Some(false),
        reasoning: Reasoning::Effort(EffortLevel::Low),
        extra: json("{\"top_k\": 5, \"parallel_tool_calls\": true}"),
        ..plain()
    };
    let field = |key: &str, value: &str| (key.to_string(), value.to_string());
    assert_eq!(
        build_options(&deepseek, &request).expect("supported").extra_body,
        Some(vec![
            field("parallel_tool_calls", "true"),
            field("thinking", "{\"type\":\"enabled\"}"),
            field("top_k", "5"),
        ])
    );
    let flag_only = ChatRequest {
        parallel_tools: Some(false),
        extra: json("{}"),
        ..plain()
    };
    assert_eq!(
        build_options(&deepseek, &flag_only).expect("supported").extra_body,
        Some(vec![field("parallel_tool_calls", "false")])
    );
}

#[test]
fn what_a_model_lacks_is_refused_before_the_wire() {
    let less = CustomDialect::new("tiny", "u").with_capabilities(no_tools());
    let refusal = |request: ChatRequest| match prepare(&less, &request) {
        Err(error) => error,
        Ok(_) => panic!("the request must be refused"),
    };
    assert_eq!(
        refusal(ChatRequest {
            tools: vec![tool_spec("t")],
            ..plain()
        }),
        mismatch("tiny does not support tool calling")
    );
    assert_eq!(
        refusal(ChatRequest {
            parallel_tools: Some(true),
            ..plain()
        }),
        mismatch("tiny does not support parallel tool calls")
    );
    assert_eq!(
        refusal(ChatRequest {
            cache: CacheDirective::Breakpoints(vec![0]),
            ..plain()
        }),
        mismatch("tiny has no explicit cache breakpoints (cache mode: None)")
    );
    let (wire, options) = prepare(&less, &plain()).expect("nothing special");
    assert_eq!(wire.messages, vec![WireMessage::User("hi".into())]);
    assert_eq!(options, plain_options());
}

#[test]
fn a_missing_key_names_its_variable() {
    let kimi = KimiDialect::k3();
    assert_eq!(api_key(&kimi, Some("k".into())), Ok("k".into()));
    assert_eq!(
        api_key(&kimi, None),
        Err(ModelError::Auth(
            "environment variable MOONSHOT_API_KEY is not set".into()
        ))
    );
}

// --- Errors.

#[test]
fn classifies_http_statuses() {
    assert!(matches!(
        classify_http(429, "slow down"),
        ModelError::RateLimited { retry_after: None }
    ));
    assert!(matches!(classify_http(401, "bad key"), ModelError::Auth(_)));
    assert!(matches!(
        classify_http(500, "boom"),
        ModelError::Server {
            status: 500,
            retriable: true,
            ..
        }
    ));
    assert!(matches!(
        classify_http(400, "maximum context length exceeded"),
        ModelError::ContextLength
    ));
    assert!(matches!(
        classify_http(400, "bad json"),
        ModelError::InvalidRequest(_)
    ));
}

#[test]
fn server_errors_carry_the_providers_reason() {
    // The OpenAI-compatible error shape: the message field wins.
    let body = r#"{"error":{"message":"Service is too busy.","type":"service_unavailable_error"}}"#;
    let ModelError::Server { detail, .. } = classify_http(503, body) else {
        panic!("a 503 classifies as Server")
    };
    assert_eq!(detail.as_deref(), Some("Service is too busy."));
    assert_eq!(
        classify_http(503, body).to_text(),
        "provider server error (HTTP 503): Service is too busy."
    );
    // A gateway's HTML error page degrades to the bounded raw excerpt.
    let ModelError::Server { detail, .. } = classify_http(502, "<html>Bad Gateway</html>") else {
        panic!("a 502 classifies as Server")
    };
    assert_eq!(detail.as_deref(), Some("<html>Bad Gateway</html>"));
    // An empty body leaves the status line to speak for itself.
    let ModelError::Server { detail, .. } = classify_http(500, "") else {
        panic!("a 500 classifies as Server")
    };
    assert_eq!(detail, None);
    assert_eq!(
        classify_http(500, "").to_text(),
        "provider server error (HTTP 500)"
    );
}

#[test]
fn every_status_has_its_class() {
    for status in [408, 409, 425, 429] {
        assert_eq!(
            classify_with(status, "x", None),
            ModelError::RateLimited { retry_after: None }
        );
    }
    assert_eq!(
        classify_with(403, "x", Some("r")),
        ModelError::Auth("x".into())
    );
    assert_eq!(classify_with(413, "x", None), ModelError::ContextLength);
    assert_eq!(
        classify_with(400, "context_length_exceeded", None),
        ModelError::ContextLength
    );
    assert_eq!(
        classify_with(404, " \n", Some("r")),
        ModelError::Server {
            status: 404,
            retriable: false,
            detail: None
        }
    );
    assert_eq!(
        classify_with(418, "body", Some("r")),
        ModelError::Server {
            status: 418,
            retriable: false,
            detail: Some("r".into())
        }
    );
}

#[test]
fn excerpts_are_bounded_in_characters() {
    let long = "é".repeat(600);
    assert_eq!(
        classify_http(400, &long),
        ModelError::InvalidRequest("é".repeat(500))
    );
}

#[test]
fn only_a_string_is_the_providers_reason() {
    assert_eq!(provider_reason("{\"error\": {\"message\": 1}}"), None);
    assert_eq!(provider_reason("{\"error\": \"flat\"}"), None);
    assert_eq!(provider_reason("[]"), None);
    assert_eq!(
        provider_reason("{\"error\": {\"message\": \"m\"}}").as_deref(),
        Some("m")
    );
}

#[test]
fn stream_errors_are_recognized_by_their_words() {
    assert_eq!(
        classify_stream_error(&json("{\"type\": \"rate_limit_exceeded\"}")),
        ModelError::RateLimited { retry_after: None }
    );
    assert_eq!(
        classify_stream_error(&json("{\"code\": \"insufficient_quota\"}")),
        ModelError::RateLimited { retry_after: None }
    );
    assert_eq!(
        classify_stream_error(&json("{\"b\": 1, \"a\": 2}")),
        ModelError::Protocol("{\"a\":2,\"b\":1}".into())
    );
}

#[test]
fn transport_failures_are_classified() {
    assert_eq!(
        map_genai_error(WireError::Http {
            status: 429,
            body: "".into()
        }),
        ModelError::RateLimited { retry_after: None }
    );
    assert_eq!(
        map_genai_error(WireError::Call("dns".into())),
        ModelError::Network("dns".into())
    );
    // An HTTP error inside a broken stream is recovered.
    assert_eq!(
        map_genai_error(WireError::Stream {
            fault: Some(StreamFault::Http {
                status: 401,
                body: "key".into()
            }),
            cause: "c".into(),
        }),
        ModelError::Auth("key".into())
    );
    assert_eq!(
        map_genai_error(WireError::Stream {
            fault: Some(StreamFault::Other("o".into())),
            cause: "c".into(),
        }),
        ModelError::Network("o".into())
    );
    assert_eq!(
        map_genai_error(WireError::Stream {
            fault: None,
            cause: "c".into(),
        }),
        ModelError::Network("c".into())
    );
    assert_eq!(
        map_genai_error(WireError::StreamParse("p".into())),
        ModelError::Protocol("p".into())
    );
    assert_eq!(
        map_genai_error(WireError::Credentials("k".into())),
        ModelError::Auth("k".into())
    );
    assert_eq!(
        map_genai_error(WireError::ErrorEvent(json("{\"x\": 1}"))),
        ModelError::Protocol("{\"x\":1}".into())
    );
    assert_eq!(
        map_genai_error(WireError::Other("?".into())),
        ModelError::InvalidRequest("?".into())
    );
}

// --- Requests.

#[test]
fn hoists_leading_system_messages() {
    let request = ChatRequest::user_text("hi", 100).with_messages(vec![
        Message::system("you are terse"),
        Message::system("answer in json"),
        Message::user("hi"),
    ]);
    let wire = build_genai_request(&request, false).expect("map");
    assert_eq!(
        wire.system.as_deref(),
        Some("you are terse\n\nanswer in json")
    );
    assert_eq!(wire.messages.len(), 1);
}

#[test]
fn strips_reasoning_without_echo_obligation() {
    let assistant = Message {
        role: Role::Assistant,
        content: vec![
            ContentPart::Reasoning { text: "hmm".into() },
            ContentPart::Text {
                text: "answer".into(),
            },
        ],
        tool_call_id: None,
        is_error: false,
        opaque: None,
    };
    let request = ChatRequest::user_text("q", 100).with_messages(vec![assistant]);
    let stripped = build_genai_request(&request, false).expect("map");
    let WireMessage::Assistant(stripped_parts) = &stripped.messages[0] else {
        panic!("an assistant message")
    };
    assert_eq!(stripped_parts.len(), 1);
    assert!(matches!(&stripped_parts[0], WirePart::Text(text) if text == "answer"));

    let echoed = build_genai_request(&request, true).expect("map");
    let WireMessage::Assistant(parts) = &echoed.messages[0] else {
        panic!("an assistant message")
    };
    assert_eq!(parts.len(), 2);
    assert!(matches!(&parts[0], WirePart::ReasoningContent(text) if text == "hmm"));
}

fn call_message(call: ToolCall) -> Message {
    Message {
        role: Role::Assistant,
        content: vec![ContentPart::ToolCall { call }],
        tool_call_id: None,
        is_error: false,
        opaque: None,
    }
}

#[test]
fn maps_tool_calls_and_tool_results() {
    let history = vec![
        call_message(ToolCall {
            id: "c1".into(),
            name: "read_file".into(),
            arguments: json("{\"path\": \"/a\"}"),
        }),
        Message::tool_result("c1", Value::string("contents")),
    ];
    let request = ChatRequest::user_text("q", 100).with_messages(history);
    let wire = build_genai_request(&request, false).expect("map");
    let WireMessage::Assistant(parts0) = &wire.messages[0] else {
        panic!("an assistant message")
    };
    assert!(
        matches!(&parts0[0], WirePart::ToolCall { call_id, fn_name, .. } if call_id == "c1" && fn_name == "read_file")
    );
    assert!(
        matches!(&wire.messages[1], WireMessage::ToolResponse { call_id, content } if call_id == "c1" && content == "contents")
    );
}

#[test]
fn later_system_messages_stay_in_place() {
    let mut joined = Message::user("one");
    joined.content.push(ContentPart::Text { text: "two".into() });
    let request = ChatRequest {
        tools: vec![tool_spec("t")],
        ..plain().with_messages(vec![joined, Message::system("late")])
    };
    let wire = build_genai_request(&request, false).expect("map");
    assert_eq!(wire.system, None);
    assert_eq!(
        wire.messages,
        vec![
            WireMessage::User("one\ntwo".into()),
            WireMessage::System("late".into())
        ]
    );
    let tools = wire.tools.expect("one tool");
    assert_eq!(tools[0].name, "t");
    assert_eq!(tools[0].description, "t tool");
    assert_eq!(tools[0].schema, json("{\"type\": \"object\"}"));
}

#[test]
fn messages_that_cannot_be_sent_are_refused() {
    let mut orphan = Message::tool_result("c", Value::string("x"));
    orphan.tool_call_id = None;
    let image = Message {
        content: vec![ContentPart::Image { bytes: vec![1] }],
        ..Message::text(Role::Assistant, "")
    };
    let request = plain().with_messages(vec![orphan, image.clone()]);
    assert_eq!(
        build_genai_request(&request, false).err(),
        Some(ModelError::InvalidRequest(
            "tool message is missing its tool_call_id".into()
        ))
    );
    assert_eq!(
        build_genai_request(&plain().with_messages(vec![image]), false).err(),
        Some(mismatch(
            "image parts are not wired for OpenAI-compatible dialects"
        ))
    );
}

fn wire_usage() -> WireUsage {
    WireUsage {
        prompt_tokens: None,
        cached_tokens: None,
        cache_creation_tokens: None,
        completion_tokens: None,
        reasoning_tokens: None,
        raw: json("{}"),
    }
}

#[test]
fn normalizes_three_bucket_usage() {
    let usage = map_usage(&WireUsage {
        prompt_tokens: Some(1_000),
        cached_tokens: Some(400),
        cache_creation_tokens: Some(150),
        completion_tokens: Some(200),
        reasoning_tokens: Some(50),
        raw: json("{\"total_tokens\": 1200}"),
    });
    assert_eq!(usage.input, 600);
    assert_eq!(usage.cache_read, 400);
    assert_eq!(usage.cache_write, 150);
    assert_eq!(usage.output, 200);
    assert_eq!(usage.reasoning, 50);
    assert!(matches!(usage.raw, Value::Object(_)));
}

#[test]
fn odd_counters_count_nothing() {
    let usage = map_usage(&WireUsage {
        prompt_tokens: Some(10),
        cached_tokens: Some(20),
        completion_tokens: Some(-5),
        ..wire_usage()
    });
    assert_eq!((usage.input, usage.cache_read, usage.output), (0, 20, 0));
}

#[test]
fn stop_reasons_are_normalized() {
    assert_eq!(
        map_stop_reason(&StopReason::Completed("stop".into())),
        FinishReason::Stop
    );
    assert_eq!(
        map_stop_reason(&StopReason::StopSequence("x".into())),
        FinishReason::Stop
    );
    assert_eq!(
        map_stop_reason(&StopReason::ToolCall("x".into())),
        FinishReason::ToolCalls
    );
    assert_eq!(
        map_stop_reason(&StopReason::ContentFilter("x".into())),
        FinishReason::ContentFilter
    );
    assert_eq!(
        map_stop_reason(&StopReason::Other("odd".into())),
        FinishReason::Other("odd".into())
    );
}

// --- Streams.

fn chunk_event(id: &str, name: &str, args: &str) -> WireEvent {
    WireEvent::ToolCallChunk {
        call_id: id.into(),
        fn_name: name.into(),
        fn_arguments: Value::string(args),
    }
}

fn end() -> WireEvent {
    WireEvent::End {
        usage: None,
        stop_reason: None,
    }
}

fn map_all(events: Vec<WireEvent>) -> Vec<StreamChunk> {
    let mut mapper = StreamMapper::default();
    let mut chunks = Vec::new();
    for event in events {
        assert!(mapper.accepts(&event));
        chunks.extend(mapper.map_event(event));
    }
    chunks
}

fn start(index: u32, id: &str, name: &str) -> StreamChunk {
    StreamChunk::ToolCallStart {
        index,
        id: id.into(),
        name: name.into(),
    }
}

fn args(index: u32, fragment: &str) -> StreamChunk {
    StreamChunk::ToolArgsDelta {
        index,
        fragment: fragment.into(),
    }
}

fn unspecified() -> StreamChunk {
    StreamChunk::Done {
        finish: FinishReason::Other("unspecified".into()),
    }
}

#[test]
fn maps_interleaved_accumulated_tool_calls() {
    let chunks = map_all(vec![
        chunk_event("call_a", "read_file", "{\"path\":\"/a"),
        chunk_event("call_b", "grep", "{\"pattern\":\"fn"),
        chunk_event("call_a", "read_file", "{\"path\":\"/a\"}"),
        chunk_event("call_b", "grep", "{\"pattern\":\"fn main\"}"),
        end(),
    ]);
    assert_eq!(
        chunks,
        vec![
            start(0, "call_a", "read_file"),
            args(0, "{\"path\":\"/a"),
            start(1, "call_b", "grep"),
            args(1, "{\"pattern\":\"fn"),
            args(0, "\"}"),
            args(1, " main\"}"),
            StreamChunk::ToolCallEnd { index: 0 },
            StreamChunk::ToolCallEnd { index: 1 },
            unspecified(),
        ]
    );
}

#[test]
fn maps_one_shot_tool_call() {
    let chunks = map_all(vec![chunk_event("call_0", "noop", "{\"x\":1}"), end()]);
    assert_eq!(
        chunks,
        vec![
            start(0, "call_0", "noop"),
            args(0, "{\"x\":1}"),
            StreamChunk::ToolCallEnd { index: 0 },
            unspecified(),
        ]
    );
}

#[test]
fn maps_usage_and_stop_reason_at_end() {
    let chunks = map_all(vec![WireEvent::End {
        usage: Some(WireUsage {
            prompt_tokens: Some(10),
            completion_tokens: Some(4),
            ..wire_usage()
        }),
        stop_reason: Some(StopReason::MaxTokens("length".into())),
    }]);
    assert_eq!(chunks.len(), 2);
    assert!(matches!(
        &chunks[0],
        StreamChunk::Usage(Usage {
            input: 10,
            output: 4,
            ..
        })
    ));
    assert_eq!(
        chunks[1],
        StreamChunk::Done {
            finish: FinishReason::Length
        }
    );
}

#[test]
fn maps_text_reasoning_and_thought_signature() {
    let mut mapper = StreamMapper::default();
    assert_eq!(
        mapper.map_event(WireEvent::Chunk("hi".into())),
        vec![StreamChunk::TextDelta("hi".into())]
    );
    assert_eq!(
        mapper.map_event(WireEvent::ReasoningChunk("hmm".into())),
        vec![StreamChunk::ReasoningDelta("hmm".into())]
    );
    assert_eq!(
        mapper.map_event(WireEvent::ThoughtSignatureChunk("sig".into())),
        vec![StreamChunk::OpaqueDelta(json(
            "{\"thought_signature\": \"sig\"}"
        ))]
    );
    assert!(mapper.map_event(WireEvent::Start).is_empty());
}

#[test]
fn arguments_that_do_not_grow_add_nothing() {
    let chunks = map_all(vec![
        chunk_event("c", "n", "{\"é"),
        chunk_event("c", "n", "{\"é"),
        chunk_event("c", "n", "{"),
        chunk_event("c", "n", "{\"é\"}"),
        WireEvent::ToolCallChunk {
            call_id: "d".into(),
            fn_name: "m".into(),
            fn_arguments: json("{\"x\": 1}"),
        },
    ]);
    assert_eq!(
        chunks,
        vec![
            start(0, "c", "n"),
            args(0, "{\"é"),
            args(0, "\"}"),
            start(1, "d", "m"),
            args(1, "{\"x\":1}"),
        ]
    );
}

#[test]
fn a_cut_inside_a_character_is_not_accepted() {
    let mut mapper = StreamMapper::default();
    mapper.map_event(chunk_event("c", "n", "a"));
    assert!(!mapper.accepts(&chunk_event("c", "n", "é!")));
    assert!(mapper.accepts(&chunk_event("c", "n", "b!")));
}

#[test]
fn mapped_streams_assemble_to_what_the_wire_accumulated() {
    let chunks = map_all(vec![
        WireEvent::Start,
        WireEvent::Chunk("look".into()),
        chunk_event("call_a", "read_file", "{\"pa"),
        chunk_event("call_b", "grep", "{\"pattern\":\"TODO\"}"),
        chunk_event("call_a", "read_file", "{\"path\":\"/a\"}"),
        WireEvent::End {
            usage: None,
            stop_reason: Some(StopReason::ToolCall("tool_calls".into())),
        },
    ]);
    assert!(keeps_index_discipline(&chunks));
    let mut assembler = MessageAssembler::new();
    for chunk in chunks {
        assembler.push(chunk);
    }
    let turn = assembler.complete();
    assert_eq!(turn.outcome, TurnOutcome::Content);
    assert_eq!(turn.finish, FinishReason::ToolCalls);
    assert!(turn.warnings.is_empty());
    let calls = turn.message.tool_calls();
    assert_eq!(calls.len(), 2);
    assert_eq!(calls[0].arguments, json("{\"path\": \"/a\"}"));
    assert_eq!(calls[1].arguments, json("{\"pattern\": \"TODO\"}"));
}

#[test]
fn the_first_item_decides_the_call() {
    let chunk = StreamChunk::TextDelta("x".into());
    assert_eq!(
        open_stream(Some(Ok(chunk.clone()))),
        Ok(Some(chunk))
    );
    assert_eq!(
        open_stream(Some(Err(ModelError::ContextLength))),
        Err(ModelError::ContextLength)
    );
    assert_eq!(open_stream(None), Ok(None));
}
