//! Messages as JSON: what a request weighs on the wire.
use crate::contract::message::{
    ContentPart, ContentPartView, Message, MessageView, Role, ToolCall, ToolCallView,
};
use crate::json;
use crate::runtime::context;
use crate::text;
use vstd::prelude::*;

verus! {

/// A role on the wire.
pub open spec fn role_text(role: Role) -> Seq<char> {
    match role {
        Role::System => "system"@,
        Role::User => "user"@,
        Role::Assistant => "assistant"@,
        Role::Tool => "tool"@,
    }
}

/// A tool call as JSON.
pub open spec fn call_json(call: ToolCallView) -> Seq<char> {
    json::object_text(
        seq![
            ("id"@, json::quoted(call.id)),
            ("name"@, json::quoted(call.name)),
            ("arguments"@, json::rendered(call.arguments)),
        ],
    )
}

/// A byte as JSON.
pub open spec fn byte_json(byte: u8) -> Seq<char> {
    text::decimal(byte as nat)
}

/// A message part as JSON, its kind first.
pub open spec fn part_json(part: ContentPartView) -> Seq<char> {
    match part {
        ContentPartView::Text { text } => json::object_text(
            seq![("type"@, json::quoted("text"@)), ("text"@, json::quoted(text))],
        ),
        ContentPartView::Reasoning { text } => json::object_text(
            seq![("type"@, json::quoted("reasoning"@)), ("text"@, json::quoted(text))],
        ),
        ContentPartView::ToolCall { call } => json::object_text(
            seq![("type"@, json::quoted("tool_call"@)), ("call"@, call_json(call))],
        ),
        ContentPartView::Image { bytes } => json::object_text(
            seq![
                ("type"@, json::quoted("image"@)),
                ("bytes"@, list_json(bytes.map_values(|b: u8| byte_json(b)))),
            ],
        ),
    }
}

/// An array of JSON texts.
pub open spec fn list_json(items: Seq<Seq<char>>) -> Seq<char> {
    seq!['['] + text::joined(items, ","@) + seq![']']
}

/// The fields of a message on the wire; what is absent is left out.
pub open spec fn message_fields(message: MessageView) -> Seq<(Seq<char>, Seq<char>)> {
    let always = seq![
        ("role"@, json::quoted(role_text(message.role))),
        (
            "content"@,
            list_json(message.content.map_values(|p: ContentPartView| part_json(p))),
        ),
    ];
    let answered = match message.tool_call_id {
        Some(id) => always.push(("tool_call_id"@, json::quoted(id))),
        None => always,
    };
    let flagged = if message.is_error {
        answered.push(("is_error"@, "true"@))
    } else {
        answered
    };
    match message.opaque {
        Some(value) => flagged.push(("opaque"@, json::rendered(value))),
        None => flagged,
    }
}

/// A message as JSON.
pub open spec fn message_json(message: MessageView) -> Seq<char> {
    json::object_text(message_fields(message))
}

/// The number of bytes of a message on the wire.
pub open spec fn message_bytes(message: MessageView) -> nat {
    context::bytes_of(message_json(message)).len()
}

fn role_name(role: Role) -> (r: &'static str)
    ensures
        r@ == role_text(role),
{
    match role {
        Role::System => "system",
        Role::User => "user",
        Role::Assistant => "assistant",
        Role::Tool => "tool",
    }
}

/// A tool call as JSON.
pub fn render_call(call: &ToolCall) -> (r: String)
    ensures
        r@ == call_json(call@),
{
    let mut fields: Vec<(String, String)> = Vec::new();
    fields.push(("id".to_owned(), json::quote(call.id.as_str())));
    fields.push(("name".to_owned(), json::quote(call.name.as_str())));
    fields.push(("arguments".to_owned(), call.arguments.render()));
    assert(fields.deep_view() =~= seq![
        ("id"@, json::quoted(call@.id)),
        ("name"@, json::quoted(call@.name)),
        ("arguments"@, json::rendered(call@.arguments)),
    ]);
    json::render_object(&fields)
}

fn render_list(items: &Vec<String>) -> (r: String)
    ensures
        r@ == list_json(items.deep_view()),
{
    let mut out = String::new();
    out.push('[');
    out.append(text::join(items, ",").as_str());
    out.push(']');
    assert(out@ =~= list_json(items.deep_view()));
    out
}

fn tagged(kind: &str, key: &str, value: String) -> (r: String)
    ensures
        r@ == json::object_text(seq![("type"@, json::quoted(kind@)), (key@, value@)]),
{
    let mut fields: Vec<(String, String)> = Vec::new();
    fields.push(("type".to_owned(), json::quote(kind)));
    fields.push((key.to_owned(), value));
    assert(fields.deep_view() =~= seq![("type"@, json::quoted(kind@)), (key@, value@)]);
    json::render_object(&fields)
}

/// A message part as JSON.
pub fn render_part(part: &ContentPart) -> (r: String)
    ensures
        r@ == part_json(part@),
{
    match part {
        ContentPart::Text { text } => tagged("text", "text", json::quote(text.as_str())),
        ContentPart::Reasoning { text } => tagged("reasoning", "text", json::quote(text.as_str())),
        ContentPart::ToolCall { call } => tagged("tool_call", "call", render_call(call)),
        ContentPart::Image { bytes } => {
            let ghost numerals = bytes@.map_values(|b: u8| byte_json(b));
            let mut items: Vec<String> = Vec::new();
            let mut i: usize = 0;
            while i < bytes.len()
                invariant
                    i <= bytes.len(),
                    numerals == bytes@.map_values(|b: u8| byte_json(b)),
                    items.len() == i,
                    items.deep_view() == numerals.take(i as int),
                decreases bytes.len() - i,
            {
                items.push(text::decimal_of(bytes[i] as u64));
                i += 1;
                assert(items.deep_view() =~= numerals.take(i as int));
            }
            assert(numerals.take(i as int) =~= numerals);
            tagged("image", "bytes", render_list(&items))
        },
    }
}

/// A message as JSON.
pub fn render_message(message: &Message) -> (r: String)
    ensures
        r@ == message_json(message@),
{
    let ghost parts = message@.content.map_values(|p: ContentPartView| part_json(p));
    let mut items: Vec<String> = Vec::new();
    let mut i: usize = 0;
    while i < message.content.len()
        invariant
            i <= message.content.len(),
            parts == message@.content.map_values(|p: ContentPartView| part_json(p)),
            items.len() == i,
            items.deep_view() == parts.take(i as int),
        decreases message.content.len() - i,
    {
        items.push(render_part(&message.content[i]));
        assert(message@.content[i as int] == message.content[i as int]@);
        i += 1;
        assert(items.deep_view() =~= parts.take(i as int));
    }
    assert(parts.take(i as int) =~= parts);
    let mut fields: Vec<(String, String)> = Vec::new();
    fields.push(("role".to_owned(), json::quote(role_name(message.role))));
    fields.push(("content".to_owned(), render_list(&items)));
    if let Some(id) = &message.tool_call_id {
        fields.push(("tool_call_id".to_owned(), json::quote(id.as_str())));
    }
    if message.is_error {
        fields.push(("is_error".to_owned(), "true".to_owned()));
    }
    if let Some(value) = &message.opaque {
        fields.push(("opaque".to_owned(), value.render()));
    }
    assert(fields.deep_view() =~= message_fields(message@));
    json::render_object(&fields)
}

/// The number of bytes of a message on the wire.
pub fn message_size(message: &Message) -> (r: usize)
    ensures
        r == message_bytes(message@),
{
    context::byte_count(render_message(message).as_str())
}

} // verus!
