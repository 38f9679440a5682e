//! Messages: the unit of a conversation.
use crate::copies::{clone_option, clone_plain, clone_vec};
use crate::json;
use crate::json::{Value, ValueView};
use crate::text;
use vstd::prelude::*;

verus! {

/// Who a message is from.
#[derive(Debug, Clone, Copy, PartialEq, Eq, Structural)]
pub enum Role {
    System,
    User,
    Assistant,
    Tool,
}

/// A tool invocation that a model asked for.
#[derive(Debug, PartialEq, Eq)]
pub struct ToolCall {
    /// Normalized: adapters mint an id when the wire format lacks one, so two
    /// calls to the same tool never overwrite each other.
    pub id: String,
    pub name: String,
    /// Complete JSON. A truncated or incomplete call is quarantined while the
    /// turn is assembled and never gets here.
    pub arguments: Value,
}

/// What a [`ToolCall`] holds.
#[verifier::ext_equal]
pub struct ToolCallView {
    pub id: Seq<char>,
    pub name: Seq<char>,
    pub arguments: ValueView,
}

impl View for ToolCall {
    type V = ToolCallView;

    open spec fn view(&self) -> ToolCallView {
        ToolCallView {
            id: self.id@,
            name: self.name@,
            arguments: self.arguments@,
        }
    }
}

impl DeepView for ToolCall {
    type V = ToolCallView;

    open spec fn deep_view(&self) -> ToolCallView {
        self@
    }
}

impl Clone for ToolCall {
    fn clone(&self) -> (r: Self)
        ensures
            r@ == self@,
    {
        ToolCall {
            id: self.id.clone(),
            name: self.name.clone(),
            arguments: self.arguments.clone(),
        }
    }
}

/// One part of a message.
#[derive(Debug, PartialEq, Eq)]
pub enum ContentPart {
    Text {
        text: String,
    },
    /// Normalized reasoning body. Whether it is echoed back on the next request
    /// is the adapter's call.
    Reasoning {
        text: String,
    },
    ToolCall {
        call: ToolCall,
    },
    Image {
        bytes: Vec<u8>,
    },
}

/// What a [`ContentPart`] holds.
#[verifier::ext_equal]
pub enum ContentPartView {
    Text { text: Seq<char> },
    Reasoning { text: Seq<char> },
    ToolCall { call: ToolCallView },
    Image { bytes: Seq<u8> },
}

impl View for ContentPart {
    type V = ContentPartView;

    open spec fn view(&self) -> ContentPartView {
        match *self {
            ContentPart::Text { text } => ContentPartView::Text {
                text: text@,
            },
            ContentPart::Reasoning { text } => ContentPartView::Reasoning {
                text: text@,
            },
            ContentPart::ToolCall { call } => ContentPartView::ToolCall {
                call: call@,
            },
            ContentPart::Image { bytes } => ContentPartView::Image {
                bytes: bytes@,
            },
        }
    }
}

impl DeepView for ContentPart {
    type V = ContentPartView;

    open spec fn deep_view(&self) -> ContentPartView {
        self@
    }
}

impl Clone for ContentPart {
    fn clone(&self) -> (r: Self)
        ensures
            r@ == self@,
    {
        match self {
            ContentPart::Text { text } => ContentPart::Text {
                text: text.clone(),
            },
            ContentPart::Reasoning { text } => ContentPart::Reasoning {
                text: text.clone(),
            },
            ContentPart::ToolCall { call } => ContentPart::ToolCall {
                call: call.clone(),
            },
            ContentPart::Image { bytes } => ContentPart::Image {
                bytes: clone_plain(bytes),
            },
        }
    }
}

/// One message of a conversation.
#[derive(Debug, PartialEq, Eq)]
pub struct Message {
    pub role: Role,
    pub content: Vec<ContentPart>,
    /// Required when `role` is [`Role::Tool`]: the call this message answers.
    pub tool_call_id: Option<String>,
    /// Marks a tool result as an error outcome ([`Role::Tool`] only): the model
    /// reads it as a correction, not as data.
    pub is_error: bool,
    /// Vendor-opaque payload. Never parsed here: adapters persist it and echo it
    /// back verbatim on the next request.
    pub opaque: Option<Value>,
}

/// What a [`Message`] holds.
#[verifier::ext_equal]
pub struct MessageView {
    pub role: Role,
    pub content: Seq<ContentPartView>,
    pub tool_call_id: Option<Seq<char>>,
    pub is_error: bool,
    pub opaque: Option<ValueView>,
}

impl View for Message {
    type V = MessageView;

    open spec fn view(&self) -> MessageView {
        MessageView {
            role: self.role,
            content: self.content.deep_view(),
            tool_call_id: self.tool_call_id.deep_view(),
            is_error: self.is_error,
            opaque: self.opaque.deep_view(),
        }
    }
}

impl DeepView for Message {
    type V = MessageView;

    open spec fn deep_view(&self) -> MessageView {
        self@
    }
}

impl Clone for Message {
    fn clone(&self) -> (r: Self)
        ensures
            r@ == self@,
    {
        Message {
            role: self.role,
            content: clone_vec(&self.content),
            tool_call_id: self.tool_call_id.clone(),
            is_error: self.is_error,
            opaque: clone_option(&self.opaque),
        }
    }
}

/// The text that a tool outcome is shown to the model as: strings pass
/// through raw, anything else as its JSON text.
pub open spec fn payload_text(content: ValueView) -> Seq<char> {
    match content {
        ValueView::String(text) => text,
        other => json::rendered(other),
    }
}

/// A message of one text part.
pub open spec fn text_message(role: Role, text: Seq<char>) -> MessageView {
    MessageView {
        role,
        content: seq![ContentPartView::Text { text }],
        tool_call_id: None,
        is_error: false,
        opaque: None,
    }
}

/// The answer to a tool call.
pub open spec fn answer(call_id: Seq<char>, content: ValueView, is_error: bool) -> MessageView {
    MessageView {
        role: Role::Tool,
        content: seq![ContentPartView::Text { text: payload_text(content) }],
        tool_call_id: Some(call_id),
        is_error,
        opaque: None,
    }
}

/// The tool calls among `parts`, in order.
pub open spec fn calls_in(parts: Seq<ContentPartView>) -> Seq<ToolCallView>
    decreases parts.len(),
{
    if parts.len() == 0 {
        Seq::empty()
    } else {
        let before = calls_in(parts.drop_last());
        match parts.last() {
            ContentPartView::ToolCall { call } => before.push(call),
            _ => before,
        }
    }
}

/// The text parts among `parts`, in order.
pub open spec fn texts_in(parts: Seq<ContentPartView>) -> Seq<Seq<char>>
    decreases parts.len(),
{
    if parts.len() == 0 {
        Seq::empty()
    } else {
        let before = texts_in(parts.drop_last());
        match parts.last() {
            ContentPartView::Text { text } => before.push(text),
            _ => before,
        }
    }
}

/// The text parts joined with newlines.
pub open spec fn body_text(parts: Seq<ContentPartView>) -> Seq<char> {
    text::joined(texts_in(parts), "\n"@)
}

impl Message {
    pub fn system(text: &str) -> (r: Message)
        ensures
            r@ == text_message(Role::System, text@),
    {
        Message::text(Role::System, text)
    }

    pub fn user(text: &str) -> (r: Message)
        ensures
            r@ == text_message(Role::User, text@),
    {
        Message::text(Role::User, text)
    }

    /// A message of one text part.
    pub fn text(role: Role, text: &str) -> (r: Message)
        ensures
            r@ == text_message(role, text@),
    {
        let mut content: Vec<ContentPart> = Vec::new();
        content.push(ContentPart::Text { text: text.to_owned() });
        let r = Message { role, content, tool_call_id: None, is_error: false, opaque: None };
        assert(r@ =~= text_message(role, text@));
        r
    }

    /// The answer to a completed tool call. String values pass through raw;
    /// structured payloads serialize to JSON.
    pub fn tool_result(call_id: &str, content: Value) -> (r: Message)
        ensures
            r@ == answer(call_id@, content@, false),
    {
        let text = match content {
            Value::String(text) => text,
            other => other.render(),
        };
        let mut parts: Vec<ContentPart> = Vec::new();
        parts.push(ContentPart::Text { text });
        let r = Message {
            role: Role::Tool,
            content: parts,
            tool_call_id: Some(call_id.to_owned()),
            is_error: false,
            opaque: None,
        };
        assert(r@ =~= answer(call_id@, content@, false));
        r
    }

    /// The error answer to a completed tool call: the same payload, marked so
    /// that the model reads it as a correction.
    pub fn tool_error(call_id: &str, content: Value) -> (r: Message)
        ensures
            r@ == answer(call_id@, content@, true),
    {
        let mut message = Message::tool_result(call_id, content);
        message.is_error = true;
        message
    }

    /// All tool calls in this message, in wire order.
    pub fn tool_calls(&self) -> (r: Vec<ToolCall>)
        ensures
            r.deep_view() == calls_in(self@.content),
    {
        let ghost parts = self.content.deep_view();
        let mut out: Vec<ToolCall> = Vec::new();
        let mut i: usize = 0;
        while i < self.content.len()
            invariant
                i <= self.content.len(),
                parts == self.content.deep_view(),
                out.deep_view() == calls_in(parts.take(i as int)),
            decreases self.content.len() - i,
        {
            let ghost before = out.deep_view();
            assert(parts.take(i as int + 1).drop_last() =~= parts.take(i as int));
            assert(parts.take(i as int + 1).last() == self.content[i as int]@);
            match &self.content[i] {
                ContentPart::ToolCall { call } => {
                    out.push(call.clone());
                    assert(out.deep_view() =~= before.push(call@));
                },
                _ => {},
            }
            i += 1;
        }
        assert(parts.take(i as int) =~= parts);
        out
    }

    /// The text parts joined with newlines: the message's human-readable
    /// body.
    pub fn text_body(&self) -> (r: String)
        ensures
            r@ == body_text(self@.content),
    {
        let ghost parts = self.content.deep_view();
        let mut texts: Vec<String> = Vec::new();
        let mut i: usize = 0;
        while i < self.content.len()
            invariant
                i <= self.content.len(),
                parts == self.content.deep_view(),
                texts.deep_view() == texts_in(parts.take(i as int)),
            decreases self.content.len() - i,
        {
            let ghost before = texts.deep_view();
            assert(parts.take(i as int + 1).drop_last() =~= parts.take(i as int));
            assert(parts.take(i as int + 1).last() == self.content[i as int]@);
            match &self.content[i] {
                ContentPart::Text { text } => {
                    texts.push(text.clone());
                    assert(texts.deep_view() =~= before.push(text@));
                },
                _ => {},
            }
            i += 1;
        }
        assert(parts.take(i as int) =~= parts);
        text::join(&texts, "\n")
    }
}

} // verus!
