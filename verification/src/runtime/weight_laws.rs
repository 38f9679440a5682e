//! How messages are written where they are weighed, in terms of their parts.
use crate::contract::message::{ContentPartView, MessageView, Role, ToolCallView};
use crate::json;
use crate::runtime::wire;
use crate::text;
use crate::text_laws;
use vstd::prelude::*;

verus! {

/// A message is written with its role, its parts in order, the call it answers,
/// its error mark and what the vendor sent along; what it does not have is left
/// out, and nothing else is written.
pub proof fn messages_are_written_whole(message: MessageView)
    ensures
        ({
            let fields = wire::message_fields(message);
            let parts = Seq::new(message.content.len(), |i: int| wire::part_json(message.content[i]));
            &&& fields[0] == ("role"@, json::quoted(
                match message.role {
                    Role::System => "system"@,
                    Role::User => "user"@,
                    Role::Assistant => "assistant"@,
                    Role::Tool => "tool"@,
                },
            ))
            &&& fields[1] == ("content"@, seq!['['] + text::joined(parts, ","@) + seq![']'])
            &&& message.tool_call_id matches Some(id) ==> fields.contains(
                ("tool_call_id"@, json::quoted(id)),
            )
            &&& message.is_error ==> fields.contains(("is_error"@, "true"@))
            &&& message.opaque matches Some(value) ==> fields.contains(
                ("opaque"@, json::rendered(value)),
            )
            &&& fields.len() == 2 + (if message.tool_call_id is Some {
                1int
            } else {
                0
            }) + (if message.is_error {
                1int
            } else {
                0
            }) + (if message.opaque is Some {
                1int
            } else {
                0
            })
        }),
{
    let fields = wire::message_fields(message);
    let parts = Seq::new(message.content.len(), |i: int| wire::part_json(message.content[i]));
    assert(message.content.map_values(|p: ContentPartView| wire::part_json(p)) =~= parts);
    if let Some(id) = message.tool_call_id {
        assert(fields[2] == ("tool_call_id"@, json::quoted(id)));
    }
    if message.is_error {
        let at: int = if message.tool_call_id is Some {
            3
        } else {
            2
        };
        assert(fields[at] == ("is_error"@, "true"@));
    }
    if let Some(value) = message.opaque {
        assert(fields[fields.len() - 1] == ("opaque"@, json::rendered(value)));
    }
}

/// A part is written with its kind and with all that it holds; two texts are
/// written alike only where they are the same.
pub proof fn parts_are_written_whole(said: Seq<char>, call: ToolCallView)
    ensures
        wire::part_json(ContentPartView::Text { text: said }) == json::object_text(
            seq![("type"@, json::quoted("text"@)), ("text"@, json::quoted(said))],
        ),
        wire::part_json(ContentPartView::Reasoning { text: said }) == json::object_text(
            seq![("type"@, json::quoted("reasoning"@)), ("text"@, json::quoted(said))],
        ),
        wire::part_json(ContentPartView::ToolCall { call }) == json::object_text(
            seq![
                ("type"@, json::quoted("tool_call"@)),
                (
                    "call"@,
                    json::object_text(
                        seq![
                            ("id"@, json::quoted(call.id)),
                            ("name"@, json::quoted(call.name)),
                            ("arguments"@, json::rendered(call.arguments)),
                        ],
                    ),
                ),
            ],
        ),
{
}

/// A list is written item by item, a comma between them.
pub proof fn lists_are_written_item_by_item(a: Seq<Seq<char>>, b: Seq<Seq<char>>)
    requires
        a.len() > 0,
        b.len() > 0,
    ensures
        wire::list_json(a + b) == wire::list_json(a).drop_last() + ","@ + wire::list_json(
            b,
        ).drop_first(),
        wire::list_json(Seq::empty()) == seq!['[', ']'],
{
    text_laws::joining_is_piecewise(a, b, ","@);
    let x = text::joined(a, ","@);
    let y = text::joined(b, ","@);
    assert(wire::list_json(a).drop_last() =~= seq!['['] + x);
    assert(wire::list_json(b).drop_first() =~= y + seq![']']);
    assert(wire::list_json(a + b) =~= seq!['['] + x + ","@ + (y + seq![']']));
    assert(wire::list_json(Seq::empty()) =~= seq!['[', ']']);
}

} // verus!
