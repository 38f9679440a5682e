//! What is found in a message, in terms of its parts.
use crate::contract::message;
use crate::contract::message::{ContentPartView, ToolCallView};
use crate::json::ValueView;
use vstd::prelude::*;

verus! {

/// A message's calls are found part by part: of two rows of parts those of the
/// one and then those of the other; a part that is a call is found as it is,
/// and no other part is a call.
pub proof fn calls_are_found_part_by_part(
    a: Seq<ContentPartView>,
    b: Seq<ContentPartView>,
    call: ToolCallView,
    part: ContentPartView,
)
    ensures
        message::calls_in(a + b) == message::calls_in(a) + message::calls_in(b),
        message::calls_in(seq![ContentPartView::ToolCall { call }]) == seq![call],
        part !is ToolCall ==> message::calls_in(seq![part]) == Seq::<ToolCallView>::empty(),
    decreases b.len(),
{
    reveal_with_fuel(message::calls_in, 2);
    assert(seq![ContentPartView::ToolCall { call }].drop_last() =~= Seq::empty());
    assert(seq![part].drop_last() =~= Seq::empty());
    assert(Seq::<ToolCallView>::empty().push(call) =~= seq![call]);
    if b.len() == 0 {
        assert(a + b =~= a);
        assert(message::calls_in(a) + message::calls_in(b) =~= message::calls_in(a));
    } else {
        calls_are_found_part_by_part(a, b.drop_last(), call, part);
        assert((a + b).drop_last() =~= a + b.drop_last());
        assert((a + b).last() == b.last());
        assert(message::calls_in(a + b) =~= message::calls_in(a) + message::calls_in(b));
    }
}

/// A message's text parts are found part by part, in order, each as it is.
pub proof fn texts_are_found_part_by_part(
    a: Seq<ContentPartView>,
    b: Seq<ContentPartView>,
    said: Seq<char>,
    part: ContentPartView,
)
    ensures
        message::texts_in(a + b) == message::texts_in(a) + message::texts_in(b),
        message::texts_in(seq![ContentPartView::Text { text: said }]) == seq![said],
        part !is Text ==> message::texts_in(seq![part]) == Seq::<Seq<char>>::empty(),
    decreases b.len(),
{
    reveal_with_fuel(message::texts_in, 2);
    assert(seq![ContentPartView::Text { text: said }].drop_last() =~= Seq::empty());
    assert(seq![part].drop_last() =~= Seq::empty());
    assert(Seq::<Seq<char>>::empty().push(said) =~= seq![said]);
    if b.len() == 0 {
        assert(a + b =~= a);
        assert(message::texts_in(a) + message::texts_in(b) =~= message::texts_in(a));
    } else {
        texts_are_found_part_by_part(a, b.drop_last(), said, part);
        assert((a + b).drop_last() =~= a + b.drop_last());
        assert((a + b).last() == b.last());
        assert(message::texts_in(a + b) =~= message::texts_in(a) + message::texts_in(b));
    }
}

/// The body of a message is its text parts with a line feed between them: the
/// bodies of two rows of parts that both have text make up the body of the two
/// together, parts that are no text add nothing, and one text alone is the
/// body.
pub proof fn bodies_are_text_parts_on_lines(
    a: Seq<ContentPartView>,
    b: Seq<ContentPartView>,
    said: Seq<char>,
)
    ensures
        message::body_text(seq![ContentPartView::Text { text: said }]) == said,
        message::texts_in(a).len() > 0 && message::texts_in(b).len() > 0 ==> message::body_text(
            a + b,
        ) == message::body_text(a) + "\n"@ + message::body_text(b),
        (forall|j: int| 0 <= j < b.len() ==> #[trigger] b[j] !is Text) ==> message::body_text(
            a + b,
        ) == message::body_text(a) && message::body_text(b + a) == message::body_text(a),
{
    texts_are_found_part_by_part(a, b, said, ContentPartView::Text { text: said });
    texts_are_found_part_by_part(b, a, said, ContentPartView::Text { text: said });
    crate::text_laws::joining_is_piecewise(message::texts_in(a), message::texts_in(b), "\n"@);
    crate::text_laws::joining_is_piecewise(seq![said], seq![said], "\n"@);
    if forall|j: int| 0 <= j < b.len() ==> #[trigger] b[j] !is Text {
        no_texts(b);
        assert(message::texts_in(a) + message::texts_in(b) =~= message::texts_in(a));
        assert(message::texts_in(b) + message::texts_in(a) =~= message::texts_in(a));
    }
}

proof fn no_texts(parts: Seq<ContentPartView>)
    requires
        forall|j: int| 0 <= j < parts.len() ==> #[trigger] parts[j] !is Text,
    ensures
        message::texts_in(parts) == Seq::<Seq<char>>::empty(),
    decreases parts.len(),
{
    if parts.len() > 0 {
        assert(parts.last() == parts[parts.len() - 1]);
        assert forall|j: int| 0 <= j < parts.drop_last().len() implies #[trigger]
            parts.drop_last()[j] !is Text by {
            assert(parts.drop_last()[j] == parts[j]);
        }
        no_texts(parts.drop_last());
    }
}

/// A call is among a message's calls exactly where some part of the message is
/// that call.
pub proof fn calls_are_the_call_parts(parts: Seq<ContentPartView>, call: ToolCallView)
    ensures
        message::calls_in(parts).contains(call) <==> exists|j: int|
            0 <= j < parts.len() && #[trigger] parts[j] == (ContentPartView::ToolCall { call }),
    decreases parts.len(),
{
    if parts.len() > 0 {
        let before = parts.drop_last();
        calls_are_the_call_parts(before, call);
        let found = message::calls_in(parts);
        let earlier = message::calls_in(before);
        if earlier.contains(call) {
            let j = choose|j: int|
                0 <= j < before.len() && #[trigger] before[j] == (ContentPartView::ToolCall {
                    call,
                });
            assert(parts[j] == before[j]);
            let k = choose|k: int| 0 <= k < earlier.len() && earlier[k] == call;
            assert(found[k] == call);
        }
        if parts.last() == (ContentPartView::ToolCall { call }) {
            assert(found[found.len() - 1] == call);
            assert(parts[parts.len() - 1] == parts.last());
        }
        if found.contains(call) {
            let k = choose|k: int| 0 <= k < found.len() && found[k] == call;
            if k < earlier.len() {
                assert(earlier[k] == call);
            } else {
                assert(parts[parts.len() - 1] == (ContentPartView::ToolCall { call }));
            }
        }
        if exists|j: int|
            0 <= j < parts.len() && #[trigger] parts[j] == (ContentPartView::ToolCall { call }) {
            let j = choose|j: int|
                0 <= j < parts.len() && #[trigger] parts[j] == (ContentPartView::ToolCall { call });
            if j < before.len() {
                assert(before[j] == parts[j]);
            }
        }
    }
}

/// The answer to a call holds one text, says whose answer it is and whether it
/// is an error; a string is answered as it is, and anything else as JSON text.
pub proof fn answers_say_what_came_back(call_id: Seq<char>, content: ValueView, is_error: bool)
    ensures
        ({
            let message = message::answer(call_id, content, is_error);
            let said = match content {
                ValueView::String(text) => text,
                _ => crate::json::rendered(content),
            };
            &&& message.role == crate::contract::message::Role::Tool
            &&& message.tool_call_id == Some(call_id)
            &&& message.is_error == is_error
            &&& message.opaque is None
            &&& message.content == seq![ContentPartView::Text { text: said }]
        }),
{
}

} // verus!
