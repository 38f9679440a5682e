//! Assembles provider streams into turns.
use crate::contract::event::TurnOutcome;
use crate::contract::message;
use crate::contract::message::{
    ContentPart, ContentPartView, Message, MessageView, Role, ToolCall, ToolCallView,
};
use crate::contract::stream::{
    FinishReason, FinishReasonView, StreamChunk, StreamChunkView, Usage, UsageView,
};
use crate::copies;
use crate::copies::{clone_option, clone_texts, clone_vec};
use crate::json;
use crate::json::{Value, ValueView};
use crate::text;
use vstd::prelude::*;

verus! {

/// A tool call whose arguments are still streaming.
#[derive(Debug, PartialEq, Eq)]
pub struct PartialCall {
    pub index: u32,
    pub id: String,
    pub name: String,
    pub args: String,
}

/// What a [`PartialCall`] holds.
#[verifier::ext_equal]
pub struct PartialCallView {
    pub index: u32,
    pub id: Seq<char>,
    pub name: Seq<char>,
    pub args: Seq<char>,
}

impl View for PartialCall {
    type V = PartialCallView;

    open spec fn view(&self) -> PartialCallView {
        PartialCallView {
            index: self.index,
            id: self.id@,
            name: self.name@,
            args: self.args@,
        }
    }
}

impl DeepView for PartialCall {
    type V = PartialCallView;

    open spec fn deep_view(&self) -> PartialCallView {
        self@
    }
}

impl Clone for PartialCall {
    fn clone(&self) -> (r: Self)
        ensures
            r@ == self@,
    {
        PartialCall {
            index: self.index,
            id: self.id.clone(),
            name: self.name.clone(),
            args: self.args.clone(),
        }
    }
}

/// A sealed call and the stream index that routed it.
#[derive(Debug, PartialEq, Eq)]
pub struct IndexedCall {
    pub index: u32,
    pub call: ToolCall,
}

/// What a [`IndexedCall`] holds.
#[verifier::ext_equal]
pub struct IndexedCallView {
    pub index: u32,
    pub call: ToolCallView,
}

impl View for IndexedCall {
    type V = IndexedCallView;

    open spec fn view(&self) -> IndexedCallView {
        IndexedCallView {
            index: self.index,
            call: self.call@,
        }
    }
}

impl DeepView for IndexedCall {
    type V = IndexedCallView;

    open spec fn deep_view(&self) -> IndexedCallView {
        self@
    }
}

impl Clone for IndexedCall {
    fn clone(&self) -> (r: Self)
        ensures
            r@ == self@,
    {
        IndexedCall {
            index: self.index,
            call: self.call.clone(),
        }
    }
}

/// The result of folding one provider stream into a domain turn.
#[derive(Debug, PartialEq, Eq)]
pub struct AssembledTurn {
    /// Always from the assistant.
    pub message: Message,
    /// `None` when the provider never reported usage.
    pub usage: Option<Usage>,
    pub finish: FinishReason,
    /// Non-fatal anomalies: quarantined calls, fragments without a start,
    /// overwritten indexes.
    pub warnings: Vec<String>,
    pub outcome: TurnOutcome,
}

/// What a [`AssembledTurn`] holds.
#[verifier::ext_equal]
pub struct AssembledTurnView {
    pub message: MessageView,
    pub usage: Option<UsageView>,
    pub finish: FinishReasonView,
    pub warnings: Seq<Seq<char>>,
    pub outcome: TurnOutcome,
}

impl View for AssembledTurn {
    type V = AssembledTurnView;

    open spec fn view(&self) -> AssembledTurnView {
        AssembledTurnView {
            message: self.message@,
            usage: self.usage.deep_view(),
            finish: self.finish@,
            warnings: self.warnings.deep_view(),
            outcome: self.outcome,
        }
    }
}

impl DeepView for AssembledTurn {
    type V = AssembledTurnView;

    open spec fn deep_view(&self) -> AssembledTurnView {
        self@
    }
}

impl Clone for AssembledTurn {
    fn clone(&self) -> (r: Self)
        ensures
            r@ == self@,
    {
        AssembledTurn {
            message: self.message.clone(),
            usage: clone_option(&self.usage),
            finish: self.finish.clone(),
            warnings: clone_texts(&self.warnings),
            outcome: self.outcome,
        }
    }
}

/// Folds a stream of [`StreamChunk`] into an [`AssembledTurn`]. Incremental
/// tool-call arguments are merged by index, so interleaved parallel calls and
/// endpoints that emit a call in one shot are both handled.
#[derive(Debug, PartialEq, Eq)]
pub struct MessageAssembler {
    pub text: String,
    pub reasoning: String,
    /// The open calls, by ascending index.
    pub partials: Vec<PartialCall>,
    /// The sealed calls, in the order they were sealed.
    pub completed: Vec<IndexedCall>,
    pub opaque: Option<Value>,
    pub usage: Option<Usage>,
    pub finish: Option<FinishReason>,
    pub warnings: Vec<String>,
}

/// What a [`MessageAssembler`] holds.
#[verifier::ext_equal]
pub struct MessageAssemblerView {
    pub text: Seq<char>,
    pub reasoning: Seq<char>,
    pub partials: Seq<PartialCallView>,
    pub completed: Seq<IndexedCallView>,
    pub opaque: Option<ValueView>,
    pub usage: Option<UsageView>,
    pub finish: Option<FinishReasonView>,
    pub warnings: Seq<Seq<char>>,
}

impl View for MessageAssembler {
    type V = MessageAssemblerView;

    open spec fn view(&self) -> MessageAssemblerView {
        MessageAssemblerView {
            text: self.text@,
            reasoning: self.reasoning@,
            partials: self.partials.deep_view(),
            completed: self.completed.deep_view(),
            opaque: self.opaque.deep_view(),
            usage: self.usage.deep_view(),
            finish: self.finish.deep_view(),
            warnings: self.warnings.deep_view(),
        }
    }
}

impl DeepView for MessageAssembler {
    type V = MessageAssemblerView;

    open spec fn deep_view(&self) -> MessageAssemblerView {
        self@
    }
}

impl Clone for MessageAssembler {
    fn clone(&self) -> (r: Self)
        ensures
            r@ == self@,
    {
        MessageAssembler {
            text: self.text.clone(),
            reasoning: self.reasoning.clone(),
            partials: clone_vec(&self.partials),
            completed: clone_vec(&self.completed),
            opaque: clone_option(&self.opaque),
            usage: clone_option(&self.usage),
            finish: clone_option(&self.finish),
            warnings: clone_texts(&self.warnings),
        }
    }
}

/// The first position in `partials` whose index is not below `index`.
pub open spec fn slot(partials: Seq<PartialCallView>, index: u32) -> int
    decreases partials.len(),
{
    if partials.len() == 0 || partials[0].index >= index {
        0
    } else {
        1 + slot(partials.drop_first(), index)
    }
}

/// The open call with the given index.
pub open spec fn open_call(partials: Seq<PartialCallView>, index: u32) -> Option<PartialCallView> {
    let at = slot(partials, index);
    if at < partials.len() && partials[at].index == index {
        Some(partials[at])
    } else {
        None
    }
}

/// `partials` with `call` in the place of its index.
pub open spec fn with_call(partials: Seq<PartialCallView>, call: PartialCallView) -> Seq<
    PartialCallView,
> {
    let at = slot(partials, call.index);
    if open_call(partials, call.index) is Some {
        partials.update(at, call)
    } else {
        partials.insert(at, call)
    }
}

/// Ascending by index, without repetition.
pub open spec fn ordered(partials: Seq<PartialCallView>) -> bool {
    forall|i: int, j: int|
        0 <= i < j < partials.len() ==> (#[trigger] partials[i]).index < (
        #[trigger] partials[j]).index
}

proof fn slot_is(partials: Seq<PartialCallView>, index: u32, at: int)
    requires
        0 <= at <= partials.len(),
        forall|j: int| 0 <= j < at ==> (#[trigger] partials[j]).index < index,
        at < partials.len() ==> partials[at].index >= index,
    ensures
        slot(partials, index) == at,
    decreases partials.len(),
{
    if at > 0 {
        let rest = partials.drop_first();
        assert(partials[0].index < index);
        assert forall|j: int| 0 <= j < at - 1 implies (#[trigger] rest[j]).index < index by {
            assert(rest[j] == partials[j + 1]);
        }
        slot_is(rest, index, at - 1);
    }
}

pub(crate) proof fn slot_bounds(partials: Seq<PartialCallView>, index: u32)
    ensures
        0 <= slot(partials, index) <= partials.len(),
        forall|j: int|
            0 <= j < slot(partials, index) ==> (#[trigger] partials[j]).index < index,
        slot(partials, index) < partials.len() ==> partials[slot(partials, index)].index >= index,
    decreases partials.len(),
{
    if partials.len() > 0 && partials[0].index < index {
        let rest = partials.drop_first();
        slot_bounds(rest, index);
        assert forall|j: int| 0 <= j < slot(partials, index) implies (
        #[trigger] partials[j]).index < index by {
            if j > 0 {
                assert(rest[j - 1] == partials[j]);
            }
        }
        let at = slot(partials, index);
        if at < partials.len() {
            assert(rest[at - 1] == partials[at]);
        }
    }
}

/// The warning for an index that was opened while still open.
pub open spec fn reused_warning(index: u32) -> Seq<char> {
    "tool call index "@ + text::decimal(index as nat) + " reused; previous fragments dropped"@
}

/// The warning for arguments whose call was never opened.
pub open spec fn synthesized_warning(index: u32) -> Seq<char> {
    "arguments fragment for unknown tool call index "@ + text::decimal(index as nat)
        + "; call synthesized"@
}

/// The warning for the end of a call that is not open.
pub open spec fn unknown_end_warning(index: u32) -> Seq<char> {
    "tool call end for unknown index "@ + text::decimal(index as nat) + "; ignored"@
}

/// The warning for a call whose arguments are not JSON.
pub open spec fn malformed_warning(id: Seq<char>, message: Seq<char>) -> Seq<char> {
    "tool call "@ + id + " has malformed arguments ("@ + message + "); call quarantined"@
}

/// The warning for a call that the stream left open.
pub open spec fn open_warning(call: PartialCallView) -> Seq<char> {
    "stream ended with open tool call "@ + call.id + " (index "@ + text::decimal(
        call.index as nat,
    ) + "); call quarantined"@
}

/// The arguments of a call from the text that streamed in: a call without
/// arguments is legal and has the empty object.
pub open spec fn sealed_arguments(args: Seq<char>) -> Result<ValueView, Seq<char>> {
    let body = text::trimmed(args);
    if body.len() == 0 {
        Ok(ValueView::Object(Seq::empty()))
    } else {
        json::parsed(body)
    }
}

/// The fold after a call is sealed.
pub open spec fn sealed(
    state: MessageAssemblerView,
    call: PartialCallView,
    arguments: Result<ValueView, Seq<char>>,
) -> MessageAssemblerView {
    match arguments {
        Ok(arguments) => MessageAssemblerView {
            completed: state.completed.push(
                IndexedCallView {
                    index: call.index,
                    call: ToolCallView { id: call.id, name: call.name, arguments },
                },
            ),
            ..state
        },
        Err(message) => MessageAssemblerView {
            warnings: state.warnings.push(malformed_warning(call.id, message)),
            ..state
        },
    }
}

/// The fold after one more chunk.
pub open spec fn pushed(
    state: MessageAssemblerView,
    chunk: StreamChunkView,
) -> MessageAssemblerView {
    match chunk {
        StreamChunkView::TextDelta(delta) => MessageAssemblerView {
            text: state.text + delta,
            ..state
        },
        StreamChunkView::ReasoningDelta(delta) => MessageAssemblerView {
            reasoning: state.reasoning + delta,
            ..state
        },
        StreamChunkView::ToolCallStart { index, id, name } => MessageAssemblerView {
            partials: with_call(
                state.partials,
                PartialCallView { index, id, name, args: Seq::empty() },
            ),
            warnings: if open_call(state.partials, index) is Some {
                state.warnings.push(reused_warning(index))
            } else {
                state.warnings
            },
            ..state
        },
        StreamChunkView::ToolArgsDelta { index, fragment } => match open_call(
            state.partials,
            index,
        ) {
            Some(call) => MessageAssemblerView {
                partials: with_call(
                    state.partials,
                    PartialCallView { args: call.args + fragment, ..call },
                ),
                ..state
            },
            None => MessageAssemblerView {
                partials: with_call(
                    state.partials,
                    PartialCallView {
                        index,
                        id: "call_"@ + text::decimal(index as nat),
                        name: Seq::empty(),
                        args: fragment,
                    },
                ),
                warnings: state.warnings.push(synthesized_warning(index)),
                ..state
            },
        },
        StreamChunkView::ToolCallEnd { index } => match open_call(state.partials, index) {
            Some(call) => sealed(
                MessageAssemblerView {
                    partials: state.partials.remove(slot(state.partials, index)),
                    ..state
                },
                call,
                sealed_arguments(call.args),
            ),
            None => MessageAssemblerView {
                warnings: state.warnings.push(unknown_end_warning(index)),
                ..state
            },
        },
        StreamChunkView::OpaqueDelta(value) => MessageAssemblerView {
            opaque: match state.opaque {
                Some(older) => Some(json::merged(older, value)),
                None => Some(value),
            },
            ..state
        },
        StreamChunkView::Usage(usage) => MessageAssemblerView { usage: Some(usage), ..state },
        StreamChunkView::Done { finish } => MessageAssemblerView { finish: Some(finish), ..state },
    }
}

/// The fold before any chunk.
pub open spec fn fresh() -> MessageAssemblerView {
    MessageAssemblerView {
        text: Seq::empty(),
        reasoning: Seq::empty(),
        partials: Seq::empty(),
        completed: Seq::empty(),
        opaque: None,
        usage: None,
        finish: None,
        warnings: Seq::empty(),
    }
}

/// The fold of a whole stream.
pub open spec fn assembled(chunks: Seq<StreamChunkView>) -> MessageAssemblerView
    decreases chunks.len(),
{
    if chunks.len() == 0 {
        fresh()
    } else {
        pushed(assembled(chunks.drop_last()), chunks.last())
    }
}

/// The first position in `calls` whose index is above `index`.
pub open spec fn place(calls: Seq<IndexedCallView>, index: u32) -> int
    decreases calls.len(),
{
    if calls.len() == 0 || calls[0].index > index {
        0
    } else {
        1 + place(calls.drop_first(), index)
    }
}

/// The sealed calls by ascending index; calls of one index keep their order.
pub open spec fn by_index(calls: Seq<IndexedCallView>) -> Seq<IndexedCallView>
    decreases calls.len(),
{
    if calls.len() == 0 {
        Seq::empty()
    } else {
        let sorted = by_index(calls.drop_last());
        sorted.insert(place(sorted, calls.last().index), calls.last())
    }
}

/// The parts of the assembled message: reasoning, text, calls by index.
pub open spec fn turn_content(state: MessageAssemblerView) -> Seq<ContentPartView> {
    let reasoning = if state.reasoning.len() == 0 {
        Seq::empty()
    } else {
        seq![ContentPartView::Reasoning { text: state.reasoning }]
    };
    let text = if state.text.len() == 0 {
        Seq::empty()
    } else {
        seq![ContentPartView::Text { text: state.text }]
    };
    reasoning + text + call_parts(by_index(state.completed))
}

/// Sealed calls as message parts.
pub open spec fn call_parts(calls: Seq<IndexedCallView>) -> Seq<ContentPartView> {
    calls.map_values(|c: IndexedCallView| ContentPartView::ToolCall { call: c.call })
}

/// How a turn with the given fold ended.
pub open spec fn turn_outcome(state: MessageAssemblerView) -> TurnOutcome {
    if turn_content(state).len() == 0 {
        TurnOutcome::Empty
    } else if state.partials.len() > 0 || state.finish is None {
        TurnOutcome::Truncated
    } else {
        TurnOutcome::Content
    }
}

/// The turn that a fold comes to when the stream ends.
pub open spec fn finished_turn(state: MessageAssemblerView) -> AssembledTurnView {
    AssembledTurnView {
        message: MessageView {
            role: Role::Assistant,
            content: turn_content(state),
            tool_call_id: None,
            is_error: false,
            opaque: state.opaque,
        },
        usage: state.usage,
        finish: match state.finish {
            Some(finish) => finish,
            None => FinishReasonView::Stop,
        },
        warnings: state.warnings + state.partials.map_values(|c: PartialCallView| open_warning(c)),
        outcome: turn_outcome(state),
    }
}

/// The warning about `index` that starts with `head` and ends with `tail`.
fn index_warning(head: &str, index: u32, tail: &str) -> (r: String)
    ensures
        r@ == head@ + text::decimal(index as nat) + tail@,
{
    let mut out = head.to_owned();
    out.append(text::decimal_of(index as u64).as_str());
    out.append(tail);
    out
}

impl MessageAssembler {
    pub fn new() -> (r: MessageAssembler)
        ensures
            r@ == fresh(),
    {
        let r = MessageAssembler {
            text: String::new(),
            reasoning: String::new(),
            partials: Vec::new(),
            completed: Vec::new(),
            opaque: None,
            usage: None,
            finish: None,
            warnings: Vec::new(),
        };
        assert(r@ =~= fresh());
        r
    }

    /// The position of the open call with `index`, or where it would stand.
    fn find(&self, index: u32) -> (r: (usize, bool))
        ensures
            r.0 as int == slot(self@.partials, index),
            r.0 <= self.partials.len(),
            r.1 == (open_call(self@.partials, index) is Some),
            r.1 ==> r.0 < self.partials.len() && open_call(self@.partials, index) == Some(
                self.partials[r.0 as int]@,
            ),
    {
        let ghost all = self.partials.deep_view();
        let mut i: usize = 0;
        while i < self.partials.len() && self.partials[i].index < index
            invariant
                i <= self.partials.len(),
                all == self.partials.deep_view(),
                forall|j: int| 0 <= j < i ==> (#[trigger] all[j]).index < index,
            decreases self.partials.len() - i,
        {
            assert(all[i as int] == self.partials[i as int]@);
            i += 1;
        }
        proof {
            if i < self.partials.len() {
                assert(all[i as int] == self.partials[i as int]@);
            }
            slot_is(all, index, i as int);
        }
        (i, i < self.partials.len() && self.partials[i].index == index)
    }

    /// Puts `call` in the place of its index.
    fn put(&mut self, at: usize, replace: bool, call: PartialCall)
        requires
            at as int == slot(old(self)@.partials, call.index),
            at <= old(self).partials.len(),
            replace == (open_call(old(self)@.partials, call.index) is Some),
        ensures
            final(self)@ == (MessageAssemblerView {
                partials: with_call(old(self)@.partials, call@),
                ..old(self)@
            }),
    {
        let ghost before = self.partials.deep_view();
        if replace {
            self.partials.set(at, call);
            assert(self.partials.deep_view() =~= before.update(at as int, call@));
        } else {
            self.partials.insert(at, call);
            assert(self.partials.deep_view() =~= before.insert(at as int, call@));
        }
    }

    fn warn(&mut self, warning: String)
        ensures
            final(self)@ == (MessageAssemblerView {
                warnings: old(self)@.warnings.push(warning@),
                ..old(self)@
            }),
    {
        let ghost before = self.warnings.deep_view();
        self.warnings.push(warning);
        assert(self.warnings.deep_view() =~= before.push(warning@));
    }

    /// Seals a call: parses its arguments, or quarantines it with a warning.
    fn seal_call(&mut self, partial: PartialCall)
        ensures
            final(self)@ == sealed(old(self)@, partial@, sealed_arguments(partial@.args)),
    {
        let args = text::trim(partial.args.as_str());
        let parsed = if args.as_str().is_empty() {
            let none: Vec<(String, String)> = Vec::new();
            assert(none.deep_view() =~= Seq::empty());
            Ok(Value::Object(none))
        } else {
            Value::parse(args.as_str())
        };
        self.seal_with(partial, parsed);
    }

    /// Seals a call whose arguments were read: they complete it, or it is
    /// quarantined with a warning that carries the reader's message.
    pub fn seal_with(&mut self, partial: PartialCall, arguments: Result<Value, String>)
        ensures
            final(self)@ == sealed(old(self)@, partial@, copies::held(arguments)),
    {
        match arguments {
            Ok(arguments) => {
                let ghost before = self.completed.deep_view();
                let call = IndexedCall {
                    index: partial.index,
                    call: ToolCall { id: partial.id, name: partial.name, arguments },
                };
                self.completed.push(call);
                assert(self.completed.deep_view() =~= before.push(call@));
            },
            Err(message) => {
                let mut warning = "tool call ".to_owned();
                warning.append(partial.id.as_str());
                warning.append(" has malformed arguments (");
                warning.append(message.as_str());
                warning.append("); call quarantined");
                self.warn(warning);
            },
        }
    }

    /// Folds one more chunk in.
    pub fn push(&mut self, chunk: StreamChunk)
        ensures
            final(self)@ == pushed(old(self)@, chunk@),
    {
        match chunk {
            StreamChunk::TextDelta(delta) => self.text.append(delta.as_str()),
            StreamChunk::ReasoningDelta(delta) => self.reasoning.append(delta.as_str()),
            StreamChunk::ToolCallStart { index, id, name } => {
                let (at, reused) = self.find(index);
                self.put(at, reused, PartialCall { index, id, name, args: String::new() });
                if reused {
                    self.warn(
                        index_warning(
                            "tool call index ",
                            index,
                            " reused; previous fragments dropped",
                        ),
                    );
                }
            },
            StreamChunk::ToolArgsDelta { index, fragment } => {
                let (at, known) = self.find(index);
                if known {
                    let mut call = self.partials[at].clone();
                    call.args.append(fragment.as_str());
                    self.put(at, true, call);
                } else {
                    // The adapter is responsible for emitting a start first;
                    // stay lossless but loud rather than dropping data.
                    let mut id = "call_".to_owned();
                    id.append(text::decimal_of(index as u64).as_str());
                    self.put(
                        at,
                        false,
                        PartialCall { index, id, name: String::new(), args: fragment },
                    );
                    self.warn(
                        index_warning(
                            "arguments fragment for unknown tool call index ",
                            index,
                            "; call synthesized",
                        ),
                    );
                }
            },
            StreamChunk::ToolCallEnd { index } => {
                let (at, known) = self.find(index);
                if known {
                    let ghost before = self.partials.deep_view();
                    let call = self.partials.remove(at);
                    assert(self.partials.deep_view() =~= before.remove(at as int));
                    self.seal_call(call);
                } else {
                    self.warn(
                        index_warning("tool call end for unknown index ", index, "; ignored"),
                    );
                }
            },
            StreamChunk::OpaqueDelta(value) => {
                let older = self.opaque.take();
                self.opaque = match older {
                    Some(older) => Some(older.merge(value)),
                    None => Some(value),
                };
            },
            StreamChunk::Usage(usage) => {
                self.usage = Some(usage);
            },
            StreamChunk::Done { finish } => {
                self.finish = Some(finish);
            },
        }
        assert(final(self)@ =~= pushed(old(self)@, chunk@));
    }

    /// Ends the stream: calls that were never sealed are quarantined with a
    /// warning, while legal text and sealed siblings are kept.
    pub fn complete(self) -> (r: AssembledTurn)
        ensures
            r@ == finished_turn(self@),
    {
        let mut warnings = self.warnings;
        let ghost open = self.partials.deep_view();
        let ghost notes = open.map_values(|c: PartialCallView| open_warning(c));
        let ghost earlier = warnings.deep_view();
        let mut i: usize = 0;
        while i < self.partials.len()
            invariant
                i <= self.partials.len(),
                open == self.partials.deep_view(),
                notes == open.map_values(|c: PartialCallView| open_warning(c)),
                warnings.deep_view() == earlier + notes.take(i as int),
            decreases self.partials.len() - i,
        {
            let ghost before = warnings.deep_view();
            let mut warning = "stream ended with open tool call ".to_owned();
            warning.append(self.partials[i].id.as_str());
            warning.append(" (index ");
            warning.append(text::decimal_of(self.partials[i].index as u64).as_str());
            warning.append("); call quarantined");
            assert(open[i as int] == self.partials[i as int]@);
            warnings.push(warning);
            assert(warnings.deep_view() =~= before.push(warning@));
            i += 1;
            assert(warnings.deep_view() =~= earlier + notes.take(i as int));
        }
        assert(notes.take(i as int) =~= notes);
        let truncated = self.partials.len() > 0 || self.finish.is_none();
        let calls = sort_by_index(&self.completed);
        let mut content: Vec<ContentPart> = Vec::new();
        if !self.reasoning.as_str().is_empty() {
            content.push(ContentPart::Reasoning { text: self.reasoning });
        }
        let ghost after_reasoning = content.deep_view();
        if !self.text.as_str().is_empty() {
            content.push(ContentPart::Text { text: self.text });
        }
        let ghost head = content.deep_view();
        let ghost parts = call_parts(calls.deep_view());
        let mut k: usize = 0;
        assert(content.deep_view() =~= head + parts.take(0));
        while k < calls.len()
            invariant
                k <= calls.len(),
                parts == call_parts(calls.deep_view()),
                content.deep_view() == head + parts.take(k as int),
            decreases calls.len() - k,
        {
            let ghost before = content.deep_view();
            let part = ContentPart::ToolCall { call: calls[k].call.clone() };
            assert(calls.deep_view()[k as int] == calls[k as int]@);
            assert(part@ == parts[k as int]);
            content.push(part);
            assert(content.deep_view() =~= before.push(part@));
            k += 1;
            assert(content.deep_view() =~= head + parts.take(k as int));
        }
        assert(parts.take(k as int) =~= parts);
        assert(content.deep_view() =~= turn_content(self@));
        let outcome = if content.len() == 0 {
            TurnOutcome::Empty
        } else if truncated {
            TurnOutcome::Truncated
        } else {
            TurnOutcome::Content
        };
        let finish = match self.finish {
            Some(finish) => finish,
            None => FinishReason::Stop,
        };
        let r = AssembledTurn {
            message: Message {
                role: Role::Assistant,
                content,
                tool_call_id: None,
                is_error: false,
                opaque: self.opaque,
            },
            usage: self.usage,
            finish,
            warnings,
            outcome,
        };
        assert(r@ =~= finished_turn(self@));
        r
    }
}

proof fn place_is(calls: Seq<IndexedCallView>, index: u32, at: int)
    requires
        0 <= at <= calls.len(),
        forall|j: int| 0 <= j < at ==> (#[trigger] calls[j]).index <= index,
        at < calls.len() ==> calls[at].index > index,
    ensures
        place(calls, index) == at,
    decreases calls.len(),
{
    if at > 0 {
        let rest = calls.drop_first();
        assert(calls[0].index <= index);
        assert forall|j: int| 0 <= j < at - 1 implies (#[trigger] rest[j]).index <= index by {
            assert(rest[j] == calls[j + 1]);
        }
        place_is(rest, index, at - 1);
    }
}

/// The sealed calls by ascending index.
fn sort_by_index(calls: &Vec<IndexedCall>) -> (r: Vec<IndexedCall>)
    ensures
        r.deep_view() == by_index(calls.deep_view()),
{
    let ghost all = calls.deep_view();
    let mut out: Vec<IndexedCall> = Vec::new();
    let mut i: usize = 0;
    while i < calls.len()
        invariant
            i <= calls.len(),
            all == calls.deep_view(),
            out.deep_view() == by_index(all.take(i as int)),
        decreases calls.len() - i,
    {
        let ghost sorted = out.deep_view();
        let index: u32 = calls[i].index;
        let mut at: usize = 0;
        while at < out.len() && out[at].index <= index
            invariant
                at <= out.len(),
                sorted == out.deep_view(),
                forall|j: int| 0 <= j < at ==> (#[trigger] sorted[j]).index <= index,
            decreases out.len() - at,
        {
            assert(sorted[at as int] == out[at as int]@);
            at += 1;
        }
        proof {
            if at < out.len() {
                assert(sorted[at as int] == out[at as int]@);
            }
            place_is(sorted, index, at as int);
        }
        let call = calls[i].clone();
        out.insert(at, call);
        assert(out.deep_view() =~= sorted.insert(at as int, call@));
        i += 1;
        assert(all.take(i as int).drop_last() =~= all.take(i as int - 1));
        assert(all.take(i as int).last() == calls[i as int - 1]@);
    }
    assert(all.take(i as int) =~= all);
    out
}

/// The index that a chunk is routed by.
pub open spec fn routed_to(chunk: StreamChunkView) -> Option<u32> {
    match chunk {
        StreamChunkView::ToolCallStart { index, .. } => Some(index),
        StreamChunkView::ToolArgsDelta { index, .. } => Some(index),
        StreamChunkView::ToolCallEnd { index } => Some(index),
        _ => None,
    }
}

pub(crate) proof fn with_call_keeps_order(partials: Seq<PartialCallView>, call: PartialCallView)
    requires
        ordered(partials),
    ensures
        ordered(with_call(partials, call)),
        open_call(with_call(partials, call), call.index) == Some(call),
        forall|index: u32|
            index != call.index ==> #[trigger] open_call(with_call(partials, call), index)
                == open_call(partials, index),
{
    let at = slot(partials, call.index);
    let after = with_call(partials, call);
    slot_bounds(partials, call.index);
    if open_call(partials, call.index) is Some {
        assert forall|i: int, j: int| 0 <= i < j < after.len() implies (
        #[trigger] after[i]).index < (#[trigger] after[j]).index by {
            assert(partials[i].index < partials[j].index);
        }
        slot_is(after, call.index, at);
    } else {
        assert(after[at] == call);
        assert forall|i: int, j: int| 0 <= i < j < after.len() implies (
        #[trigger] after[i]).index < (#[trigger] after[j]).index by {
            if i < at {
                assert(after[i] == partials[i]);
                if j > at {
                    assert(after[j] == partials[j - 1]);
                    assert(partials[i].index < partials[j - 1].index);
                } else if j < at {
                    assert(after[j] == partials[j]);
                }
            } else {
                assert(after[j] == partials[j - 1]);
                if i > at {
                    assert(after[i] == partials[i - 1]);
                } else if at < j - 1 {
                    assert(partials[at].index < partials[j - 1].index);
                }
            }
        }
        assert forall|j: int| 0 <= j < at implies (#[trigger] after[j]).index < call.index by {
            assert(after[j] == partials[j]);
        }
        slot_is(after, call.index, at);
    }
    assert forall|index: u32| index != call.index implies #[trigger] open_call(after, index)
        == open_call(partials, index) by {
        let before_at = slot(partials, index);
        slot_bounds(partials, index);
        slot_bounds(after, index);
        let after_at = slot(after, index);
        if open_call(partials, index) is Some {
            let k = if open_call(partials, call.index) is Some || before_at < at {
                before_at
            } else {
                before_at + 1
            };
            assert(after[k] == partials[before_at]);
            assert forall|j: int| 0 <= j < k implies (#[trigger] after[j]).index < index by {
                assert(after[j].index < after[k].index);
            }
            slot_is(after, index, k);
        } else if open_call(after, index) is Some {
            assert(after[after_at] != call);
            let k = if open_call(partials, call.index) is Some || after_at < at {
                after_at
            } else {
                after_at - 1
            };
            assert(partials[k] == after[after_at]);
            assert forall|j: int| 0 <= j < k implies (#[trigger] partials[j]).index < index by {
                assert(partials[j].index < partials[k].index);
            }
            slot_is(partials, index, k);
        }
    }
}

proof fn removal_keeps_order(partials: Seq<PartialCallView>, index: u32)
    requires
        ordered(partials),
        open_call(partials, index) is Some,
    ensures
        ordered(partials.remove(slot(partials, index))),
        open_call(partials.remove(slot(partials, index)), index) is None,
        forall|other: u32|
            other != index ==> #[trigger] open_call(
                partials.remove(slot(partials, index)),
                other,
            ) == open_call(partials, other),
{
    let at = slot(partials, index);
    slot_bounds(partials, index);
    let after = partials.remove(at);
    assert forall|i: int, j: int| 0 <= i < j < after.len() implies (#[trigger] after[i]).index < (
    #[trigger] after[j]).index by {
        let pi = if i < at {
            i
        } else {
            i + 1
        };
        let pj = if j < at {
            j
        } else {
            j + 1
        };
        assert(partials[pi].index < partials[pj].index);
    }
    slot_bounds(after, index);
    let gone = slot(after, index);
    if gone < after.len() {
        let k = if gone < at {
            gone
        } else {
            gone + 1
        };
        assert(after[gone] == partials[k]);
        assert(k != at);
    }
    assert forall|other: u32| other != index implies #[trigger] open_call(after, other)
        == open_call(partials, other) by {
        slot_bounds(partials, other);
        slot_bounds(after, other);
        let before_at = slot(partials, other);
        let after_at = slot(after, other);
        if open_call(partials, other) is Some {
            let k = if before_at < at {
                before_at
            } else {
                before_at - 1
            };
            assert(after[k] == partials[before_at]);
            assert forall|j: int| 0 <= j < k implies (#[trigger] after[j]).index < other by {
                assert(after[j].index < after[k].index);
            }
            slot_is(after, other, k);
        } else if open_call(after, other) is Some {
            let k = if after_at < at {
                after_at
            } else {
                after_at + 1
            };
            assert(partials[k] == after[after_at]);
            assert forall|j: int| 0 <= j < k implies (#[trigger] partials[j]).index < other by {
                assert(partials[j].index < partials[k].index);
            }
            slot_is(partials, other, k);
        }
    }
}

/// Parallel calls stay apart: a chunk routed to one index leaves the open
/// call of every other index as it was, and the open calls stay one per
/// index, in ascending order.
pub proof fn calls_are_separated_by_index(state: MessageAssemblerView, chunk: StreamChunkView)
    requires
        ordered(state.partials),
    ensures
        ordered(pushed(state, chunk).partials),
        forall|index: u32|
            routed_to(chunk) != Some(index) ==> #[trigger] open_call(
                pushed(state, chunk).partials,
                index,
            ) == open_call(state.partials, index),
{
    match chunk {
        StreamChunkView::ToolCallStart { index, id, name } => {
            with_call_keeps_order(
                state.partials,
                PartialCallView { index, id, name, args: Seq::empty() },
            );
        },
        StreamChunkView::ToolArgsDelta { index, fragment } => {
            match open_call(state.partials, index) {
                Some(call) => {
                    with_call_keeps_order(
                        state.partials,
                        PartialCallView { args: call.args + fragment, ..call },
                    );
                },
                None => {
                    with_call_keeps_order(
                        state.partials,
                        PartialCallView {
                            index,
                            id: "call_"@ + text::decimal(index as nat),
                            name: Seq::empty(),
                            args: fragment,
                        },
                    );
                },
            }
        },
        StreamChunkView::ToolCallEnd { index } => {
            if open_call(state.partials, index) is Some {
                removal_keeps_order(state.partials, index);
            }
        },
        _ => {},
    }
}

/// Whatever the stream, there is at most one open call per index.
pub proof fn open_calls_have_distinct_indexes(chunks: Seq<StreamChunkView>)
    ensures
        ordered(assembled(chunks).partials),
    decreases chunks.len(),
{
    if chunks.len() > 0 {
        open_calls_have_distinct_indexes(chunks.drop_last());
        calls_are_separated_by_index(assembled(chunks.drop_last()), chunks.last());
    }
}

/// A started call is open at its index, with no arguments yet.
pub proof fn started_calls_are_open(
    state: MessageAssemblerView,
    index: u32,
    id: Seq<char>,
    name: Seq<char>,
)
    requires
        ordered(state.partials),
    ensures
        open_call(
            pushed(state, StreamChunkView::ToolCallStart { index, id, name }).partials,
            index,
        ) == Some(PartialCallView { index, id, name, args: Seq::empty() }),
{
    with_call_keeps_order(
        state.partials,
        PartialCallView { index, id, name, args: Seq::empty() },
    );
}

/// A fragment is appended to the arguments of the call open at its index, and
/// to nothing else; no warning is raised.
pub proof fn fragments_extend_their_call(
    state: MessageAssemblerView,
    index: u32,
    fragment: Seq<char>,
)
    requires
        ordered(state.partials),
        open_call(state.partials, index) is Some,
    ensures
        ({
            let call = open_call(state.partials, index).unwrap();
            let after = pushed(state, StreamChunkView::ToolArgsDelta { index, fragment });
            &&& open_call(after.partials, index) == Some(
                PartialCallView { args: call.args + fragment, ..call },
            )
            &&& after.completed == state.completed
            &&& after.warnings == state.warnings
        }),
{
    let call = open_call(state.partials, index).unwrap();
    slot_bounds(state.partials, index);
    with_call_keeps_order(
        state.partials,
        PartialCallView { args: call.args + fragment, ..call },
    );
}

/// The text deltas of a stream, one after another.
pub open spec fn text_of(chunks: Seq<StreamChunkView>) -> Seq<char>
    decreases chunks.len(),
{
    if chunks.len() == 0 {
        Seq::empty()
    } else {
        match chunks.last() {
            StreamChunkView::TextDelta(delta) => text_of(chunks.drop_last()) + delta,
            _ => text_of(chunks.drop_last()),
        }
    }
}

/// No text is lost: whatever else streamed in, the assembled text is the text
/// deltas in order.
pub proof fn text_survives(chunks: Seq<StreamChunkView>)
    ensures
        assembled(chunks).text == text_of(chunks),
    decreases chunks.len(),
{
    if chunks.len() > 0 {
        text_survives(chunks.drop_last());
    }
}

/// Ascending by index, repetitions allowed.
pub open spec fn ascending(calls: Seq<IndexedCallView>) -> bool {
    forall|i: int, j: int|
        0 <= i <= j < calls.len() ==> (#[trigger] calls[i]).index <= (#[trigger] calls[j]).index
}

pub(crate) proof fn place_bounds(calls: Seq<IndexedCallView>, index: u32)
    ensures
        0 <= place(calls, index) <= calls.len(),
        forall|j: int| 0 <= j < place(calls, index) ==> (#[trigger] calls[j]).index <= index,
        place(calls, index) < calls.len() ==> calls[place(calls, index)].index > index,
    decreases calls.len(),
{
    if calls.len() > 0 && calls[0].index <= index {
        let rest = calls.drop_first();
        place_bounds(rest, index);
        assert forall|j: int| 0 <= j < place(calls, index) implies (
        #[trigger] calls[j]).index <= index by {
            if j > 0 {
                assert(rest[j - 1] == calls[j]);
            }
        }
        let at = place(calls, index);
        if at < calls.len() {
            assert(rest[at - 1] == calls[at]);
        }
    }
}

/// The assembled calls are the sealed ones, each as often as it was sealed,
/// by ascending index; calls of one index keep the order they were sealed in.
pub proof fn calls_come_out_by_index(calls: Seq<IndexedCallView>, index: u32)
    ensures
        ascending(by_index(calls)),
        by_index(calls).to_multiset() == calls.to_multiset(),
        by_index(calls).filter(|c: IndexedCallView| c.index == index) == calls.filter(
            |c: IndexedCallView| c.index == index,
        ),
    decreases calls.len(),
{
    let same = |c: IndexedCallView| c.index == index;
    if calls.len() > 0 {
        let call = calls.last();
        let sorted = by_index(calls.drop_last());
        calls_come_out_by_index(calls.drop_last(), index);
        let at = place(sorted, call.index);
        place_bounds(sorted, call.index);
        let after = by_index(calls);
        assert(after[at] == call);
        assert forall|i: int, j: int| 0 <= i <= j < after.len() implies (
        #[trigger] after[i]).index <= (#[trigger] after[j]).index by {
            if i < at {
                assert(after[i] == sorted[i]);
            } else if i > at {
                assert(after[i] == sorted[i - 1]);
            }
            if j < at {
                assert(after[j] == sorted[j]);
            } else if j > at {
                assert(after[j] == sorted[j - 1]);
                assert(sorted[at].index <= sorted[j - 1].index);
            }
        }
        vstd::seq_lib::to_multiset_insert(sorted, at, call);
        vstd::seq_lib::to_multiset_build(calls.drop_last(), call);
        assert(calls.drop_last().push(call) =~= calls);
        let low = sorted.take(at);
        let high = sorted.skip(at);
        assert(after =~= low + seq![call] + high);
        assert(sorted =~= low + high);
        assert(calls =~= calls.drop_last() + seq![call]);
        Seq::filter_distributes_over_add(low + seq![call], high, same);
        Seq::filter_distributes_over_add(low, seq![call], same);
        Seq::filter_distributes_over_add(low, high, same);
        Seq::filter_distributes_over_add(calls.drop_last(), seq![call], same);
        if call.index == index {
            assert forall|i: int| 0 <= i < high.len() implies !same(#[trigger] high[i]) by {
                assert(high[i] == sorted[at + i]);
                assert(sorted[at].index <= sorted[at + i].index);
            }
            nothing_kept(high, same);
        } else {
            assert forall|i: int| 0 <= i < seq![call].len() implies !same(
                #[trigger] seq![call][i],
            ) by {}
            nothing_kept(seq![call], same);
        }
        assert(after.filter(same) =~= calls.filter(same));
    } else {
        assert(by_index(calls) =~= calls);
    }
}

proof fn nothing_kept(calls: Seq<IndexedCallView>, keep: spec_fn(IndexedCallView) -> bool)
    requires
        forall|i: int| 0 <= i < calls.len() ==> !keep(#[trigger] calls[i]),
    ensures
        calls.filter(keep) == Seq::<IndexedCallView>::empty(),
    decreases calls.len(),
{
    reveal(Seq::filter);
    if calls.len() > 0 {
        assert forall|i: int| 0 <= i < calls.drop_last().len() implies !keep(
            #[trigger] calls.drop_last()[i],
        ) by {
            assert(calls.drop_last()[i] == calls[i]);
        }
        nothing_kept(calls.drop_last(), keep);
        assert(!keep(calls.last()));
    }
}

proof fn call_parts_are_calls(calls: Seq<IndexedCallView>)
    ensures
        message::calls_in(call_parts(calls)) == calls.map_values(|c: IndexedCallView| c.call),
    decreases calls.len(),
{
    if calls.len() > 0 {
        call_parts_are_calls(calls.drop_last());
        assert(call_parts(calls).drop_last() =~= call_parts(calls.drop_last()));
        assert(calls.map_values(|c: IndexedCallView| c.call) =~= calls.drop_last().map_values(
            |c: IndexedCallView| c.call,
        ).push(calls.last().call));
    } else {
        assert(calls.map_values(|c: IndexedCallView| c.call) =~= Seq::empty());
    }
}

proof fn calls_in_sum(a: Seq<ContentPartView>, b: Seq<ContentPartView>)
    ensures
        message::calls_in(a + b) == message::calls_in(a) + message::calls_in(b),
    decreases b.len(),
{
    if b.len() == 0 {
        assert(a + b =~= a);
        assert(message::calls_in(a) + message::calls_in(b) =~= message::calls_in(a));
    } else {
        calls_in_sum(a, b.drop_last());
        assert((a + b).drop_last() =~= a + b.drop_last());
        assert((a + b).last() == b.last());
        assert(message::calls_in(a + b) =~= message::calls_in(a) + message::calls_in(b));
    }
}

/// Quarantine is per call: the finished turn has exactly the sealed calls, and
/// its text where there was any, however many calls were left open or had
/// malformed arguments.
pub proof fn quarantine_keeps_text_and_siblings(state: MessageAssemblerView)
    ensures
        message::calls_in(finished_turn(state).message.content) == by_index(
            state.completed,
        ).map_values(|c: IndexedCallView| c.call),
        state.text.len() > 0 ==> finished_turn(state).message.content.contains(
            ContentPartView::Text { text: state.text },
        ),
{
    let calls = by_index(state.completed);
    let content = turn_content(state);
    let head = content.take(content.len() - calls.len());
    assert(content =~= head + call_parts(calls));
    calls_in_sum(head, call_parts(calls));
    call_parts_are_calls(calls);
    assert(message::calls_in(head) =~= Seq::empty()) by {
        reveal_with_fuel(message::calls_in, 3);
    }
    if state.text.len() > 0 {
        let at = if state.reasoning.len() == 0 {
            0int
        } else {
            1int
        };
        assert(content[at] == ContentPartView::Text { text: state.text });
    }
}

} // verus!
