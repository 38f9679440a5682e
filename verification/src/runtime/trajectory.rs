//! The deterministic replayer: folds one trace's events back into the run
//! state. Total: a trace may end mid-anything.
//!
//! - events are deduplicated by id, the first occurrence wins;
//! - the first `start_run` seeds the history and run metadata, a later one is
//!   ignored;
//! - `llm_response` appends the assistant message; only a successful one
//!   counts as a completed turn;
//! - `tool_call` opens a call, `tool_result` closes it and appends the tool
//!   message; calls never closed are dangling;
//! - an applied `steer` and an injected instruction append their user
//!   message;
//! - requests, folds and the other commands leave the history alone.
use crate::contract::attrs;
use crate::contract::event;
use crate::contract::event::{
    Command, CommandView, Event, EventKind, EventKindView, EventView, ScoreEvent, ScoreEventView,
    Status,
};
use crate::contract::context::InstructionFile;
use crate::contract::message;
use crate::contract::message::{Message, MessageView, Role};
use crate::contract::state::{
    FinishRecord, FinishRecordView, RunState, RunStateView, ToolResultProjection,
    ToolResultProjectionView,
};
use crate::copies::{clone_option, clone_vec};
use crate::runtime::context;
use crate::text;
use vstd::hash_set::StringHashSet;
use vstd::prelude::*;

verus! {

/// The fold of a log so far.
#[verifier::ext_equal]
pub struct FoldView {
    pub provider: Option<Seq<char>>,
    pub model: Option<Seq<char>>,
    pub messages: Seq<MessageView>,
    pub tool_results: Seq<ToolResultProjectionView>,
    pub turns: nat,
    pub warnings: Seq<Seq<char>>,
    pub scores: Seq<ScoreEventView>,
    /// The open calls, in the order they opened.
    pub open_calls: Seq<Seq<char>>,
    pub finished: Option<FinishRecordView>,
    /// The ids seen so far.
    pub seen: Set<Seq<char>>,
    /// Whether the run was opened.
    pub started: bool,
}

/// The fold of the empty log.
pub open spec fn empty_fold() -> FoldView {
    FoldView {
        provider: None,
        model: None,
        messages: Seq::empty(),
        tool_results: Seq::empty(),
        turns: 0,
        warnings: Seq::empty(),
        scores: Seq::empty(),
        open_calls: Seq::empty(),
        finished: None,
        seen: Set::empty(),
        started: false,
    }
}

/// `open` without the first call named `id`.
pub open spec fn closed_call(open: Seq<Seq<char>>, id: Seq<char>) -> Seq<Seq<char>>
    decreases open.len(),
{
    if open.len() == 0 {
        open
    } else if open[0] == id {
        open.drop_first()
    } else {
        seq![open[0]] + closed_call(open.drop_first(), id)
    }
}

/// The approval address that a result event carries: both attributes, each of
/// its type.
pub open spec fn address_of(event: EventView) -> Option<(Seq<char>, usize)> {
    match (
        event::string_under(event.attributes, attrs::APPROVAL_REQUEST_ID@),
        event::unsigned_under(event.attributes, attrs::APPROVAL_CALL_INDEX@),
    ) {
        (Some(request_id), Some(index)) => if index <= usize::MAX {
            Some((request_id, index as usize))
        } else {
            None
        },
        _ => None,
    }
}

/// The message that an event appends to the history.
pub open spec fn appended(event: EventView) -> Option<MessageView> {
    match event.kind {
        EventKindView::Command(CommandView::Steer { text, .. }) => Some(
            message::text_message(Role::User, text),
        ),
        EventKindView::InstructionInjected { path, content } => Some(
            message::text_message(Role::User, context::injected_text(path, content)),
        ),
        EventKindView::LlmResponse { message, .. } => Some(message),
        EventKindView::ToolResult { call_id, result } => Some(
            message::answer(call_id, result, event.error is Some),
        ),
        _ => None,
    }
}

/// The history after an event that is no `start_run`.
pub open spec fn extended(messages: Seq<MessageView>, event: EventView) -> Seq<MessageView> {
    match appended(event) {
        Some(message) => messages.push(message),
        None => messages,
    }
}

/// The fold after one more event with an id not seen before.
pub open spec fn applied(fold: FoldView, event: EventView) -> FoldView {
    match event.kind {
        EventKindView::Command(CommandView::StartRun { base, .. }) => if fold.started {
            fold
        } else {
            FoldView {
                started: true,
                messages: base.messages,
                tool_results: Seq::empty(),
                provider: event::string_under(event.attributes, attrs::PROVIDER@),
                model: event::string_under(event.attributes, attrs::MODEL@),
                ..fold
            }
        },
        EventKindView::LlmResponse { warnings, .. } => FoldView {
            messages: extended(fold.messages, event),
            warnings: fold.warnings + warnings,
            turns: if event.status == Status::Success {
                fold.turns + 1
            } else {
                fold.turns
            },
            ..fold
        },
        EventKindView::ToolCall { call } => FoldView {
            open_calls: fold.open_calls.push(call.id),
            ..fold
        },
        EventKindView::ToolResult { call_id, .. } => FoldView {
            open_calls: closed_call(fold.open_calls, call_id),
            tool_results: match address_of(event) {
                Some((request_id, call_index)) => fold.tool_results.push(
                    ToolResultProjectionView {
                        message_index: fold.messages.len() as usize,
                        request_id,
                        call_index,
                    },
                ),
                None => fold.tool_results,
            },
            messages: extended(fold.messages, event),
            ..fold
        },
        EventKindView::EvalScore(score) => FoldView { scores: fold.scores.push(score), ..fold },
        EventKindView::RunFinished { turns } => FoldView {
            finished: Some(FinishRecordView { turns, status: event.status, error: event.error }),
            ..fold
        },
        _ => FoldView { messages: extended(fold.messages, event), ..fold },
    }
}

/// The fold after one more event.
pub open spec fn stepped(fold: FoldView, event: EventView) -> FoldView {
    if fold.seen.contains(event.id) {
        fold
    } else {
        FoldView { seen: fold.seen.insert(event.id), ..applied(fold, event) }
    }
}

/// The fold of a log.
pub open spec fn folded(events: Seq<EventView>) -> FoldView
    decreases events.len(),
{
    if events.len() == 0 {
        empty_fold()
    } else {
        stepped(folded(events.drop_last()), events.last())
    }
}

/// The run state that a fold comes to.
pub open spec fn state_of(fold: FoldView, trace_id: Seq<char>) -> RunStateView {
    RunStateView {
        trace_id,
        provider: fold.provider,
        model: fold.model,
        messages: fold.messages,
        tool_results: fold.tool_results,
        turns: fold.turns as u32,
        warnings: fold.warnings,
        scores: fold.scores,
        dangling_tool_calls: fold.open_calls,
        finished: fold.finished,
    }
}

/// The run state that a log folds to; the trace is that of its first event.
pub open spec fn replayed(events: Seq<EventView>) -> RunStateView {
    state_of(
        folded(events),
        if events.len() == 0 {
            Seq::empty()
        } else {
            events[0].trace_id
        },
    )
}

/// Folds events one at a time.
struct Fold {
    provider: Option<String>,
    model: Option<String>,
    messages: Vec<Message>,
    tool_results: Vec<ToolResultProjection>,
    turns: u32,
    warnings: Vec<String>,
    scores: Vec<ScoreEvent>,
    open_calls: Vec<String>,
    finished: Option<FinishRecord>,
    seen: StringHashSet,
    started: bool,
}

impl View for Fold {
    type V = FoldView;

    closed spec fn view(&self) -> FoldView {
        FoldView {
            provider: self.provider.deep_view(),
            model: self.model.deep_view(),
            messages: self.messages.deep_view(),
            tool_results: self.tool_results.deep_view(),
            turns: self.turns as nat,
            warnings: self.warnings.deep_view(),
            scores: self.scores.deep_view(),
            open_calls: self.open_calls.deep_view(),
            finished: self.finished.deep_view(),
            seen: self.seen@,
            started: self.started,
        }
    }
}

proof fn closed_call_is(open: Seq<Seq<char>>, id: Seq<char>, at: int)
    requires
        0 <= at <= open.len(),
        forall|j: int| 0 <= j < at ==> #[trigger] open[j] != id,
        at < open.len() ==> open[at] == id,
    ensures
        closed_call(open, id) == (if at < open.len() {
            open.remove(at)
        } else {
            open
        }),
    decreases open.len(),
{
    if at > 0 {
        let rest = open.drop_first();
        assert forall|j: int| 0 <= j < at - 1 implies #[trigger] rest[j] != id by {
            assert(rest[j] == open[j + 1]);
        }
        assert(open[0] != id);
        closed_call_is(rest, id, at - 1);
        if at < open.len() {
            assert(seq![open[0]] + rest.remove(at - 1) =~= open.remove(at));
        } else {
            assert(seq![open[0]] + rest =~= open);
        }
    } else if open.len() > 0 {
        assert(open.drop_first() =~= open.remove(0));
    }
}

impl Fold {
    fn new() -> (r: Fold)
        ensures
            r@ == empty_fold(),
    {
        let r = Fold {
            provider: None,
            model: None,
            messages: Vec::new(),
            tool_results: Vec::new(),
            turns: 0,
            warnings: Vec::new(),
            scores: Vec::new(),
            open_calls: Vec::new(),
            finished: None,
            seen: StringHashSet::new(),
            started: false,
        };
        assert(r@ =~= empty_fold());
        r
    }

    fn append(&mut self, message: Message)
        ensures
            final(self)@ == (FoldView {
                messages: old(self)@.messages.push(message@),
                ..old(self)@
            }),
    {
        let ghost before = self.messages.deep_view();
        self.messages.push(message);
        assert(self.messages.deep_view() =~= before.push(message@));
    }

    fn close_call(&mut self, id: &str)
        ensures
            final(self)@ == (FoldView {
                open_calls: closed_call(old(self)@.open_calls, id@),
                ..old(self)@
            }),
    {
        let ghost open = self.open_calls.deep_view();
        let mut i: usize = 0;
        while i < self.open_calls.len() && !text::same(self.open_calls[i].as_str(), id)
            invariant
                i <= self.open_calls.len(),
                open == self.open_calls.deep_view(),
                forall|j: int| 0 <= j < i ==> #[trigger] open[j] != id@,
            decreases self.open_calls.len() - i,
        {
            assert(open[i as int] == self.open_calls[i as int]@);
            i += 1;
        }
        proof {
            if i < self.open_calls.len() {
                assert(open[i as int] == self.open_calls[i as int]@);
            }
            closed_call_is(open, id@, i as int);
        }
        if i < self.open_calls.len() {
            let _ = self.open_calls.remove(i);
            assert(self.open_calls.deep_view() =~= open.remove(i as int));
        }
    }

    fn warn_all(&mut self, warnings: &Vec<String>)
        ensures
            final(self)@ == (FoldView {
                warnings: old(self)@.warnings + warnings.deep_view(),
                ..old(self)@
            }),
    {
        let ghost all = warnings.deep_view();
        let ghost before = self@;
        let mut i: usize = 0;
        assert(before.warnings + all.take(0) =~= before.warnings);
        while i < warnings.len()
            invariant
                i <= warnings.len(),
                all == warnings.deep_view(),
                self@ == (FoldView { warnings: before.warnings + all.take(i as int), ..before }),
            decreases warnings.len() - i,
        {
            let ghost earlier = self.warnings.deep_view();
            self.warnings.push(warnings[i].clone());
            assert(self.warnings.deep_view() =~= earlier.push(warnings[i as int]@));
            i += 1;
            assert(all.take(i as int) =~= all.take(i as int - 1).push(warnings[i as int - 1]@));
            assert(self.warnings.deep_view() =~= before.warnings + all.take(i as int));
        }
        assert(all.take(i as int) =~= all);
    }

    /// Folds one more event in.
    fn step(&mut self, event: &Event)
        requires
            old(self)@.turns < u32::MAX,
        ensures
            final(self)@ == stepped(old(self)@, event@),
    {
        let ghost start = self@;
        if !self.seen.insert(event.id.clone()) {
            assert(start.seen.insert(event@.id) =~= start.seen);
            return;
        }
        let ghost seen = self@;
        match &event.kind {
            EventKind::Command(Command::StartRun { base, .. }) => {
                if !self.started {
                    self.started = true;
                    self.messages = clone_vec(&base.messages);
                    self.tool_results = Vec::new();
                    self.provider = event.attributes.string(attrs::PROVIDER);
                    self.model = event.attributes.string(attrs::MODEL);
                    assert(self.tool_results.deep_view() =~= Seq::empty());
                }
            },
            EventKind::Command(Command::Steer { text, .. }) => {
                self.append(Message::user(text.as_str()));
            },
            EventKind::InstructionInjected { path, content } => {
                let file = InstructionFile { path: path.clone(), content: content.clone() };
                let text = context::format_injected(&file);
                self.append(Message::user(text.as_str()));
            },
            EventKind::LlmResponse { message, warnings, .. } => {
                self.append(message.clone());
                self.warn_all(warnings);
                if event.status == Status::Success {
                    self.turns = self.turns + 1;
                }
            },
            EventKind::ToolCall { call } => {
                let ghost before = self.open_calls.deep_view();
                self.open_calls.push(call.id.clone());
                assert(self.open_calls.deep_view() =~= before.push(call@.id));
            },
            EventKind::ToolResult { call_id, result } => {
                self.close_call(call_id.as_str());
                let request_id = event.attributes.string(attrs::APPROVAL_REQUEST_ID);
                let call_index = event.attributes.unsigned(attrs::APPROVAL_CALL_INDEX);
                if let (Some(request_id), Some(call_index)) = (request_id, call_index) {
                    if call_index <= usize::MAX as u64 {
                        let ghost before = self.tool_results.deep_view();
                        let projection = ToolResultProjection {
                            message_index: self.messages.len(),
                            request_id,
                            call_index: call_index as usize,
                        };
                        self.tool_results.push(projection);
                        assert(self.tool_results.deep_view() =~= before.push(projection@));
                    }
                }
                let message = if event.error.is_some() {
                    Message::tool_error(call_id.as_str(), result.clone())
                } else {
                    Message::tool_result(call_id.as_str(), result.clone())
                };
                self.append(message);
            },
            EventKind::EvalScore(score) => {
                let ghost before = self.scores.deep_view();
                self.scores.push(score.clone());
                assert(self.scores.deep_view() =~= before.push(score@));
            },
            EventKind::RunFinished { turns } => {
                self.finished = Some(
                    FinishRecord {
                        turns: *turns,
                        status: event.status,
                        error: clone_option(&event.error),
                    },
                );
            },
            EventKind::Command(_) | EventKind::LlmRequest { .. } | EventKind::Fold { .. } => {},
        }
        assert(self@ =~= stepped(start, event@));
    }
}

/// Folds one trace's events into its [`RunState`]. Input order is log order;
/// filter mixed traces by trace id first.
pub fn replay_trace(events: &[Event]) -> (r: RunState)
    requires
        events.len() <= u32::MAX,
    ensures
        r@ == replayed(events.deep_view()),
{
    let ghost all = events.deep_view();
    let mut fold = Fold::new();
    let mut i: usize = 0;
    while i < events.len()
        invariant
            i <= events.len() <= u32::MAX,
            all == events.deep_view(),
            fold@ == folded(all.take(i as int)),
            fold@.turns <= i,
        decreases events.len() - i,
    {
        fold.step(&events[i]);
        assert(all[i as int] == events[i as int]@);
        i += 1;
        assert(all.take(i as int).drop_last() =~= all.take(i as int - 1));
    }
    assert(all.take(i as int) =~= all);
    let trace_id = if events.len() == 0 {
        String::new()
    } else {
        assert(all[0] == events[0]@);
        events[0].trace_id.clone()
    };
    let r = RunState {
        trace_id,
        provider: fold.provider,
        model: fold.model,
        messages: fold.messages,
        tool_results: fold.tool_results,
        turns: fold.turns,
        warnings: fold.warnings,
        scores: fold.scores,
        dangling_tool_calls: fold.open_calls,
        finished: fold.finished,
    };
    assert(r@ =~= replayed(all));
    r
}

/// The place of the latest fresh response: its turn, and the length of the
/// history it was appended to.
pub open spec fn anchored(events: Seq<EventView>) -> Option<(u32, usize)>
    decreases events.len(),
{
    if events.len() == 0 {
        None
    } else {
        let before = folded(events.drop_last());
        let event = events.last();
        if before.seen.contains(event.id) {
            anchored(events.drop_last())
        } else {
            match event.kind {
                EventKindView::Command(CommandView::StartRun { .. }) => if before.started {
                    anchored(events.drop_last())
                } else {
                    None
                },
                EventKindView::LlmResponse { .. } => match event::turn_of(event) {
                    Some(turn) => Some((turn, before.messages.len() as usize)),
                    None => None,
                },
                _ => anchored(events.drop_last()),
            }
        }
    }
}

/// Every history on the way fits into memory.
pub open spec fn fits(events: Seq<EventView>) -> bool {
    forall|k: int|
        0 <= k <= events.len() ==> folded(#[trigger] events.take(k)).messages.len() <= usize::MAX
}

/// The index in [`RunState::messages`] of the message that the latest
/// `llm_response` appended, with that response's turn.
pub fn latest_response_anchor(events: &[Event]) -> (r: Option<(u32, usize)>)
    requires
        fits(events.deep_view()),
    ensures
        r == anchored(events.deep_view()),
{
    let ghost all = events.deep_view();
    let mut seen = StringHashSet::new();
    let mut started = false;
    let mut count: usize = 0;
    let mut latest: Option<(u32, usize)> = None;
    let mut i: usize = 0;
    while i < events.len()
        invariant
            i <= events.len(),
            all == events.deep_view(),
            fits(all),
            seen@ == folded(all.take(i as int)).seen,
            started == folded(all.take(i as int)).started,
            count == folded(all.take(i as int)).messages.len(),
            latest == anchored(all.take(i as int)),
        decreases events.len() - i,
    {
        let ghost now = all.take(i as int + 1);
        assert(now.drop_last() =~= all.take(i as int));
        assert(now.last() == events[i as int]@);
        assert(folded(now).messages.len() <= usize::MAX);
        let event = &events[i];
        i += 1;
        if !seen.insert(event.id.clone()) {
            assert(seen@ =~= folded(all.take(i - 1)).seen);
            continue;
        }
        match &event.kind {
            EventKind::Command(Command::StartRun { base, .. }) => {
                if !started {
                    started = true;
                    count = base.messages.len();
                    latest = None;
                }
            },
            EventKind::LlmResponse { .. } => {
                latest = match event.turn() {
                    Some(turn) => Some((turn, count)),
                    None => None,
                };
                count = count + 1;
            },
            EventKind::Command(Command::Steer { .. }) => {
                count = count + 1;
            },
            EventKind::InstructionInjected { .. } => {
                count = count + 1;
            },
            EventKind::ToolResult { .. } => {
                count = count + 1;
            },
            _ => {},
        }
    }
    assert(all.take(i as int) =~= all);
    latest
}

/// Every id of a log is remembered by its fold.
proof fn ids_are_seen(events: Seq<EventView>, k: int)
    requires
        0 <= k < events.len(),
    ensures
        folded(events).seen.contains(events[k].id),
    decreases events.len(),
{
    if k < events.len() - 1 {
        ids_are_seen(events.drop_last(), k);
        assert(events.drop_last()[k] == events[k]);
    }
}

/// An id that a fold remembers is one of the log's.
pub(crate) proof fn seen_ids_are_there(events: Seq<EventView>, id: Seq<char>) -> (k: int)
    requires
        folded(events).seen.contains(id),
    ensures
        0 <= k < events.len(),
        events[k].id == id,
    decreases events.len(),
{
    if events.last().id == id {
        events.len() - 1
    } else {
        let k = seen_ids_are_there(events.drop_last(), id);
        assert(events.drop_last()[k] == events[k]);
        k
    }
}

/// Whether an event of the log has this id.
pub open spec fn holds_id(events: Seq<EventView>, id: Seq<char>) -> bool {
    exists|k: int| 0 <= k < events.len() && (#[trigger] events[k]).id == id
}

/// The log without its retries: of every id the first event.
pub open spec fn without_retries(events: Seq<EventView>) -> Seq<EventView>
    decreases events.len(),
{
    if events.len() == 0 {
        events
    } else {
        let before = without_retries(events.drop_last());
        if holds_id(events.drop_last(), events.last().id) {
            before
        } else {
            before.push(events.last())
        }
    }
}

proof fn remembered_ids_are_held(events: Seq<EventView>, id: Seq<char>)
    ensures
        folded(events).seen.contains(id) <==> holds_id(events, id),
{
    if folded(events).seen.contains(id) {
        let k = seen_ids_are_there(events, id);
        assert(events[k].id == id);
    }
    if holds_id(events, id) {
        let k = choose|k: int| 0 <= k < events.len() && (#[trigger] events[k]).id == id;
        ids_are_seen(events, k);
    }
}

/// Retried appends fold once: wherever they stand and however many there are,
/// the log folds to what it folds to without them.
pub proof fn retried_events_fold_once(events: Seq<EventView>)
    ensures
        folded(without_retries(events)) == folded(events),
        replayed(without_retries(events)) == replayed(events),
        anchored(without_retries(events)) == anchored(events),
    decreases events.len(),
{
    if events.len() > 0 {
        let earlier = events.drop_last();
        let event = events.last();
        let kept = without_retries(earlier);
        retried_events_fold_once(earlier);
        remembered_ids_are_held(earlier, event.id);
        assert(kept.push(event).drop_last() =~= kept);
        the_first_event_stays(events);
    }
}

proof fn the_first_event_stays(events: Seq<EventView>)
    requires
        events.len() > 0,
    ensures
        without_retries(events).len() > 0,
        without_retries(events)[0] == events[0],
    decreases events.len(),
{
    let earlier = events.drop_last();
    if earlier.len() > 0 {
        the_first_event_stays(earlier);
    } else {
        assert(!holds_id(earlier, events.last().id));
        assert(without_retries(earlier) =~= Seq::empty());
    }
}

/// A second `start_run` is ignored: history, metadata and results stay.
pub proof fn later_starts_are_ignored(events: Seq<EventView>, start: EventView)
    requires
        folded(events).started,
        start.kind matches EventKindView::Command(CommandView::StartRun { .. }),
    ensures
        replayed(events.push(start)).messages == replayed(events).messages,
        replayed(events.push(start)).provider == replayed(events).provider,
        replayed(events.push(start)).model == replayed(events).model,
        replayed(events.push(start)).tool_results == replayed(events).tool_results,
{
    assert(events.push(start).drop_last() =~= events);
}

/// Whether two folds have the same history, and the same told of it.
pub open spec fn same_history(one: FoldView, other: FoldView) -> bool {
    &&& one.messages == other.messages
    &&& one.tool_results == other.tool_results
    &&& one.provider == other.provider
    &&& one.model == other.model
    &&& one.turns == other.turns
    &&& one.warnings == other.warnings
    &&& one.started == other.started
}

/// What only steers the request or audits the run leaves the history as it
/// is, wherever in the log it stands: requests, folds, resolutions,
/// interrupts, tool calls, scores and the terminal record.
pub proof fn assets_leave_the_history(events: Seq<EventView>, at: int, asset: EventView)
    requires
        0 <= at <= events.len(),
        appended(asset) is None,
        !(asset.kind matches EventKindView::Command(CommandView::StartRun { .. })),
        !holds_id(events, asset.id),
    ensures
        same_history(folded(events.insert(at, asset)), folded(events)),
        folded(events.insert(at, asset)).seen == folded(events).seen.insert(asset.id),
        anchored(events.insert(at, asset)) == anchored(events),
    decreases events.len(),
{
    let with = events.insert(at, asset);
    remembered_ids_are_held(events, asset.id);
    if at == events.len() {
        assert(with.drop_last() =~= events);
        assert(with.last() == asset);
    } else {
        let earlier = events.drop_last();
        let event = events.last();
        assert(events[events.len() - 1] == event);
        assert(event.id != asset.id);
        assert(!holds_id(earlier, asset.id)) by {
            if holds_id(earlier, asset.id) {
                let k = choose|k: int|
                    0 <= k < earlier.len() && (#[trigger] earlier[k]).id == asset.id;
                assert(events[k].id == asset.id);
            }
        }
        assets_leave_the_history(earlier, at, asset);
        assert(with.drop_last() =~= earlier.insert(at, asset));
        assert(with.last() == event);
        assert(folded(with).seen =~= folded(events).seen.insert(asset.id));
    }
}

/// Whether an event is recorded for the audit alone: requests, folds,
/// resolutions and interrupts.
pub open spec fn audits(event: EventView) -> bool {
    match event.kind {
        EventKindView::LlmRequest { .. } => true,
        EventKindView::Fold { .. } => true,
        EventKindView::Command(CommandView::ResolveApproval { .. }) => true,
        EventKindView::Command(CommandView::ResolveApprovalCall { .. }) => true,
        EventKindView::Command(CommandView::Interrupt { .. }) => true,
        _ => false,
    }
}

/// What is recorded for the audit alone leaves the whole state as it is,
/// wherever it stands behind the first event.
pub proof fn audits_leave_the_state(events: Seq<EventView>, at: int, audit: EventView)
    requires
        0 <= at <= events.len(),
        audits(audit),
        !holds_id(events, audit.id),
    ensures
        folded(events.insert(at, audit)) == (FoldView {
            seen: folded(events).seen.insert(audit.id),
            ..folded(events)
        }),
        at > 0 ==> replayed(events.insert(at, audit)) == replayed(events),
    decreases events.len(),
{
    let with = events.insert(at, audit);
    remembered_ids_are_held(events, audit.id);
    if at == events.len() {
        assert(with.drop_last() =~= events);
        assert(with.last() == audit);
    } else {
        let earlier = events.drop_last();
        let event = events.last();
        assert(events[events.len() - 1] == event);
        assert(event.id != audit.id);
        assert(!holds_id(earlier, audit.id)) by {
            if holds_id(earlier, audit.id) {
                let k = choose|k: int|
                    0 <= k < earlier.len() && (#[trigger] earlier[k]).id == audit.id;
                assert(events[k].id == audit.id);
            }
        }
        audits_leave_the_state(earlier, at, audit);
        assert(with.drop_last() =~= earlier.insert(at, audit));
        assert(with.last() == event);
        assert(folded(with).seen =~= folded(events).seen.insert(audit.id));
    }
}

/// A history grows at its end: once a run was opened, what was there stays.
pub proof fn history_only_grows(events: Seq<EventView>, event: EventView)
    requires
        folded(events).started,
    ensures
        folded(events.push(event)).started,
        folded(events).messages.is_prefix_of(folded(events.push(event)).messages),
{
    assert(events.push(event).drop_last() =~= events);
}

/// Whether `k` is the latest fresh response of the log, with the given turn.
pub open spec fn latest_response(events: Seq<EventView>, k: int, turn: u32) -> bool {
    &&& 0 <= k < events.len()
    &&& fresh_response(events, k)
    &&& event::turn_of(events[k]) == Some(turn)
    &&& forall|j: int| k < j < events.len() ==> !#[trigger] fresh_response(events, j)
}

/// Whether the `k`th event is a response with an id not seen before it.
pub open spec fn fresh_response(events: Seq<EventView>, k: int) -> bool {
    events[k].kind is LlmResponse && !folded(events.take(k)).seen.contains(events[k].id)
}

/// The anchor agrees with the fold: it names the message of the latest fresh
/// response, and that response's turn.
pub proof fn anchor_points_at_the_latest_response(events: Seq<EventView>) -> (k: int)
    requires
        anchored(events) is Some,
        fits(events),
    ensures
        ({
            let (turn, index) = anchored(events).unwrap();
            &&& latest_response(events, k, turn)
            &&& index < folded(events).messages.len()
            &&& appended(events[k]) == Some(folded(events).messages[index as int])
        }),
    decreases events.len(),
{
    let rest = events.drop_last();
    let before = folded(rest);
    let event = events.last();
    assert(events.take(events.len() - 1) =~= rest);
    assert(fits(rest)) by {
        assert forall|j: int| 0 <= j <= rest.len() implies folded(
            #[trigger] rest.take(j),
        ).messages.len() <= usize::MAX by {
            assert(rest.take(j) =~= events.take(j));
        }
    }
    if !before.seen.contains(event.id) && event.kind is LlmResponse {
        assert(before.messages.len() <= usize::MAX) by {
            assert(folded(events.take(events.len() - 1)).messages.len() <= usize::MAX);
        }
        events.len() - 1
    } else {
        let k = anchor_points_at_the_latest_response(rest);
        assert forall|j: int| k < j < events.len() implies !#[trigger] fresh_response(
            events,
            j,
        ) by {
            if j < rest.len() {
                assert(!fresh_response(rest, j));
                assert(rest.take(j) =~= events.take(j));
            }
        }
        assert(rest.take(k) =~= events.take(k));
        k
    }
}

} // verus!
