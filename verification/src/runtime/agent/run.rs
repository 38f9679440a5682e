//! The run spine: boundary, request, assistant turn and finish line as steps
//! over one state.
use crate::contract::attrs;
use crate::contract::context::{InstructionFile, InstructionFileView, TodoItem, TodoItemView};
use crate::contract::error::{ModelError, ModelErrorView};
use crate::contract::error_kinds;
use crate::contract::event;
use crate::contract::event::{
    Attributes, Command, CommandView, EventError, EventErrorView, EventKind, EventKindView,
    EventView, TurnOutcome,
};
use crate::contract::live::{LiveKind, LiveKindView, ToolCompletion, ToolCompletionView};
use crate::contract::message;
use crate::contract::message::{Message, MessageView, Role, ToolCall, ToolCallView};
use crate::contract::request::{ChatRequest, ChatRequestView, ToolSpec, ToolSpecView};
use crate::contract::stream::{FinishReasonView, StreamChunk, StreamChunkView};
use crate::copies::{clone_option, clone_vec};
use crate::json;
use crate::json::{Value, ValueView};
use crate::pairs;
use crate::runtime::agent::failure;
use crate::runtime::agent::failure::{AgentError, AgentErrorView};
use crate::runtime::agent::fold;
use crate::runtime::agent::fold::{
    FoldPlan, FoldPlanView, FoldPolicy, FoldState, FoldStateView, FoldedMessageView, ResultTrack,
    ResultTrackView,
};
use crate::runtime::agent::gate;
use crate::runtime::agent::gate::{Gate, GateRun, GateView};
use crate::runtime::agent::inbox;
use crate::runtime::agent::inbox::{Inbox, InboxView};
use crate::runtime::agent::ledger;
use crate::runtime::agent::ledger::{Ledger, LedgerView, Output};
use crate::runtime::agent::outcome;
use crate::runtime::agent::outcome::{ToolOutcome, ToolOutcomeView};
use crate::runtime::agent::tool;
use crate::runtime::agent::tool::{ToolDeclaration, ToolDeclarationView};
use crate::runtime::assembler;
use crate::runtime::assembler::{
    AssembledTurn, AssembledTurnView, MessageAssembler, MessageAssemblerView,
};
use crate::runtime::context;
use crate::runtime::context::{FrozenPrefix, FrozenPrefixView};
use crate::runtime::trailer;
use crate::runtime::trailer::{
    GitStatus, GitStatusView, ToolCount, ToolCountView, TrailerTime, TrailerView,
};
use crate::runtime::trajectory;
use crate::text;
use vstd::prelude::*;

verus! {

/// The context that a run is given: the frozen prefix, the working directory
/// that the trailer shows and the policy by which old results are folded.
pub struct ContextBundle {
    pub prefix: FrozenPrefix,
    pub cwd: String,
    pub fold_policy: FoldPolicy,
}

/// What a run is wired with: its tools, its context and its limits.
pub struct AgentLoop {
    pub tools: Vec<ToolDeclaration>,
    pub context: ContextBundle,
    /// The context that the provider declares, in tokens.
    pub max_context: u32,
    pub max_turns: usize,
    /// One run is one trace.
    pub trace_id: String,
    /// Attributes of the start-run event.
    pub run_attributes: Attributes,
}

/// What an [`AgentLoop`] holds.
#[verifier::ext_equal]
pub struct AgentLoopView {
    pub tools: Seq<ToolDeclarationView>,
    pub prefix: FrozenPrefixView,
    pub cwd: Seq<char>,
    pub policy: FoldPolicy,
    pub max_context: u32,
    pub max_turns: usize,
    pub trace_id: Seq<char>,
    pub run_attributes: Seq<(Seq<char>, ValueView)>,
}

impl View for AgentLoop {
    type V = AgentLoopView;

    open spec fn view(&self) -> AgentLoopView {
        AgentLoopView {
            tools: self.tools.deep_view(),
            prefix: self.context.prefix@,
            cwd: self.context.cwd@,
            policy: self.context.fold_policy,
            max_context: self.max_context,
            max_turns: self.max_turns,
            trace_id: self.trace_id@,
            run_attributes: self.run_attributes@,
        }
    }
}

/// One run in progress. Each step takes what happened outside and says what
/// to do next; the effects to perform are taken from it in order.
pub struct Run {
    pub(crate) wiring: AgentLoop,
    pub(crate) ledger: Ledger,
    pub(crate) inbox: Inbox,
    pub(crate) counts: Vec<ToolCount>,
    pub(crate) todos: Vec<TodoItem>,
    pub(crate) fold: FoldState,
    pub(crate) base: ChatRequest,
    pub(crate) messages: Vec<Message>,
    pub(crate) root: String,
    pub(crate) run_start_ms: u64,
    pub(crate) turn: usize,
    pub(crate) turn_span: String,
    pub(crate) assembler: MessageAssembler,
    pub(crate) stopping: Option<Command>,
}

/// What a [`Run`] holds.
#[verifier::ext_equal]
pub struct RunView {
    pub wiring: AgentLoopView,
    pub ledger: LedgerView,
    pub inbox: InboxView,
    /// How often each tool was executed.
    pub counts: Seq<ToolCountView>,
    /// The todo list that was written last.
    pub todos: Seq<TodoItemView>,
    pub fold: FoldStateView,
    /// The request that the run started from.
    pub base: ChatRequestView,
    /// The conversation so far.
    pub messages: Seq<MessageView>,
    /// The run's root span.
    pub root: Seq<char>,
    pub run_start_ms: u64,
    /// The turn in progress, from 1; 0 before the first.
    pub turn: usize,
    /// The span of the turn in progress.
    pub turn_span: Seq<char>,
    /// The assistant turn as far as it has streamed in.
    pub assembler: MessageAssemblerView,
    /// The interrupt that broke the stream off.
    pub stopping: Option<CommandView>,
}

impl View for Run {
    type V = RunView;

    closed spec fn view(&self) -> RunView {
        RunView {
            wiring: self.wiring@,
            ledger: self.ledger@,
            inbox: self.inbox@,
            counts: self.counts.deep_view(),
            todos: self.todos.deep_view(),
            fold: self.fold@,
            base: self.base@,
            messages: self.messages.deep_view(),
            root: self.root@,
            run_start_ms: self.run_start_ms,
            turn: self.turn,
            turn_span: self.turn_span@,
            assembler: self.assembler@,
            stopping: self.stopping.deep_view(),
        }
    }
}

/// The tool specs in wire order.
pub open spec fn specs_of(tools: Seq<ToolDeclarationView>) -> Seq<ToolSpecView> {
    tools.map_values(|t: ToolDeclarationView| t.spec)
}

/// The request that a run starts from: with the wired tools, where there are
/// any.
pub open spec fn wired_base(
    base: ChatRequestView,
    tools: Seq<ToolDeclarationView>,
) -> ChatRequestView {
    if tools.len() == 0 {
        base
    } else {
        ChatRequestView { tools: specs_of(tools), ..base }
    }
}

/// The ledger of a fresh trace.
pub open spec fn fresh_ledger(
    trace_id: Seq<char>,
    numbers: Seq<u64>,
    times: Seq<u64>,
) -> LedgerView {
    LedgerView {
        trace_id,
        floor: 0,
        numbers,
        times,
        outbox: Seq::empty(),
        log: Seq::empty(),
        live: Seq::empty(),
    }
}

/// The event that opens a run.
pub open spec fn start_event(
    wiring: AgentLoopView,
    base: ChatRequestView,
    numbers: Seq<u64>,
    times: Seq<u64>,
) -> EventView {
    EventView {
        attributes: pairs::put(
            wiring.run_attributes,
            attrs::PREFIX_HASH@,
            ValueView::String(wiring.prefix.hash),
        ),
        ..fresh_ledger(wiring.trace_id, numbers, times).minted().envelope(
            ledger::span_id(numbers[0] as nat),
            None,
            EventKindView::Command(
                CommandView::StartRun {
                    base: wired_base(base, wiring.tools),
                    prefix: Some(context::prefix_record(wiring.prefix)),
                },
            ),
        )
    }
}

/// A run right after its start.
pub open spec fn started(
    wiring: AgentLoopView,
    base: ChatRequestView,
    numbers: Seq<u64>,
    times: Seq<u64>,
) -> RunView {
    RunView {
        wiring,
        ledger: fresh_ledger(wiring.trace_id, numbers, times).minted().stamped().emitted(
            start_event(wiring, base, numbers, times),
        ),
        inbox: InboxView {
            resolves: Seq::empty(),
            steers: Seq::empty(),
            interrupt: None,
            seen: Set::empty(),
        },
        counts: Seq::empty(),
        todos: Seq::empty(),
        fold: FoldStateView {
            tracks: Seq::empty(),
            folded: Seq::empty(),
            baseline: 0,
            last_input: None,
        },
        base: wired_base(base, wiring.tools),
        messages: base.messages,
        root: ledger::span_id(numbers[0] as nat),
        run_start_ms: times[0],
        turn: 0,
        turn_span: Seq::empty(),
        assembler: assembler::fresh(),
        stopping: None,
    }
}

/// The log folds to exactly this history.
pub open spec fn mirrors(log: Seq<EventView>, messages: Seq<MessageView>) -> bool {
    &&& trajectory::folded(log).started
    &&& trajectory::folded(log).messages == messages
}

/// Every stand-in keeps the role, the call and the error mark of the message
/// it stands for.
pub open spec fn faithful(folded: Seq<FoldedMessageView>, messages: Seq<MessageView>) -> bool {
    forall|i: int|
        0 <= i < folded.len() ==> {
            let original = messages[(#[trigger] folded[i]).msg_index as int];
            &&& folded[i].message.role == original.role
            &&& folded[i].message.tool_call_id == original.tool_call_id
            &&& folded[i].message.is_error == original.is_error
        }
}

impl RunView {
    /// What holds of a run at every step: the ledger is sound, and replaying
    /// the log gives the live history.
    pub open spec fn sound(self) -> bool {
        &&& self.ledger.sound()
        &&& self.ledger.trace_id == self.wiring.trace_id
        &&& inbox::tidy(self.inbox)
        &&& mirrors(self.ledger.log, self.messages)
        &&& fold::within(self.fold, self.messages.len())
        &&& faithful(self.fold.folded, self.messages)
        &&& trailer::in_name_order(self.counts)
        &&& forall|i: int|
            0 <= i < self.counts.len() ==> (#[trigger] self.counts[i]).count
                <= self.fold.tracks.len()
        &&& self.messages.len() <= usize::MAX
        &&& self.fold.tracks.len() <= usize::MAX
        &&& self.turn <= self.wiring.max_turns
        &&& self.stopping matches Some(command) ==> command is Interrupt
    }

    /// After a client command was received.
    pub open spec fn noted(self, command: CommandView) -> RunView {
        RunView { inbox: inbox::noted(self.inbox, command), ..self }
    }

    /// After a command was recorded.
    pub open spec fn command_recorded(self, command: CommandView, turn: usize) -> RunView {
        RunView {
            ledger: self.ledger.command_recorded(command, self.root, turn),
            ..self
        }
    }

    /// After the terminal record.
    pub open spec fn ended(
        self,
        turns: usize,
        error: Option<EventErrorView>,
    ) -> RunView {
        RunView { ledger: self.ledger.finished(self.root, turns, error), ..self }
    }

    /// After the given steers were applied: each as a user message, recorded
    /// where it takes effect.
    pub open spec fn steered(self, steers: Seq<CommandView>, turn: usize) -> RunView
        decreases steers.len(),
    {
        if steers.len() == 0 {
            self
        } else {
            let before = self.steered(steers.drop_last(), turn);
            match steers.last() {
                CommandView::Steer { text, .. } => RunView {
                    messages: before.messages.push(message::text_message(Role::User, text)),
                    ..before.command_recorded(steers.last(), turn)
                },
                _ => before,
            }
        }
    }

    /// After the buffered steers that apply were applied.
    pub open spec fn steers_applied(self, turn: usize, include_queued: bool) -> RunView {
        let due = inbox::applying(self.inbox.steers, include_queued);
        let rest = InboxView {
            steers: inbox::staying(self.inbox.steers, include_queued),
            ..self.inbox
        };
        RunView { inbox: rest, ..self }.steered(due, turn)
    }

    /// The detail of a run that used up its turns.
    pub open spec fn limit_detail(self) -> EventErrorView {
        EventErrorView {
            kind: error_kinds::TURN_LIMIT@,
            message: failure::agent_error_text(
                AgentErrorView::TurnLimit(self.wiring.max_turns),
            ),
        }
    }

    /// After the boundary before the next turn.
    pub open spec fn boundary_crossed(self) -> RunView {
        if self.turn >= self.wiring.max_turns {
            self.ended(self.wiring.max_turns, Some(self.limit_detail()))
        } else {
            let turn = (self.turn + 1) as usize;
            let next = RunView { turn, ..self };
            match self.inbox.interrupt {
                Some(command) => RunView {
                    inbox: InboxView { interrupt: None, ..self.inbox },
                    ..next
                }.command_recorded(command, turn).ended(
                    self.turn,
                    Some(failure::interruption()),
                ),
                None => {
                    let steered = next.steers_applied(turn, false);
                    RunView {
                        turn_span: ledger::span_id(steered.ledger.next_id()),
                        ledger: steered.ledger.minted(),
                        ..steered
                    }
                },
            }
        }
    }

    /// What the boundary decides.
    pub open spec fn boundary(self) -> BoundaryView {
        if self.turn >= self.wiring.max_turns {
            BoundaryView::Ended(AgentErrorView::TurnLimit(self.wiring.max_turns))
        } else if self.inbox.interrupt is Some {
            BoundaryView::Ended(AgentErrorView::Interrupted)
        } else {
            let crossed = self.boundary_crossed();
            BoundaryView::Open {
                plan: fold::planned(
                    crossed.fold,
                    crossed.messages,
                    context::bytes_of(self.wiring.prefix.text).len(),
                    self.wiring.max_context,
                    self.wiring.policy,
                    crossed.turn,
                ),
            }
        }
    }

    /// After a planned fold whose artifacts were written.
    pub open spec fn fold_committed(
        self,
        plan: FoldPlanView,
        spills: Seq<Seq<char>>,
    ) -> RunView {
        RunView {
            ledger: self.ledger.minted().turn_recorded(
                ledger::span_id(self.ledger.next_id()),
                self.root,
                self.turn,
                fold::directive(plan, spills),
                None,
            ),
            fold: fold::folded_state(self.fold, self.messages, plan, spills),
            ..self
        }
    }

    /// The trailer of the upcoming request.
    pub open spec fn trailer(
        self,
        git: Option<GitStatusView>,
        offset_minutes: i32,
    ) -> Seq<char> {
        trailer::trailer_text(
            self.wiring.cwd,
            git,
            Some(
                TrailerTime {
                    now_ms: self.ledger.times[0],
                    run_start_ms: self.run_start_ms,
                    offset_seconds: trailer::clock_offset(offset_minutes),
                },
            ),
            self.counts,
            self.todos,
        )
    }

    /// The upcoming request: frozen prefix, history as sent, fresh trailer.
    pub open spec fn request(
        self,
        git: Option<GitStatusView>,
        offset_minutes: i32,
    ) -> ChatRequestView {
        ChatRequestView {
            messages: seq![message::text_message(Role::System, self.wiring.prefix.text)]
                + fold::sent_history(self.messages, self.fold.folded)
                + seq![
                message::text_message(Role::User, self.trailer(git, offset_minutes)),
            ],
            ..self.base
        }
    }

    /// After the request was recorded. The trailer and the record each have a
    /// reading of their own.
    pub open spec fn requested(
        self,
        git: Option<GitStatusView>,
        offset_minutes: i32,
    ) -> RunView {
        RunView {
            ledger: self.ledger.timed().turn_recorded(
                self.turn_span,
                self.root,
                self.turn,
                EventKindView::LlmRequest {
                    trailer: Some(self.trailer(git, offset_minutes)),
                },
                None,
            ),
            assembler: assembler::fresh(),
            stopping: None,
            ..self
        }
    }

    /// After the provider refused the call.
    pub open spec fn refused(self, error: ModelErrorView) -> RunView {
        self.ended(self.completed(), Some(failure::model_detail(error)))
    }

    /// After a chunk: published before it is folded.
    pub open spec fn chunk_pushed(self, chunk: StreamChunkView) -> RunView {
        RunView {
            ledger: self.ledger.published(
                LiveKindView::AssistantDelta { turn: ledger::shown_turn(self.turn), chunk },
            ),
            assembler: assembler::pushed(self.assembler, chunk),
            ..self
        }
    }

    /// After the mid-stream look for an interrupt.
    pub open spec fn interrupt_checked(self) -> RunView {
        RunView {
            stopping: self.inbox.interrupt,
            inbox: InboxView { interrupt: None, ..self.inbox },
            ..self
        }
    }

    /// After the assistant turn was recorded, failed where `error` says so.
    pub open spec fn response_recorded(
        self,
        turn: AssembledTurnView,
        error: Option<EventErrorView>,
    ) -> RunView {
        RunView {
            ledger: self.ledger.turn_recorded(
                self.turn_span,
                self.root,
                self.turn,
                failure::response_payload(turn),
                error,
            ),
            messages: self.messages.push(turn.message),
            ..self
        }
    }

    /// The number of turns completed before this one.
    pub open spec fn completed(self) -> usize {
        (self.turn - 1) as usize
    }

    /// The detail of an empty turn.
    pub open spec fn empty_detail(self, finish: FinishReasonView) -> EventErrorView {
        EventErrorView {
            kind: error_kinds::EMPTY_TURN@,
            message: failure::agent_error_text(AgentErrorView::EmptyTurn { finish }),
        }
    }

    /// After the stream ended, with the given error where it broke.
    pub open spec fn stream_closed(self, error: Option<ModelErrorView>) -> RunView {
        let turn = assembler::finished_turn(self.assembler);
        match (error, self.stopping) {
            (Some(error), _) => {
                let detail = Some(failure::model_detail(error));
                self.response_recorded(turn, detail).ended(self.completed(), detail)
            },
            (None, Some(command)) => {
                let detail = Some(failure::interruption());
                self.command_recorded(command, self.turn).response_recorded(
                    turn,
                    detail,
                ).ended(self.completed(), detail)
            },
            (None, None) => if turn.outcome == TurnOutcome::Empty {
                let detail = Some(self.empty_detail(turn.finish));
                self.response_recorded(turn, detail).ended(self.completed(), detail)
            } else {
                let recorded = self.response_recorded(turn, None);
                RunView {
                    fold: FoldStateView {
                        last_input: match turn.usage {
                            Some(usage) => Some(usage.input),
                            None => self.fold.last_input,
                        },
                        ..self.fold
                    },
                    ..recorded
                }
            },
        }
    }

    /// What the end of the stream comes to.
    pub open spec fn turn_end(self, error: Option<ModelErrorView>) -> TurnEndView {
        let turn = assembler::finished_turn(self.assembler);
        match (error, self.stopping) {
            (Some(error), _) => TurnEndView::Failed(AgentErrorView::Provider(error)),
            (None, Some(_)) => TurnEndView::Failed(AgentErrorView::Interrupted),
            (None, None) => if turn.outcome == TurnOutcome::Empty {
                TurnEndView::Failed(AgentErrorView::EmptyTurn { finish: turn.finish })
            } else {
                TurnEndView::Done { turn, calls: message::calls_in(turn.message.content) }
            },
        }
    }

    /// Whether the run goes on at its finish line: a queued steer continues
    /// it, unless an interrupt is pending, which is moot by then.
    pub open spec fn goes_on(self) -> bool {
        self.inbox.interrupt is None && inbox::applying(self.inbox.steers, true).len() > 0
    }

    /// After the finish line.
    pub open spec fn finish_line_crossed(self) -> RunView {
        let looked = RunView { inbox: InboxView { interrupt: None, ..self.inbox }, ..self };
        if self.goes_on() {
            looked.steers_applied((self.turn + 1) as usize, true)
        } else if self.inbox.interrupt is None {
            looked.steers_applied((self.turn + 1) as usize, true).ended(self.turn, None)
        } else {
            looked.ended(self.turn, None)
        }
    }

    /// After the given instruction files were injected: each as a user
    /// message of its own.
    pub open spec fn injected(self, files: Seq<InstructionFileView>) -> RunView
        decreases files.len(),
    {
        if files.len() == 0 {
            self
        } else {
            let before = self.injected(files.drop_last());
            let file = files.last();
            RunView {
                ledger: before.ledger.minted().turn_recorded(
                    ledger::span_id(before.ledger.next_id()),
                    before.root,
                    before.turn,
                    EventKindView::InstructionInjected { path: file.path, content: file.content },
                    None,
                ),
                messages: before.messages.push(
                    message::text_message(
                        Role::User,
                        context::injected_text(file.path, file.content),
                    ),
                ),
                ..before
            }
        }
    }
}

/// What the boundary before a turn comes to.
pub enum Boundary {
    /// The run is over.
    Ended(AgentError),
    /// The turn is open; where a fold is due, its artifacts are to be written
    /// and the fold committed before the request.
    Open { plan: Option<FoldPlan> },
}

/// What a [`Boundary`] holds.
#[verifier::ext_equal]
pub enum BoundaryView {
    Ended(AgentErrorView),
    Open { plan: Option<FoldPlanView> },
}

impl View for Boundary {
    type V = BoundaryView;

    open spec fn view(&self) -> BoundaryView {
        match *self {
            Boundary::Ended(error) => BoundaryView::Ended(error@),
            Boundary::Open { plan } => BoundaryView::Open { plan: plan.deep_view() },
        }
    }
}

/// What the end of an assistant turn comes to.
pub enum TurnEnd {
    /// The run is over.
    Failed(AgentError),
    /// The turn stands; with calls it goes on to dispatch, without to the
    /// finish line.
    Done { turn: AssembledTurn, calls: Vec<ToolCall> },
}

/// What a [`TurnEnd`] holds.
#[verifier::ext_equal]
pub enum TurnEndView {
    Failed(AgentErrorView),
    Done { turn: AssembledTurnView, calls: Seq<ToolCallView> },
}

impl View for TurnEnd {
    type V = TurnEndView;

    open spec fn view(&self) -> TurnEndView {
        match *self {
            TurnEnd::Failed(error) => TurnEndView::Failed(error@),
            TurnEnd::Done { turn, calls } => TurnEndView::Done {
                turn: turn@,
                calls: calls.deep_view(),
            },
        }
    }
}

/// The outcome of a completed run.
#[derive(Debug, PartialEq, Eq)]
pub struct RunOutcome {
    /// The full history, with every appended assistant and tool message.
    pub messages: Vec<Message>,
    /// The assistant turn that ended the run without calls.
    pub final_turn: AssembledTurn,
    /// How many assistant turns ran.
    pub turns: usize,
}

/// What a [`RunOutcome`] holds.
#[verifier::ext_equal]
pub struct RunOutcomeView {
    pub messages: Seq<MessageView>,
    pub final_turn: AssembledTurnView,
    pub turns: usize,
}

impl View for RunOutcome {
    type V = RunOutcomeView;

    open spec fn view(&self) -> RunOutcomeView {
        RunOutcomeView {
            messages: self.messages.deep_view(),
            final_turn: self.final_turn@,
            turns: self.turns,
        }
    }
}

/// Recording a freshly minted event keeps the history mirrored: the log then
/// folds to the history with what the event appends.
pub proof fn recording_mirrors(
    ledger: LedgerView,
    messages: Seq<MessageView>,
    event: EventView,
)
    requires
        ledger.sound(),
        mirrors(ledger.log, messages),
        ledger.room(1),
        event.id == ledger::event_id(ledger.next_id()),
    ensures
        mirrors(
            ledger.stamped().emitted(event).log,
            match event.kind {
                EventKindView::Command(CommandView::StartRun { .. }) => messages,
                _ => trajectory::extended(messages, event),
            },
        ),
{
    if trajectory::folded(ledger.log).seen.contains(event.id) {
        let k = trajectory::seen_ids_are_there(ledger.log, event.id);
        ledger::ids_are_fresh(ledger, k);
    }
    assert(ledger.log.push(event).drop_last() =~= ledger.log);
}

/// Stand-ins stay faithful as the history grows.
proof fn faithful_grows(
    fold: FoldStateView,
    messages: Seq<MessageView>,
    longer: Seq<MessageView>,
)
    requires
        faithful(fold.folded, messages),
        fold::within(fold, messages.len()),
        messages.is_prefix_of(longer),
    ensures
        faithful(fold.folded, longer),
        fold::within(fold, longer.len()),
{
    assert forall|i: int| 0 <= i < fold.folded.len() implies {
        let original = longer[(#[trigger] fold.folded[i]).msg_index as int];
        &&& fold.folded[i].message.role == original.role
        &&& fold.folded[i].message.tool_call_id == original.tool_call_id
        &&& fold.folded[i].message.is_error == original.is_error
    } by {
        let at = fold.folded[i].msg_index as int;
        assert(at < messages.len());
        assert(longer[at] == messages[at]);
    }
}

/// The tool specs in wire order.
pub fn tool_specs(tools: &Vec<ToolDeclaration>) -> (r: Vec<ToolSpec>)
    ensures
        r.deep_view() == specs_of(tools.deep_view()),
{
    let ghost all = specs_of(tools.deep_view());
    let mut out: Vec<ToolSpec> = Vec::new();
    let mut i: usize = 0;
    while i < tools.len()
        invariant
            i <= tools.len(),
            all == specs_of(tools.deep_view()),
            out.len() == i,
            out.deep_view() == all.take(i as int),
        decreases tools.len() - i,
    {
        out.push(tools[i].spec.clone());
        assert(tools.deep_view()[i as int] == tools[i as int]@);
        i += 1;
        assert(out.deep_view() =~= all.take(i as int));
    }
    assert(all.take(i as int) =~= all);
    out
}

impl AgentLoop {
    /// Starts a run from `base.messages`: every other parameter of the request
    /// is reused each turn.
    pub fn run(self, base: &ChatRequest, numbers: Vec<u64>, times: Vec<u64>) -> (r: Run)
        requires
            ledger::ascending(numbers@, 0),
            numbers.len() >= 2,
            times.len() >= 1,
        ensures
            r@ == started(self@, base@, numbers@, times@),
            r@.sound(),
    {
        let ghost wiring = self@;
        let messages = clone_vec(&base.messages);
        let mut wired = base.clone();
        if self.tools.len() > 0 {
            wired.tools = tool_specs(&self.tools);
        }
        assert(wired@ == wired_base(base@, wiring.tools));
        let mut ledger = Ledger::new(self.trace_id.as_str());
        let ghost drawn = numbers@;
        let ghost readings = times@;
        let run_start_ms: u64 = times[0];
        ledger.supply(numbers, times);
        assert(ledger@ =~= fresh_ledger(wiring.trace_id, drawn, readings));
        let root = ledger.next_span();
        let ghost before = ledger@;
        let mut event = ledger.envelope(
            root.as_str(),
            None,
            EventKind::Command(
                Command::StartRun {
                    base: Box::new(wired.clone()),
                    prefix: Some(self.context.prefix.record()),
                },
            ),
        );
        let mut attributes = self.run_attributes.clone();
        attributes.insert(attrs::PREFIX_HASH, Value::string(self.context.prefix.hash()));
        event.attributes = attributes;
        assert(event@ =~= start_event(wiring, base@, drawn, readings));
        proof {
            ledger::emitting_is_sound(before, event@);
        }
        let ghost start = event@;
        ledger.emit(event);
        proof {
            let log = ledger@.log;
            assert(log =~= seq![start]);
            assert(log.drop_last() =~= Seq::empty());
            assert(trajectory::folded(log.drop_last()) == trajectory::empty_fold());
        }
        let counts: Vec<ToolCount> = Vec::new();
        let todos: Vec<TodoItem> = Vec::new();
        assert(counts.deep_view() =~= Seq::empty());
        assert(todos.deep_view() =~= Seq::empty());
        let length: usize = messages.len();
        assert(messages.deep_view().len() == length);
        let r = Run {
            wiring: self,
            ledger,
            inbox: Inbox::new(),
            counts,
            todos,
            fold: FoldState::new(),
            base: wired,
            messages,
            root,
            run_start_ms,
            turn: 0,
            turn_span: String::new(),
            assembler: MessageAssembler::new(),
            stopping: None,
        };
        assert(r@ =~= started(wiring, base@, drawn, readings));
        r
    }
}

impl Run {
    /// The effects to perform, in order.
    pub fn take_outputs(&mut self) -> (r: Vec<Output>)
        ensures
            r.deep_view() == old(self)@.ledger.outbox,
            final(self)@ == (RunView {
                ledger: LedgerView { outbox: Seq::empty(), ..old(self)@.ledger },
                ..old(self)@
            }),
            old(self)@.sound() ==> final(self)@.sound(),
    {
        self.ledger.take_outputs()
    }

    /// How many numbers are at hand.
    pub fn numbers_left(&self) -> (r: usize)
        ensures
            r == self@.ledger.numbers.len(),
    {
        self.ledger.numbers_left()
    }

    /// Whether these numbers may follow those at hand.
    pub fn accepts(&self, numbers: &Vec<u64>) -> (r: bool)
        ensures
            r == self@.ledger.follows(numbers@),
    {
        self.ledger.accepts(numbers)
    }

    /// Takes in numbers drawn from the sequence, and fresh readings of the
    /// clock in place of those left over.
    pub fn supply(&mut self, numbers: Vec<u64>, times: Vec<u64>)
        requires
            old(self)@.ledger.follows(numbers@),
        ensures
            final(self)@ == (RunView {
                ledger: old(self)@.ledger.supplied(numbers@, times@),
                ..old(self)@
            }),
            old(self)@.sound() ==> final(self)@.sound(),
    {
        self.ledger.supply(numbers, times);
    }

    /// Whether `n` numbers and `n` readings are at hand.
    pub fn has_room(&self, n: u128) -> (r: bool)
        ensures
            r == self@.ledger.room(n as nat),
    {
        self.ledger.has_room(n)
    }

    /// The conversation so far.
    pub fn messages(&self) -> (r: &Vec<Message>)
        ensures
            r.deep_view() == self@.messages,
    {
        &self.messages
    }

    /// The turn in progress.
    pub fn turn(&self) -> (r: usize)
        ensures
            r == self@.turn,
    {
        self.turn
    }

    /// How many turns the run may have.
    pub fn max_turns(&self) -> (r: usize)
        ensures
            r == self@.wiring.max_turns,
    {
        self.wiring.max_turns
    }

    /// How many steers wait to be applied.
    pub fn steer_count(&self) -> (r: usize)
        ensures
            r == self@.inbox.steers.len(),
    {
        self.inbox.steer_count()
    }

    /// How many resolves wait to be applied.
    pub fn resolve_count(&self) -> (r: usize)
        ensures
            r == self@.inbox.resolves.len(),
    {
        self.inbox.resolve_count()
    }

    /// Takes in one received command.
    pub fn note(&mut self, command: Command)
        ensures
            final(self)@ == old(self)@.noted(command@),
            old(self)@.sound() ==> final(self)@.sound(),
    {
        self.inbox.note(command);
    }

    /// Records a command that leaves the history alone.
    pub(crate) fn record_command(&mut self, command: Command, turn: usize)
        requires
            old(self)@.sound(),
            old(self)@.ledger.room(2),
            command@ is Interrupt,
        ensures
            final(self)@ == old(self)@.command_recorded(command@, turn),
            final(self)@.sound(),
    {
        proof {
            let ledger = self@.ledger.minted();
            let event = ledger.turn_envelope(
                ledger::span_id(self@.ledger.next_id()),
                self@.root,
                turn,
                EventKindView::Command(command@),
            );
            recording_mirrors(ledger, self@.messages, event);
        }
        self.ledger.record_command(command, self.root.as_str(), turn);
    }

    /// Writes the terminal record.
    pub(crate) fn finish_with(&mut self, turns: usize, error: Option<EventError>)
        requires
            old(self)@.sound(),
            old(self)@.ledger.room(1),
        ensures
            final(self)@ == old(self)@.ended(turns, error.deep_view()),
            final(self)@.sound(),
    {
        proof {
            let plain = self@.ledger.envelope(
                self@.root,
                None,
                EventKindView::RunFinished { turns: ledger::shown_turn(turns) },
            );
            let event = match error.deep_view() {
                Some(error) => event::failed(plain, error),
                None => plain,
            };
            recording_mirrors(self@.ledger, self@.messages, event);
        }
        self.ledger.finish_with(self.root.as_str(), turns, error);
    }

    /// Applies the given steers as user messages, each recorded where it
    /// takes effect.
    fn steer_all(&mut self, steers: &Vec<Command>, turn: usize)
        requires
            old(self)@.sound(),
            old(self)@.ledger.room(2 * steers.len() as nat),
        ensures
            final(self)@ == old(self)@.steered(steers.deep_view(), turn),
            final(self)@.sound(),
            old(self)@.ledger.left() <= final(self)@.ledger.left() + 2 * steers.len(),
            final(self)@.turn == old(self)@.turn,
            final(self)@.wiring == old(self)@.wiring,
            final(self)@.inbox == old(self)@.inbox,
    {
        let ghost start = self@;
        let ghost all = steers.deep_view();
        let mut i: usize = 0;
        while i < steers.len()
            invariant
                i <= steers.len(),
                all == steers.deep_view(),
                start.ledger.room(2 * steers.len() as nat),
                self@ == start.steered(all.take(i as int), turn),
                self@.sound(),
                start.ledger.left() <= self@.ledger.left() + 2 * i,
                self@.turn == start.turn,
                self@.wiring == start.wiring,
                self@.inbox == start.inbox,
            decreases steers.len() - i,
        {
            let ghost now_steers = all.take(i as int + 1);
            assert(now_steers.drop_last() =~= all.take(i as int));
            assert(now_steers.last() == steers[i as int]@);
            if let Command::Steer { text, .. } = &steers[i] {
                let ghost before = self@;
                proof {
                    let ledger = before.ledger.minted();
                    let event = ledger.turn_envelope(
                        ledger::span_id(before.ledger.next_id()),
                        before.root,
                        turn,
                        EventKindView::Command(steers[i as int]@),
                    );
                    recording_mirrors(ledger, before.messages, event);
                }
                let ghost history = self.messages.deep_view();
                self.messages.push(Message::user(text.as_str()));
                assert(self.messages.deep_view() =~= history.push(
                    message::text_message(Role::User, text@),
                ));
                self.ledger.record_command(steers[i].clone(), self.root.as_str(), turn);
                let length: usize = self.messages.len();
                assert(self@.messages.len() == length);
                assert(faithful(self@.fold.folded, self@.messages)) by {
                    faithful_grows(before.fold, before.messages, self@.messages);
                }
            }
            i += 1;
        }
        assert(all.take(i as int) =~= all);
    }

    /// Applies the buffered steers that are due; says how many there were.
    fn apply_steers(&mut self, turn: usize, include_queued: bool) -> (r: usize)
        requires
            old(self)@.sound(),
            old(self)@.ledger.room(2 * old(self)@.inbox.steers.len()),
        ensures
            final(self)@ == old(self)@.steers_applied(turn, include_queued),
            final(self)@.sound(),
            r == inbox::applying(old(self)@.inbox.steers, include_queued).len(),
            old(self)@.ledger.left() <= final(self)@.ledger.left() + 2 * old(self)@.inbox.steers.len(),
            final(self)@.turn == old(self)@.turn,
            final(self)@.wiring == old(self)@.wiring,
    {
        proof {
            inbox::steers_are_partitioned(self@.inbox.steers, include_queued);
        }
        let steers = self.inbox.take_steers(include_queued);
        assert(steers.deep_view().len() == steers.len());
        self.steer_all(&steers, turn);
        steers.len()
    }

    /// The boundary before a turn: the turn limit, a pending interrupt, the
    /// buffered steers, and whether a fold is due.
    pub fn begin_turn(&mut self) -> (r: Boundary)
        requires
            old(self)@.sound(),
            old(self)@.ledger.room(2 * old(self)@.inbox.steers.len() + 3),
        ensures
            r@ == old(self)@.boundary(),
            final(self)@ == old(self)@.boundary_crossed(),
            final(self)@.sound(),
            r is Open ==> final(self)@.turn == old(self)@.turn + 1,
            r matches Boundary::Open { plan: Some(plan) } ==> fold::plan_within(
                plan@,
                final(self)@.messages.len(),
            ),
    {
        if self.turn >= self.wiring.max_turns {
            let error = AgentError::TurnLimit(self.wiring.max_turns);
            let detail = EventError {
                kind: error_kinds::TURN_LIMIT.to_owned(),
                message: error.to_text(),
            };
            let turns: usize = self.wiring.max_turns;
            self.finish_with(turns, Some(detail));
            return Boundary::Ended(error);
        }
        let completed: usize = self.turn;
        self.turn = self.turn + 1;
        let turn: usize = self.turn;
        match self.inbox.take_interrupt() {
            Some(command) => {
                self.record_command(command, turn);
                self.finish_with(completed, Some(failure::interrupted_detail()));
                Boundary::Ended(AgentError::Interrupted)
            },
            None => {
                let _ = self.apply_steers(turn, false);
                self.turn_span = self.ledger.next_span();
                let prefix_bytes: usize = self.wiring.context.prefix.byte_len();
                let length: usize = self.messages.len();
                assert(self@.messages.len() == length);
                let plan = self.fold.plan(
                    &self.messages,
                    prefix_bytes,
                    self.wiring.max_context,
                    &self.wiring.context.fold_policy,
                    turn,
                );
                Boundary::Open { plan }
            },
        }
    }
}

/// The roles, calls and error marks of fresh stand-ins are those of what they
/// stand for.
proof fn folding_is_faithful(
    state: FoldStateView,
    messages: Seq<MessageView>,
    plan: FoldPlanView,
    spills: Seq<Seq<char>>,
)
    requires
        faithful(state.folded, messages),
    ensures
        faithful(fold::folded_state(state, messages, plan, spills).folded, messages),
{
    let after = fold::folded_state(state, messages, plan, spills).folded;
    let made = fold::stand_ins(messages, plan.orders, spills);
    assert forall|i: int| 0 <= i < after.len() implies {
        let original = messages[(#[trigger] after[i]).msg_index as int];
        &&& after[i].message.role == original.role
        &&& after[i].message.tool_call_id == original.tool_call_id
        &&& after[i].message.is_error == original.is_error
    } by {
        if i < state.folded.len() {
            assert(after[i] == state.folded[i]);
        } else {
            assert(after[i] == made[i - state.folded.len()]);
        }
    }
}

impl Run {
    /// Records a turn's event that leaves the history alone.
    pub(crate) fn record_asset(&mut self, span: &str, kind: EventKind)
        requires
            old(self)@.sound(),
            old(self)@.ledger.room(1),
            kind@ is LlmRequest || kind@ is Fold || kind@ is ToolCall,
        ensures
            final(self)@ == (RunView {
                ledger: old(self)@.ledger.turn_recorded(
                    span@,
                    old(self)@.root,
                    old(self)@.turn,
                    kind@,
                    None,
                ),
                ..old(self)@
            }),
            final(self)@.sound(),
    {
        proof {
            recording_mirrors(
                self@.ledger,
                self@.messages,
                self@.ledger.turn_envelope(span@, self@.root, self@.turn, kind@),
            );
        }
        self.ledger.record(span, self.root.as_str(), self.turn, kind, None);
    }

    /// Commits a planned fold once its artifacts are written: the directive
    /// is recorded, and later requests carry the stand-ins.
    pub fn commit_fold(&mut self, plan: &FoldPlan, spills: &Vec<String>)
        requires
            old(self)@.sound(),
            old(self)@.ledger.room(2),
            fold::plan_within(plan@, old(self)@.messages.len()),
            spills.len() == plan.orders.len(),
        ensures
            final(self)@ == old(self)@.fold_committed(plan@, spills.deep_view()),
            final(self)@.sound(),
    {
        let ghost start = self@;
        let length: usize = self.messages.len();
        assert(self@.messages.len() == length);
        let span = self.ledger.next_span();
        let refs = self.fold.apply(&self.messages, plan, spills);
        proof {
            folding_is_faithful(start.fold, start.messages, plan@, spills.deep_view());
        }
        self.record_asset(
            span.as_str(),
            EventKind::Fold { folded: refs, estimate: plan.estimate, estimator: plan.estimator },
        );
        assert(self@ =~= start.fold_committed(plan@, spills.deep_view()));
    }

    /// Renders and records the turn's request: the frozen prefix, the history
    /// as it is sent, and the fresh trailer, which never enters the history.
    pub fn open_request(
        &mut self,
        git: Option<GitStatus>,
        offset_minutes: i32,
    ) -> (r: ChatRequest)
        requires
            old(self)@.sound(),
            old(self)@.ledger.room(2),
        ensures
            r@ == old(self)@.request(git.deep_view(), offset_minutes),
            final(self)@ == old(self)@.requested(git.deep_view(), offset_minutes),
            final(self)@.sound(),
    {
        let ghost start = self@;
        let ghost probed = git.deep_view();
        let now_ms: u64 = self.ledger.take_time();
        let ghost timed = self@;
        assert(timed == RunView { ledger: start.ledger.timed(), ..start });
        let text = trailer::render_trailer(
            &TrailerView {
                cwd: self.wiring.context.cwd.as_str(),
                git,
                time: Some(
                    TrailerTime {
                        now_ms,
                        run_start_ms: self.run_start_ms,
                        offset_seconds: trailer::offset_seconds(offset_minutes),
                    },
                ),
                tool_counts: &self.counts,
                todos: &self.todos,
            },
        );
        assert(text@ == start.trailer(probed, offset_minutes));
        let ghost sent = fold::sent_history(start.messages, start.fold.folded);
        let ghost system = message::text_message(Role::System, start.wiring.prefix.text);
        let mut rendered: Vec<Message> = Vec::new();
        rendered.push(self.wiring.context.prefix.message());
        assert(rendered.deep_view() =~= seq![system] + sent.take(0));
        let mut i: usize = 0;
        while i < self.messages.len()
            invariant
                i <= self.messages.len(),
                self@ == timed,
                sent == fold::sent_history(start.messages, start.fold.folded),
                timed == (RunView { ledger: start.ledger.timed(), ..start }),
                rendered.deep_view() == seq![system] + sent.take(i as int),
            decreases self.messages.len() - i,
        {
            let ghost before = rendered.deep_view();
            rendered.push(self.fold.sent(&self.messages, i));
            assert(rendered.deep_view() =~= before.push(sent[i as int]));
            i += 1;
            assert(rendered.deep_view() =~= seq![system] + sent.take(i as int));
        }
        assert(sent.take(i as int) =~= sent);
        let ghost before = rendered.deep_view();
        rendered.push(Message::user(text.as_str()));
        assert(rendered.deep_view() =~= before + seq![
            message::text_message(Role::User, text@),
        ]);
        let request = self.base.clone().with_messages(rendered);
        assert(request@ =~= start.request(probed, offset_minutes));
        let span = self.turn_span.clone();
        self.record_asset(span.as_str(), EventKind::LlmRequest { trailer: Some(text) });
        self.assembler = MessageAssembler::new();
        self.stopping = None;
        assert(self@ =~= start.requested(probed, offset_minutes));
        request
    }

    /// The provider call failed before any stream: the turn's span stays
    /// open and the run ends.
    pub fn call_failed(&mut self, error: ModelError) -> (r: AgentError)
        requires
            old(self)@.sound(),
            old(self)@.ledger.room(1),
            old(self)@.turn >= 1,
        ensures
            r@ == AgentErrorView::Provider(error@),
            final(self)@ == old(self)@.refused(error@),
            final(self)@.sound(),
    {
        let detail = failure::model_event_error(&error);
        let completed: usize = self.turn - 1;
        self.finish_with(completed, Some(detail));
        AgentError::Provider(error)
    }

    /// One more chunk of the stream: published before it is folded, so that a
    /// subscriber's own fold agrees with the recorded turn.
    pub fn push_chunk(&mut self, chunk: StreamChunk)
        requires
            old(self)@.ledger.room(1),
        ensures
            final(self)@ == old(self)@.chunk_pushed(chunk@),
            old(self)@.sound() ==> final(self)@.sound(),
    {
        let shown: u32 = ledger::live_turn(self.turn);
        self.ledger.publish(LiveKind::AssistantDelta { turn: shown, chunk: chunk.clone() });
        self.assembler.push(chunk);
    }

    /// Looks for an interrupt between chunks; where there is one, the stream
    /// is to be broken off.
    pub fn check_interrupt(&mut self) -> (r: bool)
        ensures
            r == (old(self)@.inbox.interrupt is Some),
            final(self)@ == old(self)@.interrupt_checked(),
            old(self)@.sound() ==> final(self)@.sound(),
    {
        self.stopping = self.inbox.take_interrupt();
        self.stopping.is_some()
    }

    /// Records the assistant turn, and adds its message to the history.
    fn record_response(&mut self, turn: &AssembledTurn, error: Option<EventError>)
        requires
            old(self)@.sound(),
            old(self)@.ledger.room(1),
        ensures
            final(self)@ == old(self)@.response_recorded(turn@, error.deep_view()),
            final(self)@.sound(),
    {
        let ghost start = self@;
        let ghost detail = error.deep_view();
        proof {
            let plain = start.ledger.turn_envelope(
                start.turn_span,
                start.root,
                start.turn,
                failure::response_payload(turn@),
            );
            let event = match detail {
                Some(error) => event::failed(plain, error),
                None => plain,
            };
            recording_mirrors(start.ledger, start.messages, event);
        }
        self.ledger.record(
            self.turn_span.as_str(),
            self.root.as_str(),
            self.turn,
            failure::response_kind(turn),
            error,
        );
        self.messages.push(turn.message.clone());
        assert(self.messages.deep_view() =~= start.messages.push(turn@.message));
        let length: usize = self.messages.len();
        assert(self@.messages.len() == length);
        proof {
            faithful_grows(start.fold, start.messages, self@.messages);
        }
        assert(self@ =~= start.response_recorded(turn@, detail));
    }

    /// The stream is over, broken where `error` says so. What streamed in is
    /// recorded in any case; a break, an interrupt and an empty turn end the
    /// run.
    #[verifier::rlimit(50)]
    pub fn close_stream(&mut self, error: Option<ModelError>) -> (r: TurnEnd)
        requires
            old(self)@.sound(),
            old(self)@.ledger.room(4),
            old(self)@.turn >= 1,
        ensures
            r@ == old(self)@.turn_end(error.deep_view()),
            final(self)@ == (RunView {
                assembler: assembler::fresh(),
                stopping: None,
                ..old(self)@.stream_closed(error.deep_view())
            }),
            final(self)@.sound(),
    {
        let ghost start = self@;
        let ghost broken = error.deep_view();
        let mut streamed = MessageAssembler::new();
        std::mem::swap(&mut streamed, &mut self.assembler);
        let stopping = self.stopping.take();
        let turn = streamed.complete();
        let completed: usize = self.turn - 1;
        if let Some(error) = error {
            let detail = failure::model_event_error(&error);
            self.record_response(&turn, Some(detail.clone()));
            self.finish_with(completed, Some(detail));
            return TurnEnd::Failed(AgentError::Provider(error));
        }
        if let Some(command) = stopping {
            // The command lands before its consequences: the interrupt, the
            // truncated turn it caused, the terminal record.
            let number: usize = self.turn;
            self.record_command(command, number);
            let detail = failure::interrupted_detail();
            self.record_response(&turn, Some(detail.clone()));
            self.finish_with(completed, Some(detail));
            return TurnEnd::Failed(AgentError::Interrupted);
        }
        if turn.outcome == TurnOutcome::Empty {
            let error = AgentError::EmptyTurn { finish: turn.finish.clone() };
            let detail = EventError {
                kind: error_kinds::EMPTY_TURN.to_owned(),
                message: error.to_text(),
            };
            self.record_response(&turn, Some(detail.clone()));
            self.finish_with(completed, Some(detail));
            return TurnEnd::Failed(error);
        }
        self.record_response(&turn, None);
        if let Some(usage) = &turn.usage {
            self.fold.last_input = Some(usage.input);
        }
        let calls = turn.message.tool_calls();
        TurnEnd::Done { turn, calls }
    }

    /// The finish line of a turn without calls: a steer, queued or not,
    /// continues the run; otherwise it is finished. Says whether it goes on.
    pub fn finish_line(&mut self) -> (r: bool)
        requires
            old(self)@.sound(),
            old(self)@.turn < usize::MAX,
            old(self)@.ledger.room(2 * old(self)@.inbox.steers.len() + 1),
        ensures
            r == old(self)@.goes_on(),
            final(self)@ == old(self)@.finish_line_crossed(),
            final(self)@.sound(),
    {
        let turn: usize = self.turn;
        let interrupt = self.inbox.take_interrupt();
        if interrupt.is_none() {
            if self.apply_steers(turn + 1, true) > 0 {
                return true;
            }
        }
        self.finish_with(turn, None);
        false
    }

    /// Adds newly-entered subtrees' instruction files to the history, each as
    /// a user message of its own.
    pub fn inject_nested(&mut self, files: &Vec<InstructionFile>)
        requires
            old(self)@.sound(),
            old(self)@.ledger.room(2 * files.len() as nat),
        ensures
            final(self)@ == old(self)@.injected(files.deep_view()),
            final(self)@.sound(),
    {
        let ghost start = self@;
        let ghost all = files.deep_view();
        let mut i: usize = 0;
        while i < files.len()
            invariant
                i <= files.len(),
                all == files.deep_view(),
                start.ledger.room(2 * files.len() as nat),
                self@ == start.injected(all.take(i as int)),
                self@.sound(),
                start.ledger.left() <= self@.ledger.left() + 2 * i,
            decreases files.len() - i,
        {
            let ghost before = self@;
            let ghost file = files[i as int]@;
            let ghost kind = EventKindView::InstructionInjected {
                path: file.path,
                content: file.content,
            };
            assert(all.take(i as int + 1).drop_last() =~= all.take(i as int));
            assert(all.take(i as int + 1).last() == file);
            let text = context::format_injected(&files[i]);
            let span = self.ledger.next_span();
            proof {
                recording_mirrors(
                    self@.ledger,
                    before.messages,
                    self@.ledger.turn_envelope(span@, before.root, before.turn, kind),
                );
            }
            self.ledger.record(
                span.as_str(),
                self.root.as_str(),
                self.turn,
                EventKind::InstructionInjected {
                    path: files[i].path.clone(),
                    content: files[i].content.clone(),
                },
                None,
            );
            self.messages.push(Message::user(text.as_str()));
            assert(self.messages.deep_view() =~= before.messages.push(
                message::text_message(Role::User, text@),
            ));
            let length: usize = self.messages.len();
            assert(self@.messages.len() == length);
            proof {
                faithful_grows(before.fold, before.messages, self@.messages);
            }
            i += 1;
            assert(self@ =~= start.injected(all.take(i as int)));
        }
        assert(all.take(i as int) =~= all);
    }
}

impl RunView {
    /// After an approval request was presented for `calls`, with its gate.
    pub open spec fn gate_opened(self, calls: Seq<ToolCallView>, now: u64) -> (GateView, RunView) {
        let (gate, ledger) = gate::opened(self.wiring.tools, calls, self.turn, now, self.ledger);
        (gate, RunView { ledger, ..self })
    }

    /// This run's part of a gate's work.
    pub open spec fn gate_run(self, gate: GateView) -> GateRun {
        GateRun { gate, inbox: self.inbox, ledger: self.ledger }
    }

    /// After a gate was drained.
    pub open spec fn gate_drained(self, gate: GateView, now: u64) -> RunView {
        let after = gate::drained(self.gate_run(gate), self.root, self.turn, now);
        RunView { inbox: after.inbox, ledger: after.ledger, ..self }
    }

    /// After the unanswered calls of a gate were denied.
    pub open spec fn gate_denied(self, gate: GateView, timed_out: bool) -> RunView {
        RunView {
            ledger: gate::denied_unanswered(
                gate,
                self.ledger,
                timed_out,
                self.root,
                self.turn,
            ).1,
            ..self
        }
    }

    /// After the start of a call was recorded on a span of its own.
    pub open spec fn call_started(self, call: ToolCallView) -> RunView {
        RunView {
            ledger: self.ledger.minted().turn_recorded(
                ledger::span_id(self.ledger.next_id()),
                self.root,
                self.turn,
                EventKindView::ToolCall { call },
                None,
            ),
            ..self
        }
    }

    /// The event that records a call's result, with its approval address.
    pub open spec fn result_event(
        self,
        call: ToolCallView,
        span: Seq<char>,
        outcome: ToolOutcomeView,
        address: Option<(Seq<char>, usize)>,
    ) -> EventView {
        let plain = self.ledger.turn_envelope(
            span,
            self.root,
            self.turn,
            EventKindView::ToolResult { call_id: call.id, result: outcome.result },
        );
        let addressed = match address {
            Some((request, index)) => event::attributed(
                event::attributed(
                    plain,
                    attrs::APPROVAL_REQUEST_ID@,
                    ValueView::String(request),
                ),
                attrs::APPROVAL_CALL_INDEX@,
                json::unsigned_value(index as u64),
            ),
            None => plain,
        };
        match outcome.error {
            Some(error) => event::failed(addressed, error),
            None => addressed,
        }
    }

    /// After a call's result was recorded and answered in the history: the
    /// counters count executions, and a successful write replaces the todo
    /// list.
    pub open spec fn result_recorded(
        self,
        call: ToolCallView,
        span: Seq<char>,
        outcome: ToolOutcomeView,
        address: Option<(Seq<char>, usize)>,
    ) -> RunView {
        let event = self.result_event(call, span, outcome, address);
        RunView {
            ledger: self.ledger.stamped().emitted(event),
            messages: self.messages.push(
                message::answer(call.id, outcome.result, outcome.error is Some),
            ),
            fold: FoldStateView {
                tracks: self.fold.tracks.push(
                    ResultTrackView {
                        msg_index: self.messages.len() as usize,
                        turn: self.turn,
                        event_id: event.id,
                        call_id: call.id,
                    },
                ),
                ..self.fold
            },
            counts: if outcome::never_executed(outcome.error) {
                self.counts
            } else {
                trailer::counted(self.counts, call.name)
            },
            todos: match outcome.todos {
                Some(items) => if outcome.error is None && call.name == context::TODO_WRITE@ {
                    items
                } else {
                    self.todos
                },
                None => self.todos,
            },
            ..self
        }
    }

    /// After a finished call was announced ahead of its recorded result.
    pub open spec fn completion_published(
        self,
        call: ToolCallView,
        position: int,
        span: Seq<char>,
        outcome: ToolOutcomeView,
    ) -> RunView {
        RunView {
            ledger: self.ledger.published(
                LiveKindView::ToolCompleted {
                    completion: ToolCompletionView {
                        span_id: span,
                        turn: ledger::shown_turn(self.turn),
                        message_call_index: position as usize,
                        call_id: call.id,
                        name: call.name,
                        result: outcome.result,
                        error: outcome.error,
                    },
                },
            ),
            ..self
        }
    }
}

/// A recorded resolution leaves the history alone.
proof fn resolution_mirrors(
    ledger: LedgerView,
    messages: Seq<MessageView>,
    command: CommandView,
    root: Seq<char>,
    turn: usize,
)
    requires
        ledger.sound(),
        ledger.room(2),
        mirrors(ledger.log, messages),
        command is ResolveApproval || command is ResolveApprovalCall,
    ensures
        ledger.command_recorded(command, root, turn).sound(),
        mirrors(ledger.command_recorded(command, root, turn).log, messages),
        ledger.command_recorded(command, root, turn).left() + 2 >= ledger.left(),
        ledger.command_recorded(command, root, turn).trace_id == ledger.trace_id,
{
    let spanned = ledger.minted();
    let event = spanned.turn_envelope(
        ledger::span_id(ledger.next_id()),
        root,
        turn,
        EventKindView::Command(command),
    );
    ledger::emitting_is_sound(spanned, event);
    recording_mirrors(spanned, messages, event);
}

/// Applying buffered resolves leaves the history alone.
proof fn settling_mirrors(
    run: GateRun,
    messages: Seq<MessageView>,
    root: Seq<char>,
    turn: usize,
)
    requires
        run.ledger.sound(),
        run.ledger.room(2 * run.inbox.resolves.len()),
        mirrors(run.ledger.log, messages),
        inbox::tidy(run.inbox),
    ensures
        ({
            let after = gate::settled(run, root, turn);
            &&& after.ledger.sound()
            &&& mirrors(after.ledger.log, messages)
            &&& inbox::tidy(after.inbox)
            &&& after.inbox.steers == run.inbox.steers
            &&& after.inbox.interrupt == run.inbox.interrupt
            &&& after.ledger.trace_id == run.ledger.trace_id
        }),
    decreases run.inbox.resolves.len(),
{
    if let Some(request) = run.gate.request {
        let at = inbox::first_resolve(run.inbox.resolves, request);
        if 0 <= at < run.inbox.resolves.len() {
            let command = run.inbox.resolves[at];
            let rest = InboxView { resolves: run.inbox.resolves.remove(at), ..run.inbox };
            assert(inbox::tidy(rest)) by {
                assert forall|i: int| 0 <= i < rest.resolves.len() implies (
                #[trigger] rest.resolves[i]) is ResolveApproval
                    || rest.resolves[i] is ResolveApprovalCall by {
                    let j = if i < at {
                        i
                    } else {
                        i + 1
                    };
                    assert(rest.resolves[i] == run.inbox.resolves[j]);
                }
            }
            if run.gate.effective(command) {
                resolution_mirrors(run.ledger, messages, command, root, turn);
                settling_mirrors(
                    GateRun {
                        gate: run.gate.resolved(command),
                        inbox: rest,
                        ledger: run.ledger.command_recorded(command, root, turn),
                    },
                    messages,
                    root,
                    turn,
                );
            } else {
                settling_mirrors(GateRun { inbox: rest, ..run }, messages, root, turn);
            }
        }
    }
}

impl Run {
    /// The pending interrupt, taken once.
    pub(crate) fn take_interrupt(&mut self) -> (r: Option<Command>)
        requires
            old(self)@.sound(),
        ensures
            r.deep_view() == old(self)@.inbox.interrupt,
            r.deep_view() matches Some(command) ==> command is Interrupt,
            final(self)@ == (RunView {
                inbox: InboxView { interrupt: None, ..old(self)@.inbox },
                ..old(self)@
            }),
            final(self)@.sound(),
    {
        self.inbox.take_interrupt()
    }

    /// Presents the gated calls for approval.
    pub(crate) fn open_gate(&mut self, calls: &Vec<ToolCall>, now: u64) -> (r: Gate)
        requires
            old(self)@.sound(),
            old(self)@.ledger.room(2),
        ensures
            (r@, final(self)@) == old(self)@.gate_opened(calls.deep_view(), now),
            r@.well_formed(calls.len() as nat),
            final(self)@.sound(),
    {
        Gate::open(&self.wiring.tools, calls, self.turn, now, &mut self.ledger)
    }

    /// Whether every call may overlap with the others.
    pub(crate) fn all_parallel_safe(&self, calls: &Vec<ToolCall>) -> (r: bool)
        ensures
            r == (forall|i: int|
                0 <= i < calls.len() ==> tool::parallel_safe(
                    self@.wiring.tools,
                    #[trigger] calls.deep_view()[i],
                )),
    {
        let ghost all = calls.deep_view();
        let mut i: usize = 0;
        while i < calls.len()
            invariant
                i <= calls.len(),
                all == calls.deep_view(),
                forall|j: int|
                    0 <= j < i ==> tool::parallel_safe(self@.wiring.tools, #[trigger] all[j]),
            decreases calls.len() - i,
        {
            assert(all[i as int] == calls[i as int]@);
            if !tool::is_parallel_safe(&self.wiring.tools, &calls[i]) {
                return false;
            }
            i += 1;
        }
        true
    }

    /// Whether a tool of that name is wired in.
    pub(crate) fn knows_tool(&self, name: &str) -> (r: bool)
        ensures
            r == (tool::declared(self@.wiring.tools, name@) is Some),
    {
        tool::is_known(&self.wiring.tools, name)
    }

    /// Applies the buffered resolves of a gate.
    pub(crate) fn drain_gate(&mut self, gate: &mut Gate, now: u64)
        requires
            old(self)@.sound(),
            old(gate)@.well_formed(old(gate)@.decisions.len()),
            old(self)@.ledger.room(2 * old(self)@.inbox.resolves.len() + 2),
        ensures
            final(gate)@ == gate::drained(
                old(self)@.gate_run(old(gate)@),
                old(self)@.root,
                old(self)@.turn,
                now,
            ).gate,
            final(self)@ == old(self)@.gate_drained(old(gate)@, now),
            final(gate)@.well_formed(old(gate)@.decisions.len()),
            final(gate)@.positions == old(gate)@.positions,
            final(gate)@.request == old(gate)@.request,
            old(self)@.ledger.left() <= final(self)@.ledger.left() + 2 * old(self)@.inbox.resolves.len() + 2,
            final(self)@.sound(),
    {
        let ghost start = self@;
        let ghost before = gate@;
        proof {
            let (denied, ledger) = if before.expired(now) {
                gate::denied_unanswered(before, start.ledger, true, start.root, start.turn)
            } else {
                (before, start.ledger)
            };
            if before.expired(now) && before.request is Some {
                let after = before.closed_out(gate::denial_comment(true));
                resolution_mirrors(
                    start.ledger,
                    start.messages,
                    CommandView::ResolveApproval {
                        command_id: gate::closing_id(before.request.unwrap(), true),
                        request_id: before.request.unwrap(),
                        decisions: after.verdicts(),
                    },
                    start.root,
                    start.turn,
                );
            }
            settling_mirrors(
                GateRun { gate: denied, inbox: start.inbox, ledger },
                start.messages,
                start.root,
                start.turn,
            );
        }
        gate.drain(&mut self.inbox, &mut self.ledger, self.root.as_str(), self.turn, now);
    }

    /// Denies what is unanswered at a gate.
    pub(crate) fn deny_gate(&mut self, gate: &mut Gate, timed_out: bool)
        requires
            old(self)@.sound(),
            old(gate)@.well_formed(old(gate)@.decisions.len()),
            old(self)@.ledger.room(2),
        ensures
            final(gate)@ == gate::denied_unanswered(
                old(gate)@,
                old(self)@.ledger,
                timed_out,
                old(self)@.root,
                old(self)@.turn,
            ).0,
            final(self)@ == old(self)@.gate_denied(old(gate)@, timed_out),
            final(gate)@.well_formed(old(gate)@.decisions.len()),
            final(gate)@.positions == old(gate)@.positions,
            final(self)@.sound(),
    {
        let ghost start = self@;
        proof {
            let before = gate@;
            if before.pending() && before.request is Some {
                let after = before.closed_out(gate::denial_comment(timed_out));
                resolution_mirrors(
                    start.ledger,
                    start.messages,
                    CommandView::ResolveApproval {
                        command_id: gate::closing_id(before.request.unwrap(), timed_out),
                        request_id: before.request.unwrap(),
                        decisions: after.verdicts(),
                    },
                    start.root,
                    start.turn,
                );
            }
        }
        gate.deny_unanswered(&mut self.ledger, timed_out, self.root.as_str(), self.turn);
    }

    /// Records the start of a call on a span of its own.
    pub(crate) fn start_call(&mut self, call: &ToolCall) -> (r: String)
        requires
            old(self)@.sound(),
            old(self)@.ledger.room(2),
        ensures
            r@ == ledger::span_id(old(self)@.ledger.next_id()),
            final(self)@ == old(self)@.call_started(call@),
            final(self)@.sound(),
    {
        let span = self.ledger.next_span();
        self.record_asset(span.as_str(), EventKind::ToolCall { call: call.clone() });
        span
    }

    /// Announces a finished call ahead of its recorded result.
    pub(crate) fn publish_completion(
        &mut self,
        call: &ToolCall,
        position: usize,
        span: &str,
        outcome: &ToolOutcome,
    )
        requires
            old(self)@.sound(),
            old(self)@.ledger.room(1),
        ensures
            final(self)@ == old(self)@.completion_published(
                call@,
                position as int,
                span@,
                outcome@,
            ),
            final(self)@.sound(),
    {
        let completion = ToolCompletion {
            span_id: span.to_owned(),
            turn: ledger::live_turn(self.turn),
            message_call_index: position,
            call_id: call.id.clone(),
            name: call.name.clone(),
            result: outcome.result.clone(),
            error: clone_option(&outcome.error),
        };
        self.ledger.publish(LiveKind::ToolCompleted { completion });
    }

    /// Records a call's result and answers it in the history.
    pub(crate) fn push_result(
        &mut self,
        call: &ToolCall,
        span: &str,
        outcome: ToolOutcome,
        address: Option<(String, usize)>,
    )
        requires
            old(self)@.sound(),
            old(self)@.ledger.room(1),
        ensures
            final(self)@ == old(self)@.result_recorded(
                call@,
                span@,
                outcome@,
                address.deep_view(),
            ),
            final(self)@.sound(),
    {
        let ghost start = self@;
        let ghost settled = outcome@;
        let ghost place = address.deep_view();
        let is_error = outcome.error.is_some();
        let executed = !outcome::was_never_executed(&outcome.error);
        let plain = self.ledger.turn_event(
            span,
            self.root.as_str(),
            self.turn,
            EventKind::ToolResult { call_id: call.id.clone(), result: outcome.result.clone() },
        );
        let addressed = match address {
            Some((request, index)) => plain.with_attribute(
                attrs::APPROVAL_REQUEST_ID,
                Value::string(request.as_str()),
            ).with_attribute(attrs::APPROVAL_CALL_INDEX, Value::unsigned(index as u64)),
            None => plain,
        };
        let event = match outcome.error {
            Some(error) => addressed.errored(error),
            None => addressed,
        };
        assert(event@ == start.result_event(call@, span@, settled, place));
        proof {
            ledger::emitting_is_sound(start.ledger, event@);
            recording_mirrors(start.ledger, start.messages, event@);
        }
        let track = ResultTrack {
            msg_index: self.messages.len(),
            turn: self.turn,
            event_id: event.id.clone(),
            call_id: call.id.clone(),
        };
        self.ledger.emit(event);
        let length: usize = self.messages.len();
        assert(start.messages.len() == length);
        self.fold.tracks.push(track);
        assert(self.fold.tracks.deep_view() =~= start.fold.tracks.push(track@));
        let followed: usize = self.fold.tracks.len();
        assert(self@.fold.tracks.len() == followed);
        if executed {
            proof {
                trailer::counters_stay_in_name_order(start.counts, call@.name);
                counting_is_bounded(start.counts, call@.name, start.fold.tracks.len());
            }
            trailer::count_execution(&mut self.counts, call.name.as_str());
        }
        if let Some(items) = outcome.todos {
            if !is_error && text::same(call.name.as_str(), context::TODO_WRITE) {
                self.todos = items;
            }
        }
        let answer = if is_error {
            Message::tool_error(call.id.as_str(), outcome.result)
        } else {
            Message::tool_result(call.id.as_str(), outcome.result)
        };
        self.messages.push(answer);
        assert(self.messages.deep_view() =~= start.messages.push(answer@));
        let longer: usize = self.messages.len();
        assert(self@.messages.len() == longer);
        assert(self@ =~= start.result_recorded(call@, span@, settled, place));
        proof {
            faithful_grows(start.fold, start.messages, self@.messages);
            assert forall|i: int| 0 <= i < self@.fold.tracks.len() implies (
            #[trigger] self@.fold.tracks[i]).msg_index < self@.messages.len() by {
                if i < start.fold.tracks.len() {
                    assert(self@.fold.tracks[i] == start.fold.tracks[i]);
                }
            }
        }
    }
}

/// Counting one more execution stays within one more.
proof fn counting_is_bounded(counts: Seq<ToolCountView>, name: Seq<char>, bound: nat)
    requires
        forall|i: int| 0 <= i < counts.len() ==> (#[trigger] counts[i]).count <= bound,
        bound < usize::MAX,
    ensures
        forall|i: int|
            0 <= i < trailer::counted(counts, name).len() ==> (#[trigger] trailer::counted(
                counts,
                name,
            )[i]).count <= bound + 1,
{
    let after = trailer::counted(counts, name);
    let at = trailer::counter_slot(counts, name);
    trailer::counter_slot_bounds(counts, name);
    assert forall|i: int| 0 <= i < after.len() implies (#[trigger] after[i]).count <= bound
        + 1 by {
        if at < counts.len() && counts[at].name == name {
            if i != at {
                assert(after[i] == counts[i]);
            } else {
                assert(counts[at].count <= bound);
            }
        } else if i < at {
            assert(after[i] == counts[i]);
        } else if i > at {
            assert(after[i] == counts[i - 1]);
        }
    }
}

/// The fold invariant: replaying what a run has recorded gives exactly the
/// history that the run lives on, at every step.
pub proof fn replay_gives_the_live_history(run: RunView)
    requires
        run.sound(),
    ensures
        trajectory::replayed(run.ledger.log).messages == run.messages,
{
}

/// One sequence orders both channels: positions on the live stream ascend
/// strictly, and what is recorded there is the log, event for event.
pub proof fn one_order_for_log_and_live_stream(run: RunView)
    requires
        run.sound(),
    ensures
        forall|i: int, j: int|
            0 <= i < j < run.ledger.live.len() ==> (#[trigger] run.ledger.live[i]).seq < (
            #[trigger] run.ledger.live[j]).seq,
        ledger::recorded(run.ledger.live) == run.ledger.log,
        forall|i: int, j: int|
            0 <= i < j < run.ledger.log.len() ==> (#[trigger] run.ledger.log[i]).id != (
            #[trigger] run.ledger.log[j]).id,
{
    assert forall|i: int, j: int| 0 <= i < j < run.ledger.log.len() implies (
    #[trigger] run.ledger.log[i]).id != (#[trigger] run.ledger.log[j]).id by {
        let a = text::decimal(run.ledger.log[i].seq as nat);
        let b = text::decimal(run.ledger.log[j].seq as nat);
        if run.ledger.log[i].id == run.ledger.log[j].id {
            assert(a =~= ("e"@ + a).skip("e"@.len() as int));
            assert(b =~= ("e"@ + b).skip("e"@.len() as int));
            text::decimal_is_injective(
                run.ledger.log[i].seq as nat,
                run.ledger.log[j].seq as nat,
            );
        }
    }
}

/// A request is the frozen prefix, the history message for message, and the
/// trailer: the trailer stays out of the history, and a folded message keeps
/// its place, its role and its call.
pub proof fn requests_have_three_segments(
    run: RunView,
    git: Option<GitStatusView>,
    offset_minutes: i32,
    i: int,
)
    requires
        run.sound(),
        0 <= i < run.messages.len(),
    ensures
        ({
            let sent = run.request(git, offset_minutes).messages;
            &&& sent.len() == run.messages.len() + 2
            &&& sent[0] == message::text_message(Role::System, run.wiring.prefix.text)
            &&& sent[sent.len() - 1] == message::text_message(
                Role::User,
                run.trailer(git, offset_minutes),
            )
            &&& sent[i + 1].role == run.messages[i].role
            &&& sent[i + 1].tool_call_id == run.messages[i].tool_call_id
            &&& sent[i + 1].is_error == run.messages[i].is_error
        }),
        run.requested(git, offset_minutes).messages == run.messages,
{
    stand_ins_are_faithful(run.fold.folded, run.messages, i);
}

proof fn stand_ins_are_faithful(
    folded: Seq<FoldedMessageView>,
    messages: Seq<MessageView>,
    index: int,
)
    requires
        faithful(folded, messages),
        0 <= index < messages.len(),
    ensures
        ({
            let sent = fold::sent_history(messages, folded)[index];
            &&& sent.role == messages[index].role
            &&& sent.tool_call_id == messages[index].tool_call_id
            &&& sent.is_error == messages[index].is_error
        }),
    decreases folded.len(),
{
    if folded.len() > 0 {
        let rest = folded.drop_last();
        assert(faithful(rest, messages)) by {
            assert forall|i: int| 0 <= i < rest.len() implies {
                let original = messages[(#[trigger] rest[i]).msg_index as int];
                &&& rest[i].message.role == original.role
                &&& rest[i].message.tool_call_id == original.tool_call_id
                &&& rest[i].message.is_error == original.is_error
            } by {
                assert(rest[i] == folded[i]);
            }
        }
        stand_ins_are_faithful(rest, messages, index);
        assert(folded[folded.len() - 1] == folded.last());
    }
}

} // verus!
