//! The agent loop as one machine: a report of what happened outside goes in,
//! the next action comes out.
use crate::contract::context::{InstructionFile, InstructionFileView};
use crate::contract::error::{ModelError, ModelErrorView};
use crate::contract::event::Command;
use crate::contract::live::{TimedRecv, TimedRecvView};
use crate::contract::message::{Message, ToolCall, ToolCallView};
use crate::contract::request::{ChatRequest, ChatRequestView};
use crate::contract::stream::{StreamChunk, StreamChunkView};
use crate::copies::clone_vec;
use crate::runtime::agent::dispatch;
use crate::runtime::agent::dispatch::{
    Advance, AdvanceView, Batch, Dispatch, DispatchView, Execution,
};
use crate::runtime::agent::failure::{AgentError, AgentErrorView};
use crate::runtime::agent::fold;
use crate::runtime::agent::fold::{FoldOrder, FoldOrderView, FoldPlan, FoldPlanView};
use crate::runtime::agent::gate;
use crate::runtime::agent::ledger;
use crate::runtime::agent::ledger::{LedgerView, Output};
use crate::runtime::agent::outcome::{ToolOutcome, ToolOutcomeView};
use crate::runtime::agent::run;
use crate::runtime::agent::run::{
    AgentLoop, Boundary, BoundaryView, Run, RunOutcome, RunOutcomeView, RunView, TurnEnd,
    TurnEndView,
};
use crate::runtime::assembler;
use crate::runtime::assembler::{AssembledTurn, AssembledTurnView};
use crate::runtime::trailer::{GitStatus, GitStatusView};
use vstd::prelude::*;

verus! {

/// What happened outside since the last step.
pub enum Report {
    /// Nothing that a report is due for.
    Ready,
    /// The artifacts of a fold were written, at these paths.
    Spilled(Vec<String>),
    /// What the trailer shows was probed.
    Probed { git: Option<GitStatus>, offset_minutes: i32 },
    /// The provider opened a stream.
    Opened,
    /// The provider refused the call.
    Refused(ModelError),
    /// One chunk streamed in.
    Chunk(StreamChunk),
    /// The stream ended.
    Ended,
    /// The stream broke.
    Broke(ModelError),
    /// The calls entered the subtrees that these instruction files are of.
    Located(Vec<InstructionFile>),
    /// The call at that position finished.
    Completed { position: usize, outcome: ToolOutcome },
    /// The wait for a command came to this.
    Received(TimedRecv),
}

/// What a [`Report`] holds.
#[verifier::ext_equal]
pub enum ReportView {
    Ready,
    Spilled(Seq<Seq<char>>),
    Probed { git: Option<GitStatusView>, offset_minutes: i32 },
    Opened,
    Refused(ModelErrorView),
    Chunk(StreamChunkView),
    Ended,
    Broke(ModelErrorView),
    Located(Seq<InstructionFileView>),
    Completed { position: usize, outcome: ToolOutcomeView },
    Received(TimedRecvView),
}

impl View for Report {
    type V = ReportView;

    open spec fn view(&self) -> ReportView {
        match *self {
            Report::Ready => ReportView::Ready,
            Report::Spilled(paths) => ReportView::Spilled(paths.deep_view()),
            Report::Probed { git, offset_minutes } => ReportView::Probed {
                git: git.deep_view(),
                offset_minutes,
            },
            Report::Opened => ReportView::Opened,
            Report::Refused(error) => ReportView::Refused(error@),
            Report::Chunk(chunk) => ReportView::Chunk(chunk@),
            Report::Ended => ReportView::Ended,
            Report::Broke(error) => ReportView::Broke(error@),
            Report::Located(files) => ReportView::Located(files.deep_view()),
            Report::Completed { position, outcome } => ReportView::Completed {
                position,
                outcome: outcome@,
            },
            Report::Received(received) => ReportView::Received(received@),
        }
    }
}

/// What to do next. The outputs so far are performed first, then the received
/// commands are noted, then the action is done and reported.
pub enum Action {
    /// Step again with [`Report::Ready`].
    Go,
    /// Write these artifacts, and report their paths in order.
    Spill(Vec<FoldOrder>),
    /// Probe what the trailer shows, and report it.
    Probe,
    /// Call the provider, and report whether a stream opened.
    Call(ChatRequest),
    /// Read the stream, and report the next chunk or the end.
    Read,
    /// Show these calls to the instruction tracker, and report its files.
    Track(Vec<ToolCall>),
    /// Execute the calls at `starts`; wait for a completion and, where
    /// `listen` gives the milliseconds left, for a command; and report which
    /// came first.
    Work { starts: Vec<usize>, listen: Option<u64> },
    /// The run completed.
    Finish(RunOutcome),
    /// The run failed.
    Fail(AgentError),
    /// The report does not fit where the run stands; nothing changed.
    Stay,
}

/// What an [`Action`] holds.
#[verifier::ext_equal]
pub enum ActionView {
    Go,
    Spill(Seq<FoldOrderView>),
    Probe,
    Call(ChatRequestView),
    Read,
    Track(Seq<ToolCallView>),
    Work { starts: Seq<usize>, listen: Option<u64> },
    Finish(RunOutcomeView),
    Fail(AgentErrorView),
    Stay,
}

impl View for Action {
    type V = ActionView;

    open spec fn view(&self) -> ActionView {
        match *self {
            Action::Go => ActionView::Go,
            Action::Spill(orders) => ActionView::Spill(orders.deep_view()),
            Action::Probe => ActionView::Probe,
            Action::Call(request) => ActionView::Call(request@),
            Action::Read => ActionView::Read,
            Action::Track(calls) => ActionView::Track(calls.deep_view()),
            Action::Work { starts, listen } => ActionView::Work { starts: starts@, listen },
            Action::Finish(outcome) => ActionView::Finish(outcome@),
            Action::Fail(error) => ActionView::Fail(error@),
            Action::Stay => ActionView::Stay,
        }
    }
}

/// Where a run stands between two steps.
pub(crate) enum Phase {
    /// Before a turn.
    Boundary,
    /// A fold waits for its artifacts.
    Folding(FoldPlan),
    /// The request waits for what the trailer shows.
    Probing,
    /// The provider was called.
    Calling,
    /// The stream is read.
    Streaming,
    /// A chunk came in; an interrupt is looked for before the next.
    Checking,
    /// The turn stands; its calls are with the tracker.
    Tracking { turn: AssembledTurn, calls: Vec<ToolCall> },
    /// The calls are on their way through approval and execution.
    Dispatching { batch: Dispatch, nested: Vec<InstructionFile> },
    /// The calls are answered; the files they brought up are next.
    Nesting(Vec<InstructionFile>),
    /// The run is over.
    Closed,
}

/// What a session's phase holds.
#[verifier::ext_equal]
pub enum PhaseView {
    /// Before a turn.
    Boundary,
    /// A fold waits for its artifacts.
    Folding(FoldPlanView),
    /// The request waits for what the trailer shows.
    Probing,
    /// The provider was called.
    Calling,
    /// The stream is read.
    Streaming,
    /// A chunk came in; an interrupt is looked for before the next.
    Checking,
    /// The turn stands; its calls are with the tracker.
    Tracking { turn: AssembledTurnView, calls: Seq<ToolCallView> },
    /// The calls are on their way through approval and execution.
    Dispatching { batch: DispatchView, nested: Seq<InstructionFileView> },
    /// The calls are answered; the files they brought up are next.
    Nesting(Seq<InstructionFileView>),
    /// The run is over.
    Closed,
}

impl View for Phase {
    type V = PhaseView;

    open(crate) spec fn view(&self) -> PhaseView {
        match *self {
            Phase::Boundary => PhaseView::Boundary,
            Phase::Folding(plan) => PhaseView::Folding(plan@),
            Phase::Probing => PhaseView::Probing,
            Phase::Calling => PhaseView::Calling,
            Phase::Streaming => PhaseView::Streaming,
            Phase::Checking => PhaseView::Checking,
            Phase::Tracking { turn, calls } => PhaseView::Tracking {
                turn: turn@,
                calls: calls.deep_view(),
            },
            Phase::Dispatching { batch, nested } => PhaseView::Dispatching {
                batch: batch@,
                nested: nested.deep_view(),
            },
            Phase::Nesting(files) => PhaseView::Nesting(files.deep_view()),
            Phase::Closed => PhaseView::Closed,
        }
    }
}

/// A run with the place where it stands.
pub struct Session {
    run: Run,
    phase: Phase,
}

/// What a [`Session`] holds.
#[verifier::ext_equal]
pub struct SessionView {
    pub run: RunView,
    pub phase: PhaseView,
}

impl View for Session {
    type V = SessionView;

    closed spec fn view(&self) -> SessionView {
        SessionView { run: self.run@, phase: self.phase@ }
    }
}

impl SessionView {
    /// What holds of a session between steps.
    pub open spec fn sound(self) -> bool {
        &&& self.run.sound()
        &&& match self.phase {
            PhaseView::Boundary | PhaseView::Closed | PhaseView::Nesting(_) => true,
            PhaseView::Folding(plan) => self.run.turn >= 1 && fold::plan_within(
                plan,
                self.run.messages.len(),
            ),
            PhaseView::Tracking { .. } => true,
            PhaseView::Dispatching { batch, .. } => batch.sound(self.run),
            _ => self.run.turn >= 1,
        }
    }

    /// How many numbers and readings a step may take.
    pub open spec fn need(self) -> nat {
        match self.phase {
            PhaseView::Dispatching { batch, .. } => 2 * self.run.inbox.resolves.len() + 4
                * batch.calls.len() + batch.completed.len() + 5,
            PhaseView::Nesting(files) => 2 * files.len(),
            _ => 2 * self.run.inbox.steers.len() + 4,
        }
    }

    /// Whether what is at hand suffices for a step.
    pub open spec fn ready(self) -> bool {
        self.run.ledger.room(self.need()) && self.run.turn < usize::MAX
    }

    /// With more numbers at hand, and with fresh readings.
    pub open spec fn supplied(self, numbers: Seq<u64>, times: Seq<u64>) -> SessionView {
        SessionView {
            run: RunView { ledger: self.run.ledger.supplied(numbers, times), ..self.run },
            ..self
        }
    }

    /// The session over `run` at that phase.
    pub open spec fn at(run: RunView, phase: PhaseView) -> SessionView {
        SessionView { run, phase }
    }

    /// What the end of the stream leads to.
    pub open spec fn stream_over(self, error: Option<ModelErrorView>) -> (
        ActionView,
        SessionView,
    ) {
        let run = RunView {
            assembler: assembler::fresh(),
            stopping: None,
            ..self.run.stream_closed(error)
        };
        match self.run.turn_end(error) {
            TurnEndView::Failed(error) => (
                ActionView::Fail(error),
                SessionView::at(run, PhaseView::Closed),
            ),
            TurnEndView::Done { turn, calls } => (
                ActionView::Track(calls),
                SessionView::at(run, PhaseView::Tracking { turn, calls }),
            ),
        }
    }

    /// What the boundary before a turn leads to.
    pub open spec fn boundary_stepped(self) -> (ActionView, SessionView) {
        let run = self.run.boundary_crossed();
        match self.run.boundary() {
            BoundaryView::Ended(error) => (
                ActionView::Fail(error),
                SessionView::at(run, PhaseView::Closed),
            ),
            BoundaryView::Open { plan: Some(plan) } => (
                ActionView::Spill(plan.orders),
                SessionView::at(run, PhaseView::Folding(plan)),
            ),
            BoundaryView::Open { plan: None } => (
                ActionView::Probe,
                SessionView::at(run, PhaseView::Probing),
            ),
        }
    }

    /// What a turn that stands leads to: without calls the finish line, with
    /// calls their dispatch.
    pub open spec fn turn_stepped(
        self,
        turn: AssembledTurnView,
        calls: Seq<ToolCallView>,
        files: Seq<InstructionFileView>,
        now: u64,
    ) -> (ActionView, SessionView) {
        if calls.len() > 0 {
            let opened = dispatch::opened(self.run, calls, now);
            (
                ActionView::Go,
                SessionView::at(
                    opened.run,
                    PhaseView::Dispatching { batch: opened.d, nested: files },
                ),
            )
        } else {
            let run = self.run.finish_line_crossed();
            if self.run.goes_on() {
                (ActionView::Go, SessionView::at(run, PhaseView::Boundary))
            } else {
                (
                    ActionView::Finish(
                        RunOutcomeView {
                            messages: run.messages,
                            final_turn: turn,
                            turns: self.run.turn,
                        },
                    ),
                    SessionView::at(run, PhaseView::Closed),
                )
            }
        }
    }

    /// What one step of the dispatch leads to.
    pub open spec fn dispatch_stepped(
        self,
        batch: DispatchView,
        nested: Seq<InstructionFileView>,
        now: u64,
    ) -> (ActionView, SessionView) {
        let before = Batch { run: self.run, d: batch };
        let after = before.advanced(now);
        let going = PhaseView::Dispatching { batch: after.d, nested };
        match before.next(now) {
            AdvanceView::Finished => (
                ActionView::Go,
                SessionView::at(after.run, PhaseView::Nesting(nested)),
            ),
            AdvanceView::Interrupted => (
                ActionView::Fail(AgentErrorView::Interrupted),
                SessionView::at(after.run, PhaseView::Closed),
            ),
            AdvanceView::Again => (ActionView::Go, SessionView::at(after.run, going)),
            AdvanceView::Wait { starts, listen } => (
                ActionView::Work { starts, listen },
                SessionView::at(after.run, going),
            ),
        }
    }

    /// What a finished call leads to. One that was not in flight changes
    /// nothing.
    pub open spec fn call_completed(
        self,
        batch: DispatchView,
        nested: Seq<InstructionFileView>,
        position: usize,
        outcome: ToolOutcomeView,
    ) -> (ActionView, SessionView) {
        if position < batch.calls.len() && batch.slots[position as int] is Running {
            let after = Batch { run: self.run, d: batch }.completed(position as int, outcome);
            (
                ActionView::Go,
                SessionView::at(self.run, PhaseView::Dispatching { batch: after, nested }),
            )
        } else {
            (ActionView::Stay, self)
        }
    }

    /// What a wait for a command leads to: a command is noted, a closed
    /// channel or a wait that ran out denies what is unanswered.
    pub open spec fn wait_ended(
        self,
        batch: DispatchView,
        nested: Seq<InstructionFileView>,
        received: TimedRecvView,
    ) -> (ActionView, SessionView) {
        match received {
            TimedRecvView::Command(command) => (
                ActionView::Go,
                SessionView::at(
                    self.run.noted(command),
                    PhaseView::Dispatching { batch, nested },
                ),
            ),
            _ => {
                let timed_out = received is TimedOut;
                let denied = gate::denied_unanswered(
                    batch.gate,
                    self.run.ledger,
                    timed_out,
                    self.run.root,
                    self.run.turn,
                ).0;
                (
                    ActionView::Go,
                    SessionView::at(
                        self.run.gate_denied(batch.gate, timed_out),
                        PhaseView::Dispatching {
                            batch: DispatchView { gate: denied, ..batch },
                            nested,
                        },
                    ),
                )
            },
        }
    }

    /// What a report leads to while a fold waits for its artifacts.
    pub open spec fn fold_stepped(self, plan: FoldPlanView, report: ReportView) -> (
        ActionView,
        SessionView,
    ) {
        match report {
            ReportView::Spilled(paths) => if paths.len() == plan.orders.len() {
                (
                    ActionView::Probe,
                    SessionView::at(
                        self.run.fold_committed(plan, paths),
                        PhaseView::Probing,
                    ),
                )
            } else {
                (ActionView::Stay, self)
            },
            _ => (ActionView::Stay, self),
        }
    }

    /// What a report on the probe leads to.
    pub open spec fn probe_stepped(self, report: ReportView) -> (
        ActionView,
        SessionView,
    ) {
        match report {
            ReportView::Probed { git, offset_minutes } => (
                ActionView::Call(self.run.request(git, offset_minutes)),
                SessionView::at(
                    self.run.requested(git, offset_minutes),
                    PhaseView::Calling,
                ),
            ),
            _ => (ActionView::Stay, self),
        }
    }

    /// What a report on the provider call leads to.
    pub open spec fn call_stepped(self, report: ReportView) -> (
        ActionView,
        SessionView,
    ) {
        match report {
            ReportView::Opened => (
                ActionView::Read,
                SessionView::at(self.run, PhaseView::Streaming),
            ),
            ReportView::Refused(error) => (
                ActionView::Fail(AgentErrorView::Provider(error)),
                SessionView::at(self.run.refused(error), PhaseView::Closed),
            ),
            _ => (ActionView::Stay, self),
        }
    }

    /// What a report on the stream leads to.
    pub open spec fn stream_stepped(self, report: ReportView) -> (
        ActionView,
        SessionView,
    ) {
        match report {
            ReportView::Chunk(chunk) => (
                ActionView::Go,
                SessionView::at(self.run.chunk_pushed(chunk), PhaseView::Checking),
            ),
            ReportView::Ended => self.stream_over(None),
            ReportView::Broke(error) => self.stream_over(Some(error)),
            _ => (ActionView::Stay, self),
        }
    }

    /// What the look for an interrupt between two chunks leads to.
    pub open spec fn check_stepped(self) -> (ActionView, SessionView) {
        let looked = SessionView::at(self.run.interrupt_checked(), PhaseView::Streaming);
        if self.run.inbox.interrupt is Some {
            looked.stream_over(None)
        } else {
            (ActionView::Read, looked)
        }
    }

    /// What a report leads to while calls are dispatched.
    pub open spec fn batch_stepped(
        self,
        batch: DispatchView,
        nested: Seq<InstructionFileView>,
        report: ReportView,
        now: u64,
    ) -> (ActionView, SessionView) {
        match report {
            ReportView::Ready => self.dispatch_stepped(batch, nested, now),
            ReportView::Completed { position, outcome } => self.call_completed(
                batch,
                nested,
                position,
                outcome,
            ),
            ReportView::Received(received) => self.wait_ended(batch, nested, received),
            _ => (ActionView::Stay, self),
        }
    }

    /// The next action and the session after it. A report that does not fit
    /// where the run stands changes nothing.
    pub open spec fn stepped(self, report: ReportView, now: u64) -> (ActionView, SessionView) {
        match self.phase {
            PhaseView::Boundary => if report is Ready {
                self.boundary_stepped()
            } else {
                (ActionView::Stay, self)
            },
            PhaseView::Folding(plan) => self.fold_stepped(plan, report),
            PhaseView::Probing => self.probe_stepped(report),
            PhaseView::Calling => self.call_stepped(report),
            PhaseView::Streaming => self.stream_stepped(report),
            PhaseView::Checking => if report is Ready {
                self.check_stepped()
            } else {
                (ActionView::Stay, self)
            },
            PhaseView::Tracking { turn, calls } => match report {
                ReportView::Located(files) => self.turn_stepped(turn, calls, files, now),
                _ => (ActionView::Stay, self),
            },
            PhaseView::Dispatching { batch, nested } => self.batch_stepped(
                batch,
                nested,
                report,
                now,
            ),
            PhaseView::Nesting(files) => if report is Ready {
                (
                    ActionView::Go,
                    SessionView::at(self.run.injected(files), PhaseView::Boundary),
                )
            } else {
                (ActionView::Stay, self)
            },
            PhaseView::Closed => (ActionView::Stay, self),
        }
    }
}

impl Session {
    /// Starts a run from `base.messages`.
    ///
    /// The numbers are the first of the run's sequence, and the first reading
    /// is the time of its start.
    pub fn start(
        wiring: AgentLoop,
        base: &ChatRequest,
        numbers: Vec<u64>,
        times: Vec<u64>,
    ) -> (r: Session)
        requires
            ledger::ascending(numbers@, 0),
            numbers.len() >= 2,
            times.len() >= 1,
        ensures
            r@ == SessionView::at(
                run::started(wiring@, base@, numbers@, times@),
                PhaseView::Boundary,
            ),
            r@.sound(),
    {
        Session { run: wiring.run(base, numbers, times), phase: Phase::Boundary }
    }

    /// The effects to perform, in order.
    pub fn take_outputs(&mut self) -> (r: Vec<Output>)
        requires
            old(self)@.sound(),
        ensures
            r.deep_view() == old(self)@.run.ledger.outbox,
            final(self)@ == (SessionView {
                run: RunView {
                    ledger: LedgerView { outbox: Seq::empty(), ..old(self)@.run.ledger },
                    ..old(self)@.run
                },
                ..old(self)@
            }),
            final(self)@.sound(),
    {
        let ghost before = self.run@;
        let r = self.run.take_outputs();
        proof {
            if let PhaseView::Dispatching { batch, .. } = self.phase@ {
                dispatch::sound_with_same_history(batch, before, self.run@);
            }
        }
        r
    }

    /// Takes in one received command.
    pub fn note(&mut self, command: Command)
        requires
            old(self)@.sound(),
        ensures
            final(self)@ == (SessionView { run: old(self)@.run.noted(command@), ..old(self)@ }),
            final(self)@.sound(),
    {
        let ghost before = self.run@;
        self.run.note(command);
        proof {
            if let PhaseView::Dispatching { batch, .. } = self.phase@ {
                dispatch::sound_with_same_history(batch, before, self.run@);
            }
        }
    }

    /// The conversation so far.
    pub fn messages(&self) -> (r: &Vec<Message>)
        ensures
            r.deep_view() == self@.run.messages,
    {
        self.run.messages()
    }

    /// How the started call at `position` is to be executed; nothing where no
    /// batch is on its way or it has no such call.
    pub fn execution(&self, position: usize) -> (r: Option<Execution>)
        ensures
            match self@.phase {
                PhaseView::Dispatching { batch, .. } => r.deep_view() == dispatch::execution_of(
                    batch,
                    self@.run.wiring.tools,
                    position,
                ),
                _ => r is None,
            },
    {
        match &self.phase {
            Phase::Dispatching { batch, .. } => batch.execution(&self.run, position),
            _ => None,
        }
    }

    /// How many numbers and readings a step may take.
    pub fn need(&self) -> (r: u128)
        ensures
            r == self@.need(),
    {
        match &self.phase {
            Phase::Dispatching { batch, .. } => batch.need(&self.run),
            Phase::Nesting(files) => {
                assert(files.deep_view().len() == files.len());
                2 * (files.len() as u128)
            },
            _ => 2 * (self.run.steer_count() as u128) + 4,
        }
    }

    /// How many numbers are at hand.
    pub fn numbers_left(&self) -> (r: usize)
        ensures
            r == self@.run.ledger.numbers.len(),
    {
        self.run.numbers_left()
    }

    /// Whether these numbers may follow those at hand.
    pub fn accepts(&self, numbers: &Vec<u64>) -> (r: bool)
        ensures
            r == self@.run.ledger.follows(numbers@),
    {
        self.run.accepts(numbers)
    }

    /// Takes in numbers drawn from the sequence, and fresh readings of the
    /// clock in place of those left over.
    pub fn supply(&mut self, numbers: Vec<u64>, times: Vec<u64>)
        requires
            old(self)@.sound(),
            old(self)@.run.ledger.follows(numbers@),
        ensures
            final(self)@ == old(self)@.supplied(numbers@, times@),
            final(self)@.sound(),
    {
        let ghost before = self.run@;
        self.run.supply(numbers, times);
        proof {
            if let PhaseView::Dispatching { batch, .. } = self.phase@ {
                dispatch::sound_with_same_history(batch, before, self.run@);
            }
        }
    }

    /// Whether what is at hand suffices for a step.
    pub fn can_step(&self) -> (r: bool)
        ensures
            r == self@.ready(),
    {
        self.run.has_room(self.need()) && self.run.turn() < usize::MAX
    }

    /// The boundary before a turn.
    fn cross_boundary(&mut self) -> (r: Action)
        requires
            old(self)@.sound(),
            old(self)@.run.ledger.room(2 * old(self)@.run.inbox.steers.len() + 3),
        ensures
            (r@, final(self)@) == old(self)@.boundary_stepped(),
            final(self)@.sound(),
    {
        match self.run.begin_turn() {
            Boundary::Ended(error) => {
                self.phase = Phase::Closed;
                Action::Fail(error)
            },
            Boundary::Open { plan } => match plan {
                Some(plan) => {
                    let orders = clone_vec(&plan.orders);
                    self.phase = Phase::Folding(plan);
                    Action::Spill(orders)
                },
                None => {
                    self.phase = Phase::Probing;
                    Action::Probe
                },
            },
        }
    }

    /// The end of the stream.
    fn end_stream(&mut self, error: Option<ModelError>) -> (r: Action)
        requires
            old(self)@.run.sound(),
            old(self)@.run.turn >= 1,
            old(self)@.run.ledger.room(4),
        ensures
            (r@, final(self)@) == old(self)@.stream_over(error.deep_view()),
            final(self)@.sound(),
    {
        match self.run.close_stream(error) {
            TurnEnd::Failed(error) => {
                self.phase = Phase::Closed;
                Action::Fail(error)
            },
            TurnEnd::Done { turn, calls } => {
                let shown = clone_vec(&calls);
                self.phase = Phase::Tracking { turn, calls };
                Action::Track(shown)
            },
        }
    }

    /// A turn that stands, with the files that its calls brought up.
    fn settle_turn(
        &mut self,
        turn: AssembledTurn,
        calls: Vec<ToolCall>,
        files: Vec<InstructionFile>,
        now: u64,
    ) -> (r: Action)
        requires
            old(self)@.run.sound(),
            old(self)@.run.turn < usize::MAX,
            old(self)@.run.ledger.room(2 * old(self)@.run.inbox.steers.len() + 4),
        ensures
            (r@, final(self)@) == old(self)@.turn_stepped(
                turn@,
                calls.deep_view(),
                files.deep_view(),
                now,
            ),
            final(self)@.sound(),
    {
        assert(calls.deep_view().len() == calls.len());
        if calls.len() > 0 {
            let batch = Dispatch::open(&mut self.run, calls, now);
            self.phase = Phase::Dispatching { batch, nested: files };
            return Action::Go;
        }
        let turns: usize = self.run.turn();
        if self.run.finish_line() {
            self.phase = Phase::Boundary;
            return Action::Go;
        }
        self.phase = Phase::Closed;
        Action::Finish(
            RunOutcome { messages: clone_vec(self.run.messages()), final_turn: turn, turns },
        )
    }

    /// One step of the dispatch.
    fn step_dispatch(&mut self, batch: Dispatch, nested: Vec<InstructionFile>, now: u64) -> (r:
        Action)
        requires
            old(self)@.run.sound(),
            batch@.sound(old(self)@.run),
            old(self)@.run.ledger.room(
                2 * old(self)@.run.inbox.resolves.len() + 4 * batch@.calls.len()
                    + batch@.completed.len() + 5,
            ),
        ensures
            (r@, final(self)@) == old(self)@.dispatch_stepped(batch@, nested.deep_view(), now),
            final(self)@.sound(),
    {
        let mut batch = batch;
        match batch.advance(&mut self.run, now) {
            Advance::Finished => {
                self.phase = Phase::Nesting(nested);
                Action::Go
            },
            Advance::Interrupted => {
                self.phase = Phase::Closed;
                Action::Fail(AgentError::Interrupted)
            },
            Advance::Again => {
                self.phase = Phase::Dispatching { batch, nested };
                Action::Go
            },
            Advance::Wait { starts, listen } => {
                self.phase = Phase::Dispatching { batch, nested };
                Action::Work { starts, listen }
            },
        }
    }

    /// A report while a fold waits for its artifacts.
    fn step_fold(&mut self, plan: FoldPlan, report: Report) -> (r: Action)
        requires
            SessionView::at(old(self)@.run, PhaseView::Folding(plan@)).sound(),
            old(self)@.run.ledger.room(2),
        ensures
            (r@, final(self)@) == SessionView::at(
                old(self)@.run,
                PhaseView::Folding(plan@),
            ).fold_stepped(plan@, report@),
            final(self)@.sound(),
    {
        match report {
            Report::Spilled(paths) => {
                assert(plan.orders.deep_view().len() == plan.orders.len());
                assert(paths.deep_view().len() == paths.len());
                if paths.len() == plan.orders.len() {
                    self.run.commit_fold(&plan, &paths);
                    self.phase = Phase::Probing;
                    return Action::Probe;
                }
            },
            _ => {},
        }
        self.phase = Phase::Folding(plan);
        Action::Stay
    }

    /// A report on the provider call.
    fn step_call(&mut self, report: Report) -> (r: Action)
        requires
            SessionView::at(old(self)@.run, PhaseView::Calling).sound(),
            old(self)@.run.ledger.room(1),
        ensures
            (r@, final(self)@) == SessionView::at(old(self)@.run, PhaseView::Calling).call_stepped(
                report@,
            ),
            final(self)@.sound(),
    {
        match report {
            Report::Opened => {
                self.phase = Phase::Streaming;
                Action::Read
            },
            Report::Refused(error) => {
                self.phase = Phase::Closed;
                Action::Fail(self.run.call_failed(error))
            },
            _ => {
                self.phase = Phase::Calling;
                Action::Stay
            },
        }
    }

    /// A report on the stream.
    fn step_stream(&mut self, report: Report) -> (r: Action)
        requires
            SessionView::at(old(self)@.run, PhaseView::Streaming).sound(),
            old(self)@.run.ledger.room(4),
        ensures
            (r@, final(self)@) == SessionView::at(
                old(self)@.run,
                PhaseView::Streaming,
            ).stream_stepped(report@),
            final(self)@.sound(),
    {
        match report {
            Report::Chunk(chunk) => {
                self.run.push_chunk(chunk);
                self.phase = Phase::Checking;
                Action::Go
            },
            Report::Ended => self.end_stream(None),
            Report::Broke(error) => self.end_stream(Some(error)),
            _ => {
                self.phase = Phase::Streaming;
                Action::Stay
            },
        }
    }

    /// The look for an interrupt between two chunks.
    fn step_check(&mut self) -> (r: Action)
        requires
            SessionView::at(old(self)@.run, PhaseView::Checking).sound(),
            old(self)@.run.ledger.room(4),
        ensures
            (r@, final(self)@) == SessionView::at(
                old(self)@.run,
                PhaseView::Checking,
            ).check_stepped(),
            final(self)@.sound(),
    {
        self.phase = Phase::Streaming;
        if self.run.check_interrupt() {
            self.end_stream(None)
        } else {
            Action::Read
        }
    }

    /// A report while calls are dispatched.
    fn step_batch(
        &mut self,
        batch: Dispatch,
        nested: Vec<InstructionFile>,
        report: Report,
        now: u64,
    ) -> (r: Action)
        requires
            old(self)@.run.sound(),
            batch@.sound(old(self)@.run),
            old(self)@.run.ledger.room(
                2 * old(self)@.run.inbox.resolves.len() + 4 * batch@.calls.len()
                    + batch@.completed.len() + 5,
            ),
        ensures
            (r@, final(self)@) == SessionView::at(
                old(self)@.run,
                PhaseView::Dispatching { batch: batch@, nested: nested.deep_view() },
            ).batch_stepped(batch@, nested.deep_view(), report@, now),
            final(self)@.sound(),
    {
        let mut batch = batch;
        match report {
            Report::Ready => self.step_dispatch(batch, nested, now),
            Report::Completed { position, outcome } => {
                let finished = batch.complete(&self.run, position, outcome);
                self.phase = Phase::Dispatching { batch, nested };
                if finished {
                    Action::Go
                } else {
                    Action::Stay
                }
            },
            Report::Received(received) => {
                batch.receive(&mut self.run, received);
                self.phase = Phase::Dispatching { batch, nested };
                Action::Go
            },
            _ => {
                self.phase = Phase::Dispatching { batch, nested };
                Action::Stay
            },
        }
    }

    /// One step of the run.
    pub fn step(&mut self, report: Report, now: u64) -> (r: Action)
        requires
            old(self)@.sound(),
            old(self)@.ready(),
        ensures
            (r@, final(self)@) == old(self)@.stepped(report@, now),
            final(self)@.sound(),
    {
        let mut phase = Phase::Closed;
        std::mem::swap(&mut phase, &mut self.phase);
        match phase {
            Phase::Boundary => {
                self.phase = Phase::Boundary;
                match report {
                    Report::Ready => self.cross_boundary(),
                    _ => Action::Stay,
                }
            },
            Phase::Folding(plan) => self.step_fold(plan, report),
            Phase::Probing => match report {
                Report::Probed { git, offset_minutes } => {
                    self.phase = Phase::Calling;
                    Action::Call(self.run.open_request(git, offset_minutes))
                },
                _ => {
                    self.phase = Phase::Probing;
                    Action::Stay
                },
            },
            Phase::Calling => self.step_call(report),
            Phase::Streaming => self.step_stream(report),
            Phase::Checking => {
                self.phase = Phase::Checking;
                match report {
                    Report::Ready => self.step_check(),
                    _ => Action::Stay,
                }
            },
            Phase::Tracking { turn, calls } => match report {
                Report::Located(files) => self.settle_turn(turn, calls, files, now),
                _ => {
                    self.phase = Phase::Tracking { turn, calls };
                    Action::Stay
                },
            },
            Phase::Dispatching { batch, nested } => self.step_batch(batch, nested, report, now),
            Phase::Nesting(files) => match report {
                Report::Ready => {
                    assert(files.deep_view().len() == files.len());
                    self.run.inject_nested(&files);
                    self.phase = Phase::Boundary;
                    Action::Go
                },
                _ => {
                    self.phase = Phase::Nesting(files);
                    Action::Stay
                },
            },
            Phase::Closed => Action::Stay,
        }
    }
}

/// A run that is over stays over: whatever is reported, nothing changes.
pub proof fn closed_sessions_stay_closed(session: SessionView, report: ReportView, now: u64)
    requires
        session.phase is Closed,
    ensures
        session.stepped(report, now) == (ActionView::Stay, session),
{
}

/// A run is over exactly when it finished or failed.
pub proof fn endings_close_the_session(session: SessionView, report: ReportView, now: u64)
    requires
        !(session.phase is Closed),
    ensures
        ({
            let (action, after) = session.stepped(report, now);
            after.phase is Closed <==> action is Finish || action is Fail
        }),
{
}

} // verus!
