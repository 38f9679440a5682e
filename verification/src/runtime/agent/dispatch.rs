//! Tool dispatch: per-call approval and execution advance together, while
//! results keep the calls' order.
use crate::contract::approval::{Approval, ApprovalView};
use crate::contract::event::{Command, CommandView};
use crate::contract::live::{TimedRecv, TimedRecvView};
use crate::contract::message;
use crate::contract::message::{MessageView, ToolCall, ToolCallView};
use crate::copies::clone_option;
use crate::json::{Value, ValueView};
use crate::runtime::agent::failure;
use crate::runtime::agent::gate;
use crate::runtime::agent::gate::{Gate, GateRun, GateView};
use crate::runtime::agent::inbox::InboxView;
use crate::runtime::agent::ledger;
use crate::runtime::agent::outcome;
use crate::runtime::agent::outcome::{ToolOutcome, ToolOutcomeView};
use crate::runtime::agent::run::{Run, RunView};
use crate::runtime::agent::tool;
use crate::runtime::agent::tool::ToolDeclarationView;
use vstd::prelude::*;

verus! {

/// Where one call of a batch stands.
#[derive(Debug, PartialEq, Eq)]
pub enum Slot {
    /// Not started.
    Waiting,
    /// In flight.
    Running {
        span: String,
    },
    /// Finished; its result waits for its place in order.
    Done {
        span: String,
        outcome: ToolOutcome,
    },
    /// Its result is recorded.
    Recorded,
}

/// What a [`Slot`] holds.
#[verifier::ext_equal]
pub enum SlotView {
    Waiting,
    Running { span: Seq<char> },
    Done { span: Seq<char>, outcome: ToolOutcomeView },
    Recorded,
}

impl View for Slot {
    type V = SlotView;

    open spec fn view(&self) -> SlotView {
        match *self {
            Slot::Waiting => SlotView::Waiting,
            Slot::Running { span } => SlotView::Running {
                span: span@,
            },
            Slot::Done { span, outcome } => SlotView::Done {
                span: span@,
                outcome: outcome@,
            },
            Slot::Recorded => SlotView::Recorded,
        }
    }
}

impl DeepView for Slot {
    type V = SlotView;

    open spec fn deep_view(&self) -> SlotView {
        self@
    }
}

impl Clone for Slot {
    fn clone(&self) -> (r: Self)
        ensures
            r@ == self@,
    {
        match self {
            Slot::Waiting => Slot::Waiting,
            Slot::Running { span } => Slot::Running {
                span: span.clone(),
            },
            Slot::Done { span, outcome } => Slot::Done {
                span: span.clone(),
                outcome: outcome.clone(),
            },
            Slot::Recorded => Slot::Recorded,
        }
    }
}

/// One batch of calls on its way through approval and execution.
pub struct Dispatch {
    calls: Vec<ToolCall>,
    gate: Gate,
    all_safe: bool,
    slots: Vec<Slot>,
    flushed: usize,
    interrupt: Option<Command>,
    completed: Vec<usize>,
    before: Ghost<Seq<MessageView>>,
    answers: Ghost<Seq<(usize, MessageView)>>,
    outcomes: Ghost<Seq<Option<ToolOutcomeView>>>,
}

/// What a [`Dispatch`] holds.
#[verifier::ext_equal]
pub struct DispatchView {
    pub calls: Seq<ToolCallView>,
    pub gate: GateView,
    /// Whether the calls may overlap; otherwise one runs at a time.
    pub all_safe: bool,
    /// Where each call stands.
    pub slots: Seq<SlotView>,
    /// The calls before this position are settled.
    pub flushed: nat,
    /// The interrupt that stopped new starts.
    pub interrupt: Option<CommandView>,
    /// The positions that finished since the last announcement.
    pub completed: Seq<usize>,
    /// The history that the batch started from.
    pub before: Seq<MessageView>,
    /// The answers recorded so far, each with its position.
    pub answers: Seq<(usize, MessageView)>,
    /// What came of each call: what was reported for it, or its rejection.
    pub outcomes: Seq<Option<ToolOutcomeView>>,
}

impl View for Dispatch {
    type V = DispatchView;

    closed spec fn view(&self) -> DispatchView {
        DispatchView {
            calls: self.calls.deep_view(),
            gate: self.gate@,
            all_safe: self.all_safe,
            slots: self.slots.deep_view(),
            flushed: self.flushed as nat,
            interrupt: self.interrupt.deep_view(),
            completed: self.completed@,
            before: self.before@,
            answers: self.answers@,
            outcomes: self.outcomes@,
        }
    }
}

/// Whether a call is in flight.
pub open spec fn in_flight(slots: Seq<SlotView>) -> bool {
    exists|i: int| 0 <= i < slots.len() && (#[trigger] slots[i]) is Running
}

/// Whether every call may overlap with the others.
pub open spec fn all_parallel_safe(
    tools: Seq<ToolDeclarationView>,
    calls: Seq<ToolCallView>,
) -> bool {
    forall|i: int| 0 <= i < calls.len() ==> tool::parallel_safe(tools, #[trigger] calls[i])
}

/// The messages of recorded answers.
pub open spec fn answer_messages(answers: Seq<(usize, MessageView)>) -> Seq<MessageView> {
    answers.map_values(|a: (usize, MessageView)| a.1)
}

impl DispatchView {
    /// What holds of a batch at every step.
    #[verifier::opaque]
    pub open spec fn sound(self, run: RunView) -> bool {
        let n = self.calls.len();
        &&& self.slots.len() == n <= usize::MAX
        &&& self.gate.well_formed(n)
        &&& self.flushed <= n
        &&& self.interrupt matches Some(command) ==> command is Interrupt
        &&& forall|i: int| 0 <= i < self.completed.len() ==> (#[trigger] self.completed[i]) < n
        // A call starts only when it is decided, and runs only when approved.
        &&& forall|p: int|
            0 <= p < n && !((#[trigger] self.slots[p]) is Waiting) ==> self.gate.decisions[p]
                is Some
        &&& forall|p: int|
            0 <= p < n && (#[trigger] self.slots[p]) is Running ==> self.gate.decisions[p] == Some(
                ApprovalView::Approved,
            )
        // Unless all calls are safe to overlap, one is in flight at a time.
        &&& !self.all_safe ==> forall|p: int, q: int|
            0 <= p < n && 0 <= q < n && (#[trigger] self.slots[p]) is Running && (
            #[trigger] self.slots[q]) is Running ==> p == q
        // What is before the cursor is settled, what is behind it is not.
        &&& forall|p: int|
            0 <= p < self.flushed ==> (#[trigger] self.slots[p]) is Recorded || (
            self.slots[p] is Waiting && self.interrupt is Some)
        &&& forall|p: int|
            self.flushed <= p < n ==> !((#[trigger] self.slots[p]) is Recorded)
        // The history is what it was, with the answers in call order.
        &&& run.messages == self.before + answer_messages(self.answers)
        &&& forall|i: int|
            0 <= i < self.answers.len() ==> {
                &&& (#[trigger] self.answers[i]).0 < self.flushed
                &&& self.slots[self.answers[i].0 as int] is Recorded
                &&& self.answers[i].1 == self.answer_at(self.answers[i].0 as int)
            }
        &&& forall|i: int, j: int|
            0 <= i < j < self.answers.len() ==> (#[trigger] self.answers[i]).0 < (
            #[trigger] self.answers[j]).0
        &&& forall|p: int|
            0 <= p < self.flushed && (#[trigger] self.slots[p]) is Recorded ==> exists|i: int|
                0 <= i < self.answers.len() && (#[trigger] self.answers[i]).0 == p
        // What came of a call is there once it is done, and a rejection stands
        // for the call that it rejects.
        &&& self.outcomes.len() == n
        &&& forall|p: int|
            0 <= p < n ==> match #[trigger] self.slots[p] {
                SlotView::Waiting | SlotView::Running { .. } => self.outcomes[p] is None,
                SlotView::Done { outcome, .. } => self.outcomes[p] == Some(outcome),
                SlotView::Recorded => self.outcomes[p] is Some,
            }
        &&& forall|p: int|
            0 <= p < n && (#[trigger] self.outcomes[p]) is Some ==> match self.gate.decisions[p] {
                Some(ApprovalView::Rejected { comment }) => self.outcomes[p] == Some(
                    outcome::rejected_outcome(self.calls[p].name, comment),
                ),
                _ => true,
            }
    }

    /// The answer to the call at `p`, by what came of it.
    pub open spec fn answer_at(self, p: int) -> MessageView {
        let outcome = self.outcomes[p].unwrap();
        message::answer(self.calls[p].id, outcome.result, outcome.error is Some)
    }
}

/// A run and the batch that it dispatches.
#[verifier::ext_equal]
pub struct Batch {
    pub run: RunView,
    pub d: DispatchView,
}

/// A batch in the middle of an admission: what was admitted so far.
#[verifier::ext_equal]
pub struct Admission {
    pub batch: Batch,
    /// The positions to execute.
    pub starts: Seq<usize>,
    /// Whether any call was admitted.
    pub admitted: bool,
}

/// A batch right after its request was presented.
pub open spec fn opened(run: RunView, calls: Seq<ToolCallView>, now: u64) -> Batch {
    let (gate, presented) = run.gate_opened(calls, now);
    Batch {
        run: presented,
        d: DispatchView {
            calls,
            gate,
            all_safe: all_parallel_safe(run.wiring.tools, calls),
            slots: calls.map_values(|c: ToolCallView| SlotView::Waiting),
            flushed: 0,
            interrupt: None,
            completed: Seq::empty(),
            before: run.messages,
            answers: Seq::empty(),
            outcomes: calls.map_values(|c: ToolCallView| None::<ToolOutcomeView>),
        },
    }
}

impl Batch {
    /// After the call at `p` was admitted: a rejected one is done at once, an
    /// approved one starts.
    pub open spec fn admitted(self, p: int, decision: ApprovalView) -> Batch {
        let call = self.d.calls[p];
        let span = ledger::span_id(self.run.ledger.next_id());
        Batch {
            run: self.run.call_started(call),
            d: match decision {
                ApprovalView::Rejected { comment } => DispatchView {
                    slots: self.d.slots.update(
                        p,
                        SlotView::Done {
                            span,
                            outcome: outcome::rejected_outcome(call.name, comment),
                        },
                    ),
                    completed: self.d.completed.push(p as usize),
                    outcomes: self.d.outcomes.update(
                        p,
                        Some(outcome::rejected_outcome(call.name, comment)),
                    ),
                    ..self.d
                },
                ApprovalView::Approved => DispatchView {
                    slots: self.d.slots.update(p, SlotView::Running { span }),
                    ..self.d
                },
            },
        }
    }

    /// After the results that are due were recorded in call order. On
    /// interrupt, calls never touched are passed over, without a made-up
    /// denial.
    pub open spec fn flushed(self) -> Batch
        decreases self.d.calls.len() - self.d.flushed,
    {
        let at = self.d.flushed;
        if at >= self.d.calls.len() {
            self
        } else {
            match self.d.slots[at as int] {
                SlotView::Done { span, outcome } => self.recorded(span, outcome).flushed(),
                SlotView::Waiting => if self.d.interrupt is Some {
                    Batch { d: DispatchView { flushed: at + 1, ..self.d }, ..self }.flushed()
                } else {
                    self
                },
                _ => self,
            }
        }
    }

    /// After the result of the next call was recorded.
    pub open spec fn recorded(
        self,
        span: Seq<char>,
        outcome: ToolOutcomeView,
    ) -> Batch {
        let at = self.d.flushed;
        let call = self.d.calls[at as int];
        Batch {
            run: self.run.result_recorded(
                call,
                span,
                outcome,
                self.d.gate.address(at as int),
            ),
            d: DispatchView {
                slots: self.d.slots.update(at as int, SlotView::Recorded),
                flushed: at + 1,
                answers: self.d.answers.push(
                    (
                        at as usize,
                        message::answer(call.id, outcome.result, outcome.error is Some),
                    ),
                ),
                ..self.d
            },
        }
    }

    /// After the finished calls among `positions` that still wait for their
    /// place were announced.
    pub open spec fn announced(self, positions: Seq<usize>) -> RunView
        decreases positions.len(),
    {
        if positions.len() == 0 {
            self.run
        } else {
            let before = self.announced(positions.drop_last());
            let p = positions.last() as int;
            match self.d.slots[p] {
                SlotView::Done { span, outcome } => before.completion_published(
                    self.d.calls[p],
                    p,
                    span,
                    outcome,
                ),
                _ => before,
            }
        }
    }

    /// After a look for an interrupt; the first one stays.
    pub open spec fn looked(self) -> Batch {
        if self.d.interrupt is Some {
            self
        } else {
            Batch {
                run: RunView {
                    inbox: InboxView { interrupt: None, ..self.run.inbox },
                    ..self.run
                },
                d: DispatchView { interrupt: self.run.inbox.interrupt, ..self.d },
            }
        }
    }

    /// After the buffered resolves were applied.
    pub open spec fn drained(self, now: u64) -> Batch {
        Batch {
            run: self.run.gate_drained(self.d.gate, now),
            d: DispatchView {
                gate: gate::drained(
                    self.run.gate_run(self.d.gate),
                    self.run.root,
                    self.run.turn,
                    now,
                ).gate,
                ..self.d
            },
        }
    }

    /// What may start now: nothing once interrupted; otherwise every decided
    /// call where all are safe to overlap, else the first one while none is
    /// in flight.
    pub open spec fn admission(self, now: u64) -> Admission {
        let looked = self.looked();
        if looked.d.interrupt is Some {
            Admission { batch: looked, starts: Seq::empty(), admitted: false }
        } else {
            let drained = looked.drained(now);
            admit_from(
                Admission { batch: drained, starts: Seq::empty(), admitted: false },
                drained.d.flushed,
            )
        }
    }

    /// After the results due were recorded and the rest announced.
    pub open spec fn settled(self) -> Batch {
        let flushed = self.flushed();
        Batch {
            run: flushed.announced(flushed.d.completed),
            d: DispatchView { completed: Seq::empty(), ..flushed.d },
        }
    }

    /// After one step of the dispatch.
    pub open spec fn advanced(self, now: u64) -> Batch {
        let settled = self.admission(now).batch.settled();
        if settled.d.flushed == settled.d.calls.len() {
            match settled.d.interrupt {
                Some(command) => Batch {
                    run: settled.run.command_recorded(command, settled.run.turn).ended(
                        settled.run.turn,
                        Some(failure::interruption()),
                    ),
                    d: settled.d,
                },
                None => settled,
            }
        } else {
            settled
        }
    }

    /// What the step asks for.
    pub open spec fn next(self, now: u64) -> AdvanceView {
        let admission = self.admission(now);
        let settled = admission.batch.settled();
        if settled.d.flushed == settled.d.calls.len() {
            if settled.d.interrupt is Some {
                AdvanceView::Interrupted
            } else {
                AdvanceView::Finished
            }
        } else if admission.admitted && !in_flight(settled.d.slots) {
            AdvanceView::Again
        } else {
            AdvanceView::Wait {
                starts: admission.starts,
                listen: if settled.d.gate.pending() && settled.d.interrupt is None {
                    Some(settled.d.gate.remaining(now) as u64)
                } else {
                    None
                },
            }
        }
    }

    /// After the call at `p` finished.
    pub open spec fn completed(self, p: int, outcome: ToolOutcomeView) -> DispatchView {
        match self.d.slots[p] {
            SlotView::Running { span } => DispatchView {
                slots: self.d.slots.update(p, SlotView::Done { span, outcome }),
                completed: self.d.completed.push(p as usize),
                outcomes: self.d.outcomes.update(p, Some(outcome)),
                ..self.d
            },
            _ => self.d,
        }
    }
}

/// The admission of the calls from position `p` on.
pub open spec fn admit_from(a: Admission, p: nat) -> Admission
    decreases a.batch.d.calls.len() - p,
{
    let d = a.batch.d;
    if p >= d.calls.len() || (!d.all_safe && in_flight(d.slots)) {
        a
    } else if !(d.slots[p as int] is Waiting) {
        admit_from(a, p + 1)
    } else {
        match d.gate.decisions[p as int] {
            None => admit_from(a, p + 1),
            Some(decision) => {
                let next = Admission {
                    batch: a.batch.admitted(p as int, decision),
                    starts: if decision is Approved {
                        a.starts.push(p as usize)
                    } else {
                        a.starts
                    },
                    admitted: true,
                };
                if d.all_safe {
                    admit_from(next, p + 1)
                } else {
                    next
                }
            },
        }
    }
}

/// What a step of the dispatch asks for.
pub enum Advance {
    /// Every call has its result.
    Finished,
    /// The run was interrupted; what was in flight has its result.
    Interrupted,
    /// Step again at once.
    Again,
    /// Execute the calls at `starts`, then wait for a completion and, where
    /// `listen` gives the milliseconds left, for a command.
    Wait { starts: Vec<usize>, listen: Option<u64> },
}

/// What an [`Advance`] holds.
#[verifier::ext_equal]
pub enum AdvanceView {
    Finished,
    Interrupted,
    Again,
    Wait { starts: Seq<usize>, listen: Option<u64> },
}

impl View for Advance {
    type V = AdvanceView;

    open spec fn view(&self) -> AdvanceView {
        match *self {
            Advance::Finished => AdvanceView::Finished,
            Advance::Interrupted => AdvanceView::Interrupted,
            Advance::Again => AdvanceView::Again,
            Advance::Wait { starts, listen } => AdvanceView::Wait { starts: starts@, listen },
        }
    }
}

/// How a started call is to be executed.
pub enum Execution {
    /// Invoke the tool of that name with the arguments.
    Invoke { name: String, arguments: Value },
    /// The outcome is known without an invocation.
    Answer(ToolOutcome),
}

/// What an [`Execution`] holds.
#[verifier::ext_equal]
pub enum ExecutionView {
    Invoke { name: Seq<char>, arguments: ValueView },
    Answer(ToolOutcomeView),
}

impl DeepView for Execution {
    type V = ExecutionView;

    open spec fn deep_view(&self) -> ExecutionView {
        match *self {
            Execution::Invoke { name, arguments } => ExecutionView::Invoke {
                name: name@,
                arguments: arguments@,
            },
            Execution::Answer(outcome) => ExecutionView::Answer(outcome@),
        }
    }
}

/// How the call at `position` is to be executed: a name that is not wired in
/// is answered at once.
pub open spec fn execution_of(
    d: DispatchView,
    tools: Seq<ToolDeclarationView>,
    position: usize,
) -> Option<ExecutionView> {
    if position >= d.calls.len() {
        None
    } else {
        let call = d.calls[position as int];
        if tool::declared(tools, call.name) is Some {
            Some(ExecutionView::Invoke { name: call.name, arguments: call.arguments })
        } else {
            Some(ExecutionView::Answer(outcome::unknown_outcome(call.name)))
        }
    }
}

/// The sizes that agree in a sound batch.
proof fn sizes_agree(d: DispatchView, run: RunView)
    requires
        d.sound(run),
    ensures
        d.slots.len() == d.calls.len() <= usize::MAX,
        d.gate.well_formed(d.calls.len()),
        d.flushed <= d.calls.len(),
        d.interrupt matches Some(command) ==> command is Interrupt,
        forall|i: int|
            0 <= i < d.completed.len() ==> (#[trigger] d.completed[i]) < d.calls.len(),
{
    reveal(DispatchView::sound);
}

/// Soundness of a batch looks at the history alone of a run.
pub(crate) proof fn sound_with_same_history(d: DispatchView, run: RunView, other: RunView)
    requires
        d.sound(run),
        other.messages == run.messages,
    ensures
        d.sound(other),
{
    reveal(DispatchView::sound);
}

/// Admitting a decided, waiting call keeps the batch sound.
proof fn admitting_is_sound(batch: Batch, p: int, decision: ApprovalView)
    requires
        batch.d.sound(batch.run),
        batch.d.flushed <= p < batch.d.calls.len(),
        batch.d.slots[p] is Waiting,
        batch.d.gate.decisions[p] == Some(decision),
        batch.d.all_safe || !in_flight(batch.d.slots),
    ensures
        batch.admitted(p, decision).d.sound(batch.admitted(p, decision).run),
{
    reveal(DispatchView::sound);
    let after = batch.admitted(p, decision);
    let n = batch.d.calls.len();
    assert forall|i: int| 0 <= i < after.d.completed.len() implies (
    #[trigger] after.d.completed[i]) < n by {
        if i < batch.d.completed.len() {
            assert(after.d.completed[i] == batch.d.completed[i]);
        }
    }
    if !after.d.all_safe {
        assert forall|q: int, r: int|
            0 <= q < n && 0 <= r < n && (#[trigger] after.d.slots[q]) is Running && (
            #[trigger] after.d.slots[r]) is Running implies q == r by {
            if q != p {
                assert(batch.d.slots[q] is Running);
            }
            if r != p {
                assert(batch.d.slots[r] is Running);
            }
        }
    }
    assert forall|i: int| 0 <= i < after.d.answers.len() implies {
        &&& (#[trigger] after.d.answers[i]).0 < after.d.flushed
        &&& after.d.slots[after.d.answers[i].0 as int] is Recorded
        &&& after.d.answers[i].1 == after.d.answer_at(after.d.answers[i].0 as int)
    } by {
        assert(batch.d.answers[i].0 < batch.d.flushed);
    }
}

/// Recording the next result keeps the batch sound.
proof fn recording_is_sound(
    batch: Batch,
    span: Seq<char>,
    outcome: ToolOutcomeView,
)
    requires
        batch.d.sound(batch.run),
        batch.d.flushed < batch.d.calls.len(),
        batch.d.slots[batch.d.flushed as int] == (SlotView::Done { span, outcome }),
    ensures
        batch.recorded(span, outcome).d.sound(batch.recorded(span, outcome).run),
{
    reveal(DispatchView::sound);
    let after = batch.recorded(span, outcome);
    let at = batch.d.flushed as int;
    let n = batch.d.calls.len();
    let answer = after.d.answers.last();
    assert(answer_messages(after.d.answers) =~= answer_messages(batch.d.answers).push(answer.1));
    assert(after.run.messages =~= after.d.before + answer_messages(after.d.answers));
    assert forall|i: int| 0 <= i < after.d.answers.len() implies {
        &&& (#[trigger] after.d.answers[i]).0 < after.d.flushed
        &&& after.d.slots[after.d.answers[i].0 as int] is Recorded
        &&& after.d.answers[i].1 == after.d.answer_at(after.d.answers[i].0 as int)
    } by {
        if i < batch.d.answers.len() {
            assert(after.d.answers[i] == batch.d.answers[i]);
        }
    }
    assert forall|i: int, j: int| 0 <= i < j < after.d.answers.len() implies (
    #[trigger] after.d.answers[i]).0 < (#[trigger] after.d.answers[j]).0 by {
        assert(after.d.answers[i] == batch.d.answers[i]);
        assert(batch.d.answers[i].0 < batch.d.flushed);
        if j < batch.d.answers.len() {
            assert(after.d.answers[j] == batch.d.answers[j]);
        }
    }
    assert forall|p: int|
        0 <= p < after.d.flushed && (#[trigger] after.d.slots[p]) is Recorded implies exists|
        i: int,
    |
        0 <= i < after.d.answers.len() && (#[trigger] after.d.answers[i]).0 == p by {
        if p < at {
            assert(batch.d.slots[p] is Recorded);
            let i = choose|i: int|
                0 <= i < batch.d.answers.len() && (#[trigger] batch.d.answers[i]).0 == p;
            assert(after.d.answers[i] == batch.d.answers[i]);
        } else {
            assert(after.d.answers[after.d.answers.len() - 1].0 == p);
        }
    }
    if !after.d.all_safe {
        assert forall|q: int, r: int|
            0 <= q < n && 0 <= r < n && (#[trigger] after.d.slots[q]) is Running && (
            #[trigger] after.d.slots[r]) is Running implies q == r by {
            assert(batch.d.slots[q] is Running);
            assert(batch.d.slots[r] is Running);
        }
    }
}

/// Passing over an untouched call after an interrupt keeps the batch sound.
proof fn passing_over_is_sound(batch: Batch)
    requires
        batch.d.sound(batch.run),
        batch.d.flushed < batch.d.calls.len(),
        batch.d.slots[batch.d.flushed as int] is Waiting,
        batch.d.interrupt is Some,
    ensures
        (DispatchView { flushed: batch.d.flushed + 1, ..batch.d }).sound(batch.run),
{
    reveal(DispatchView::sound);
    let after = DispatchView { flushed: batch.d.flushed + 1, ..batch.d };
    assert forall|i: int| 0 <= i < after.answers.len() implies (#[trigger] after.answers[i]).0
        < after.flushed by {
        assert(batch.d.answers[i].0 < batch.d.flushed);
    }
    assert forall|p: int|
        0 <= p < after.flushed && (#[trigger] after.slots[p]) is Recorded implies exists|i: int|
        0 <= i < after.answers.len() && (#[trigger] after.answers[i]).0 == p by {
        assert(p < batch.d.flushed);
        assert(batch.d.slots[p] is Recorded);
        let i = choose|i: int|
            0 <= i < batch.d.answers.len() && (#[trigger] batch.d.answers[i]).0 == p;
        assert(after.answers[i].0 == p);
    }
}

/// A gate may decide more without harm to the batch.
proof fn deciding_is_sound(d: DispatchView, run: RunView, gate: GateView)
    requires
        d.sound(run),
        gate.well_formed(d.calls.len()),
        forall|p: int|
            0 <= p < d.calls.len() && #[trigger] d.gate.decisions[p] is Some
                ==> gate.decisions[p] == d.gate.decisions[p],
    ensures
        (DispatchView { gate, ..d }).sound(run),
{
    reveal(DispatchView::sound);
    let after = DispatchView { gate, ..d };
    assert forall|p: int|
        0 <= p < d.calls.len() && !((#[trigger] after.slots[p]) is Waiting) implies
        after.gate.decisions[p] is Some by {
        assert(d.gate.decisions[p] is Some);
    }
    assert forall|p: int|
        0 <= p < d.calls.len() && (#[trigger] after.slots[p]) is Running implies
        after.gate.decisions[p] == Some(ApprovalView::Approved) by {
        assert(d.gate.decisions[p] is Some);
    }
    assert forall|p: int|
        0 <= p < d.calls.len() && (#[trigger] after.outcomes[p]) is Some implies match after.gate.decisions[p] {
        Some(ApprovalView::Rejected { comment }) => after.outcomes[p] == Some(
            outcome::rejected_outcome(after.calls[p].name, comment),
        ),
        _ => true,
    } by {
        assert(!(d.slots[p] is Waiting));
        assert(d.gate.decisions[p] is Some);
    }
}

/// Draining a gate leaves the decisions made.
proof fn draining_keeps_decisions(
    run: GateRun,
    root: Seq<char>,
    turn: usize,
    now: u64,
    n: nat,
)
    requires
        run.gate.well_formed(n),
    ensures
        gate::drained(run, root, turn, now).gate.well_formed(n),
        forall|p: int|
            0 <= p < n && #[trigger] run.gate.decisions[p] is Some ==> gate::drained(
                run,
                root,
                turn,
                now,
            ).gate.decisions[p] == run.gate.decisions[p],
{
    if run.gate.expired(now) && run.gate.request is Some {
        let (denied, ledger) = gate::denied_unanswered(
            run.gate,
            run.ledger,
            true,
            root,
            turn,
        );
        assert forall|p: int| 0 <= p < n implies denied.well_formed(n) && (
        #[trigger] run.gate.decisions[p] is Some ==> denied.decisions[p]
            == run.gate.decisions[p]) by {
            gate::unanswered_is_denied(run.gate, gate::denial_comment(true), p, n);
        }
        let first = run.gate.positions[0];
        gate::unanswered_is_denied(run.gate, gate::denial_comment(true), first as int, n);
        gate::settling_is_well_formed(GateRun { gate: denied, ledger, ..run }, root, turn, n);
        let after = gate::drained(run, root, turn, now).gate;
        assert forall|p: int| 0 <= p < n && #[trigger] run.gate.decisions[p] is Some implies
            after.decisions[p] == run.gate.decisions[p] by {
            assert(denied.decisions[p] == run.gate.decisions[p]);
        }
    } else {
        gate::settling_is_well_formed(run, root, turn, n);
    }
}

impl Dispatch {
    /// Opens the batch: the gated calls are presented for approval.
    pub fn open(run: &mut Run, calls: Vec<ToolCall>, now: u64) -> (r: Dispatch)
        requires
            old(run)@.sound(),
            old(run)@.ledger.room(2),
        ensures
            (Batch { run: final(run)@, d: r@ }) == opened(old(run)@, calls.deep_view(), now),
            r@.sound(final(run)@),
            final(run)@.sound(),
    {
        let ghost start = run@;
        let ghost all = calls.deep_view();
        let all_safe = run.all_parallel_safe(&calls);
        let gate = run.open_gate(&calls, now);
        let mut slots: Vec<Slot> = Vec::new();
        let mut i: usize = 0;
        while i < calls.len()
            invariant
                i <= calls.len(),
                slots.len() == i,
                forall|j: int| 0 <= j < i ==> (#[trigger] slots[j]) is Waiting,
            decreases calls.len() - i,
        {
            slots.push(Slot::Waiting);
            i += 1;
        }
        assert(all.len() == calls.len());
        assert forall|j: int| 0 <= j < all.len() implies (#[trigger] slots.deep_view()[j])
            == SlotView::Waiting by {
            assert(slots[j] is Waiting);
        }
        assert(slots.deep_view() =~= all.map_values(|c: ToolCallView| SlotView::Waiting));
        let ghost none: Seq<(usize, MessageView)> = Seq::empty();
        let r = Dispatch {
            calls,
            gate,
            all_safe,
            slots,
            flushed: 0,
            interrupt: None,
            completed: Vec::new(),
            before: Ghost(start.messages),
            answers: Ghost(none),
            outcomes: Ghost(all.map_values(|c: ToolCallView| None::<ToolOutcomeView>)),
        };
        assert(r@ =~= opened(start, all, now).d);
        proof {
            reveal(DispatchView::sound);
            assert(start.messages + answer_messages(none) =~= start.messages);
            gate::opened_is_well_formed(start.wiring.tools, all, start.turn, now, start.ledger);
        }
        r
    }

    /// The call at `position`.
    pub fn call(&self, position: usize) -> (r: Option<&ToolCall>)
        ensures
            match r {
                Some(call) => position < self@.calls.len() && call@
                    == self@.calls[position as int],
                None => position >= self@.calls.len(),
            },
    {
        if position < self.calls.len() {
            assert(self.calls.deep_view()[position as int] == self.calls[position as int]@);
            Some(&self.calls[position])
        } else {
            None
        }
    }

    /// How to execute a started call: a name that is not wired in is answered
    /// at once.
    pub fn execution(&self, run: &Run, position: usize) -> (r: Option<Execution>)
        ensures
            r.deep_view() == execution_of(self@, run@.wiring.tools, position),
    {
        match self.call(position) {
            Some(call) => if run.knows_tool(call.name.as_str()) {
                Some(
                    Execution::Invoke {
                        name: call.name.clone(),
                        arguments: call.arguments.clone(),
                    },
                )
            } else {
                Some(Execution::Answer(outcome::unknown_tool(call)))
            },
            None => None,
        }
    }

    /// The call at `position` finished. Says whether it was in flight; what
    /// was not changes nothing.
    pub fn complete(&mut self, run: &Run, position: usize, outcome: ToolOutcome) -> (r: bool)
        requires
            old(self)@.sound(run@),
        ensures
            r == (position < old(self)@.calls.len() && old(self)@.slots[position as int]
                is Running),
            final(self)@ == (if r {
                (Batch { run: run@, d: old(self)@ }).completed(position as int, outcome@)
            } else {
                old(self)@
            }),
            final(self)@.sound(run@),
    {
        let ghost start = self@;
        proof {
            sizes_agree(start, run@);
        }
        assert(self.slots.deep_view().len() == self.slots.len());
        if position >= self.slots.len() {
            return false;
        }
        assert(start.slots[position as int] == self.slots[position as int]@);
        let span = match &self.slots[position] {
            Slot::Running { span } => span.clone(),
            _ => {
                return false;
            },
        };
        let ghost settled = outcome@;
        let ghost slots = self.slots.deep_view();
        self.slots.set(position, Slot::Done { span, outcome });
        assert(self.slots.deep_view() =~= slots.update(
            position as int,
            SlotView::Done { span: span@, outcome: settled },
        ));
        self.completed.push(position);
        proof {
            self.outcomes@ = self.outcomes@.update(position as int, Some(settled));
            reveal(DispatchView::sound);
            let after = self@;
            let n = start.calls.len();
            assert(start.flushed <= position);
            assert forall|i: int| 0 <= i < after.completed.len() implies (
            #[trigger] after.completed[i]) < n by {
                if i < start.completed.len() {
                    assert(after.completed[i] == start.completed[i]);
                }
            }
            assert forall|i: int| 0 <= i < after.answers.len() implies {
                &&& (#[trigger] after.answers[i]).0 < after.flushed
                &&& after.slots[after.answers[i].0 as int] is Recorded
                &&& after.answers[i].1 == after.answer_at(after.answers[i].0 as int)
            } by {
                assert(start.answers[i].0 < start.flushed);
            }
            if !after.all_safe {
                assert forall|q: int, r: int|
                    0 <= q < n && 0 <= r < n && (#[trigger] after.slots[q]) is Running && (
                    #[trigger] after.slots[r]) is Running implies q == r by {
                    assert(start.slots[q] is Running);
                    assert(start.slots[r] is Running);
                }
            }
        }
        true
    }

    /// A command, a closed channel or the end of the wait came in.
    pub fn receive(&mut self, run: &mut Run, received: TimedRecv)
        requires
            old(run)@.sound(),
            old(self)@.sound(old(run)@),
            old(run)@.ledger.room(2),
        ensures
            match received@ {
                TimedRecvView::Command(command) => final(run)@ == old(run)@.noted(command)
                    && final(self)@ == old(self)@,
                TimedRecvView::Closed => final(run)@ == old(run)@.gate_denied(
                    old(self)@.gate,
                    false,
                ) && final(self)@ == (DispatchView {
                    gate: gate::denied_unanswered(
                        old(self)@.gate,
                        old(run)@.ledger,
                        false,
                        old(run)@.root,
                        old(run)@.turn,
                    ).0,
                    ..old(self)@
                }),
                TimedRecvView::TimedOut => final(run)@ == old(run)@.gate_denied(
                    old(self)@.gate,
                    true,
                ) && final(self)@ == (DispatchView {
                    gate: gate::denied_unanswered(
                        old(self)@.gate,
                        old(run)@.ledger,
                        true,
                        old(run)@.root,
                        old(run)@.turn,
                    ).0,
                    ..old(self)@
                }),
            },
            final(run)@.sound(),
            final(self)@.sound(final(run)@),
    {
        match received {
            TimedRecv::Command(command) => {
                let ghost before = run@;
                run.note(command);
                proof {
                    sound_with_same_history(self@, before, run@);
                }
            },
            TimedRecv::Closed => self.deny(run, false),
            TimedRecv::TimedOut => self.deny(run, true),
        }
    }

    fn deny(&mut self, run: &mut Run, timed_out: bool)
        requires
            old(run)@.sound(),
            old(self)@.sound(old(run)@),
            old(run)@.ledger.room(2),
        ensures
            final(run)@ == old(run)@.gate_denied(old(self)@.gate, timed_out),
            final(self)@ == (DispatchView {
                gate: gate::denied_unanswered(
                    old(self)@.gate,
                    old(run)@.ledger,
                    timed_out,
                    old(run)@.root,
                    old(run)@.turn,
                ).0,
                ..old(self)@
            }),
            final(run)@.sound(),
            final(self)@.sound(final(run)@),
    {
        let ghost start = self@;
        let ghost n = start.calls.len();
        let ghost before = run@;
        proof {
            sizes_agree(start, before);
        }
        run.deny_gate(&mut self.gate, timed_out);
        proof {
            sound_with_same_history(start, before, run@);
            assert forall|p: int| 0 <= p < n && #[trigger] start.gate.decisions[p] is Some implies
                self@.gate.decisions[p] == start.gate.decisions[p] by {
                gate::unanswered_is_denied(
                    start.gate,
                    gate::denial_comment(timed_out),
                    p,
                    n,
                );
            }
            deciding_is_sound(start, run@, self@.gate);
            assert(self@ =~= DispatchView { gate: self@.gate, ..start });
        }
    }

    /// Whether a call is in flight.
    pub fn in_flight(&self) -> (r: bool)
        ensures
            r == in_flight(self@.slots),
    {
        let ghost all = self.slots.deep_view();
        let mut i: usize = 0;
        while i < self.slots.len()
            invariant
                i <= self.slots.len(),
                all == self.slots.deep_view(),
                forall|j: int| 0 <= j < i ==> !((#[trigger] all[j]) is Running),
            decreases self.slots.len() - i,
        {
            assert(all[i as int] == self.slots[i as int]@);
            if let Slot::Running { .. } = &self.slots[i] {
                return true;
            }
            i += 1;
        }
        false
    }

    /// Admits the call at `position`, which waits and is decided.
    fn let_in(
        &mut self,
        run: &mut Run,
        position: usize,
        decision: &Approval,
    )
        requires
            old(run)@.sound(),
            old(run)@.ledger.room(2),
            old(self)@.sound(old(run)@),
            old(self)@.flushed <= position < old(self)@.calls.len(),
            old(self)@.slots[position as int] is Waiting,
            old(self)@.gate.decisions[position as int] == Some(decision@),
            old(self)@.all_safe || !in_flight(old(self)@.slots),
        ensures
            (Batch { run: final(run)@, d: final(self)@ }) == (Batch {
                run: old(run)@,
                d: old(self)@,
            }).admitted(position as int, decision@),
            final(run)@.sound(),
            final(self)@.sound(final(run)@),
    {
        let ghost start = Batch { run: run@, d: self@ };
        proof {
            sizes_agree(self@, run@);
            admitting_is_sound(start, position as int, decision@);
        }
        assert(self.calls.deep_view()[position as int] == self.calls[position as int]@);
        assert(self.slots.deep_view().len() == self.slots.len());
        let span = run.start_call(&self.calls[position]);
        let ghost slots = self.slots.deep_view();
        match decision {
            Approval::Rejected { comment } => {
                let outcome = outcome::rejection(&self.calls[position], comment);
                let ghost settled = outcome@;
                self.slots.set(position, Slot::Done { span, outcome });
                assert(self.slots.deep_view() =~= slots.update(
                    position as int,
                    SlotView::Done { span: span@, outcome: settled },
                ));
                self.completed.push(position);
                proof {
                    self.outcomes@ = self.outcomes@.update(position as int, Some(settled));
                }
            },
            Approval::Approved => {
                self.slots.set(position, Slot::Running { span });
                assert(self.slots.deep_view() =~= slots.update(
                    position as int,
                    SlotView::Running { span: span@ },
                ));
            },
        }
        assert(Batch { run: run@, d: self@ } =~= start.admitted(position as int, decision@));
    }

    /// Admits what may start; returns the positions to execute and whether
    /// any call was admitted.
    fn admit_ready(&mut self, run: &mut Run) -> (r: (Vec<usize>, bool))
        requires
            old(run)@.sound(),
            old(self)@.sound(old(run)@),
            old(run)@.ledger.room(2 * old(self)@.calls.len()),
        ensures
            (Admission {
                batch: Batch { run: final(run)@, d: final(self)@ },
                starts: r.0@,
                admitted: r.1,
            }) == admit_from(
                Admission {
                    batch: Batch { run: old(run)@, d: old(self)@ },
                    starts: Seq::empty(),
                    admitted: false,
                },
                old(self)@.flushed,
            ),
            final(run)@.sound(),
            final(self)@.sound(final(run)@),
            old(run)@.ledger.left() <= final(run)@.ledger.left() + 2 * old(self)@.calls.len(),
            final(self)@.calls == old(self)@.calls,
            final(self)@.flushed == old(self)@.flushed,
            final(self)@.interrupt == old(self)@.interrupt,
            final(self)@.completed.len() <= old(self)@.completed.len() + old(self)@.calls.len(),
    {
        let ghost first = self@.flushed;
        let ghost n = self@.calls.len();
        let ghost start_left = run@.ledger.left();
        let ghost finished = self@.completed.len();
        let ghost whole = admit_from(
            Admission {
                batch: Batch { run: run@, d: self@ },
                starts: Seq::empty(),
                admitted: false,
            },
            first,
        );
        let mut starts: Vec<usize> = Vec::new();
        let mut admitted = false;
        let mut p: usize = self.flushed;
        proof {
            sizes_agree(self@, run@);
        }
        assert(self.calls.deep_view().len() == self.calls.len());
        loop
            invariant_except_break
                whole == admit_from(
                    Admission {
                        batch: Batch { run: run@, d: self@ },
                        starts: starts@,
                        admitted,
                    },
                    p as nat,
                ),
            invariant
                first <= p <= n,
                n == self@.calls.len(),
                n == self.calls.len(),
                self@.calls == old(self)@.calls,
                self@.flushed == first,
                first == old(self)@.flushed,
                self@.interrupt == old(self)@.interrupt,
                run@.sound(),
                self@.sound(run@),
                2 * n <= start_left,
                start_left <= run@.ledger.left() + 2 * p,
                self@.completed.len() <= finished + p,
            ensures
                whole == (Admission {
                    batch: Batch { run: run@, d: self@ },
                    starts: starts@,
                    admitted,
                }),
                start_left <= run@.ledger.left() + 2 * n,
                self@.completed.len() <= finished + n,
            decreases n - p,
        {
            proof {
                sizes_agree(self@, run@);
            }
            if p >= self.calls.len() {
                break;
            }
            if !self.all_safe && self.in_flight() {
                break;
            }
            assert(self@.slots[p as int] == self.slots[p as int]@);
            let waiting = match &self.slots[p] {
                Slot::Waiting => true,
                _ => false,
            };
            if !waiting {
                p += 1;
                continue;
            }
            let decision = match self.gate.decision(p) {
                Some(decision) => decision,
                None => {
                    p += 1;
                    continue;
                },
            };
            let approved = match &decision {
                Approval::Approved => true,
                Approval::Rejected { .. } => false,
            };
            self.let_in(run, p, &decision);
            admitted = true;
            if approved {
                starts.push(p);
            }
            p += 1;
            if !self.all_safe {
                break;
            }
        }
        (starts, admitted)
    }

    /// Records the results that are due, in call order.
    fn flush(&mut self, run: &mut Run)
        requires
            old(run)@.sound(),
            old(self)@.sound(old(run)@),
            old(run)@.ledger.room(old(self)@.calls.len()),
        ensures
            (Batch { run: final(run)@, d: final(self)@ }) == (Batch {
                run: old(run)@,
                d: old(self)@,
            }).flushed(),
            final(run)@.sound(),
            final(self)@.sound(final(run)@),
            old(run)@.ledger.left() <= final(run)@.ledger.left() + old(self)@.calls.len(),
            final(self)@.calls == old(self)@.calls,
            final(self)@.completed == old(self)@.completed,
            final(self)@.interrupt == old(self)@.interrupt,
    {
        let ghost start = Batch { run: run@, d: self@ };
        let ghost n = self@.calls.len();
        let ghost start_left = run@.ledger.left();
        assert(self.calls.deep_view().len() == self.calls.len());
        loop
            invariant
                n == self@.calls.len(),
                n == self.calls.len(),
                self@.calls == start.d.calls,
                self@.completed == start.d.completed,
                self@.interrupt == start.d.interrupt,
                run@.sound(),
                self@.sound(run@),
                n <= start_left,
                start_left <= run@.ledger.left() + self@.flushed,
                start.flushed() == (Batch { run: run@, d: self@ }).flushed(),
            ensures
                start.flushed() == (Batch { run: run@, d: self@ }),
                start_left <= run@.ledger.left() + n,
            decreases n - self@.flushed,
        {
            let at: usize = self.flushed;
            proof {
                sizes_agree(self@, run@);
            }
            if at >= self.calls.len() {
                break;
            }
            let ghost batch = Batch { run: run@, d: self@ };
            let ghost slots = self.slots.deep_view();
            assert(self@.slots[at as int] == self.slots[at as int]@);
            assert(self.calls.deep_view()[at as int] == self.calls[at as int]@);
            let step = match &self.slots[at] {
                Slot::Done { span, outcome } => Some((span.clone(), outcome.clone())),
                Slot::Waiting => {
                    if self.interrupt.is_none() {
                        break;
                    }
                    None
                },
                _ => {
                    break;
                },
            };
            match step {
                Some((span, outcome)) => {
                    let ghost settled = outcome@;
                    proof {
                        recording_is_sound(batch, span@, settled);
                    }
                    let address = self.gate.approval_address(at);
                    let ghost answer = message::answer(
                        self@.calls[at as int].id,
                        settled.result,
                        settled.error is Some,
                    );
                    run.push_result(&self.calls[at], span.as_str(), outcome, address);
                    self.slots.set(at, Slot::Recorded);
                    assert(self.slots.deep_view() =~= slots.update(at as int, SlotView::Recorded));
                    self.flushed = at + 1;
                    proof {
                        self.answers@ = self.answers@.push((at, answer));
                    }
                    assert(Batch { run: run@, d: self@ } =~= batch.recorded(span@, settled));
                },
                None => {
                    proof {
                        passing_over_is_sound(batch);
                    }
                    self.flushed = at + 1;
                },
            }
        }
    }

    /// Announces the finished calls that still wait for their place.
    fn announce(&mut self, run: &mut Run)
        requires
            old(run)@.sound(),
            old(self)@.sound(old(run)@),
            old(run)@.ledger.room(old(self)@.completed.len()),
        ensures
            final(run)@ == (Batch { run: old(run)@, d: old(self)@ }).announced(
                old(self)@.completed,
            ),
            final(self)@ == (DispatchView { completed: Seq::empty(), ..old(self)@ }),
            final(run)@.sound(),
            final(self)@.sound(final(run)@),
            old(run)@.ledger.left() <= final(run)@.ledger.left() + old(self)@.completed.len(),
    {
        let ghost start = Batch { run: run@, d: self@ };
        let ghost all = self@.completed;
        let mut i: usize = 0;
        proof {
            sizes_agree(self@, run@);
        }
        assert(self.slots.deep_view().len() == self.slots.len());
        assert(self.calls.deep_view().len() == self.calls.len());
        while i < self.completed.len()
            invariant
                i <= self.completed.len(),
                self@ == start.d,
                all == self@.completed,
                forall|k: int| 0 <= k < all.len() ==> (#[trigger] all[k]) < start.d.calls.len(),
                self.slots.len() == start.d.calls.len(),
                self.calls.len() == start.d.calls.len(),
                run@ == start.announced(all.take(i as int)),
                run@.sound(),
                run@.messages == start.run.messages,
                start.run.ledger.room(all.len()),
                start.run.ledger.left() <= run@.ledger.left() + i,
            decreases self.completed.len() - i,
        {
            let p: usize = self.completed[i];
            assert(all[i as int] == p);
            assert(all.take(i as int + 1).drop_last() =~= all.take(i as int));
            assert(all.take(i as int + 1).last() == p);
            assert(self@.slots[p as int] == self.slots[p as int]@);
            assert(self.calls.deep_view()[p as int] == self.calls[p as int]@);
            if let Slot::Done { span, outcome } = &self.slots[p] {
                run.publish_completion(&self.calls[p], p, span.as_str(), outcome);
            }
            i += 1;
        }
        assert(all.take(i as int) =~= all);
        self.completed = Vec::new();
        assert(self@ =~= DispatchView { completed: Seq::empty(), ..start.d });
        proof {
            reveal(DispatchView::sound);
        }
    }

    /// How many numbers and readings a step may take.
    pub fn need(&self, run: &Run) -> (r: u128)
        ensures
            r == 2 * run@.inbox.resolves.len() + 4 * self@.calls.len() + self@.completed.len() + 5,
    {
        assert(self.calls.deep_view().len() == self.calls.len());
        2 * (run.resolve_count() as u128) + 4 * (self.calls.len() as u128) + (
        self.completed.len() as u128) + 5
    }

    /// One step: an interrupt stops new starts, decided calls are admitted,
    /// results are recorded in call order, and finished calls that wait for
    /// their place are announced.
    #[verifier::rlimit(60)]
    pub fn advance(&mut self, run: &mut Run, now: u64) -> (r: Advance)
        requires
            old(run)@.sound(),
            old(self)@.sound(old(run)@),
            old(run)@.ledger.room(
                2 * old(run)@.inbox.resolves.len() + 4 * old(self)@.calls.len() + old(
                    self,
                )@.completed.len() + 5,
            ),
        ensures
            r@ == (Batch { run: old(run)@, d: old(self)@ }).next(now),
            (Batch { run: final(run)@, d: final(self)@ }) == (Batch {
                run: old(run)@,
                d: old(self)@,
            }).advanced(now),
            final(run)@.sound(),
            final(self)@.sound(final(run)@),
    {
        let ghost start = Batch { run: run@, d: self@ };
        let ghost n = self@.calls.len();
        proof {
            sizes_agree(self@, run@);
        }
        if self.interrupt.is_none() {
            self.interrupt = run.take_interrupt();
        }
        let ghost looked = Batch { run: run@, d: self@ };
        assert(looked =~= start.looked());
        assert(looked.d.sound(looked.run)) by {
            reveal(DispatchView::sound);
            let d = looked.d;
            assert forall|p: int| 0 <= p < d.flushed implies (#[trigger] d.slots[p])
                is Recorded || (d.slots[p] is Waiting && d.interrupt is Some) by {
                assert(start.d.slots[p] == d.slots[p]);
            }
        }
        let mut starts: Vec<usize> = Vec::new();
        let mut admitted = false;
        if self.interrupt.is_none() {
            proof {
                draining_keeps_decisions(
                    looked.run.gate_run(looked.d.gate),
                    looked.run.root,
                    looked.run.turn,
                    now,
                    n,
                );
            }
            run.drain_gate(&mut self.gate, now);
            proof {
                sound_with_same_history(looked.d, looked.run, run@);
                deciding_is_sound(looked.d, run@, self@.gate);
                assert(self@ =~= DispatchView { gate: self@.gate, ..looked.d });
            }
            assert(Batch { run: run@, d: self@ } =~= looked.drained(now));
            let (ready, any) = self.admit_ready(run);
            starts = ready;
            admitted = any;
        }
        let ghost admission = Admission {
            batch: Batch { run: run@, d: self@ },
            starts: starts@,
            admitted,
        };
        assert(admission =~= start.admission(now));
        self.flush(run);
        self.announce(run);
        let ghost settled = Batch { run: run@, d: self@ };
        assert(settled =~= admission.batch.settled());
        assert(self.calls.deep_view().len() == self.calls.len());
        proof {
            sizes_agree(self@, run@);
        }
        if self.flushed == self.calls.len() {
            let interrupt = clone_option(&self.interrupt);
            match interrupt {
                Some(command) => {
                    let turn: usize = run.turn();
                    run.record_command(command, turn);
                    run.finish_with(turn, Some(failure::interrupted_detail()));
                    proof {
                        sound_with_same_history(settled.d, settled.run, run@);
                    }
                    return Advance::Interrupted;
                },
                None => {
                    return Advance::Finished;
                },
            }
        }
        if admitted && !self.in_flight() {
            return Advance::Again;
        }
        let listen = if self.interrupt.is_none() && self.gate.pending() {
            Some(self.gate.remaining(now))
        } else {
            None
        };
        Advance::Wait { starts, listen }
    }
}

/// An interrupt stops new starts: once there is one, a step starts nothing
/// and leaves every waiting call waiting.
pub proof fn nothing_starts_after_an_interrupt(batch: Batch, now: u64)
    requires
        batch.d.interrupt is Some || batch.run.inbox.interrupt is Some,
    ensures
        batch.admission(now).starts.len() == 0,
        !batch.admission(now).admitted,
        batch.admission(now).batch.d.slots == batch.d.slots,
{
}

proof fn admission_is(a: Admission, p: nat)
    requires
        a.batch.d.slots.len() == a.batch.d.calls.len() <= usize::MAX,
        forall|i: int|
            0 <= i < a.starts.len() ==> (#[trigger] a.starts[i]) < p && a.starts[i]
                < a.batch.d.calls.len() && a.batch.d.slots[a.starts[i] as int] is Running
                && a.batch.d.gate.decisions[a.starts[i] as int] == Some(ApprovalView::Approved),
    ensures
        ({
            let r = admit_from(a, p);
            &&& r.batch.d.gate == a.batch.d.gate
            &&& r.batch.d.calls == a.batch.d.calls
            &&& r.batch.d.flushed == a.batch.d.flushed
            &&& r.batch.d.interrupt == a.batch.d.interrupt
            &&& r.batch.d.slots.len() == r.batch.d.calls.len()
            &&& a.admitted ==> r.admitted
            &&& forall|i: int|
                0 <= i < r.starts.len() ==> (#[trigger] r.starts[i]) < r.batch.d.calls.len()
                    && r.batch.d.slots[r.starts[i] as int] is Running
                    && r.batch.d.gate.decisions[r.starts[i] as int] == Some(ApprovalView::Approved)
            &&& forall|q: int|
                0 <= q < a.batch.d.slots.len() && !((#[trigger] a.batch.d.slots[q]) is Waiting)
                    ==> r.batch.d.slots[q] == a.batch.d.slots[q]
            &&& !r.admitted ==> r.batch == a.batch
            &&& !r.admitted && (a.batch.d.all_safe || !in_flight(a.batch.d.slots)) ==> forall|
                q: int,
            |
                p <= q < a.batch.d.calls.len() && (#[trigger] a.batch.d.slots[q]) is Waiting
                    ==> a.batch.d.gate.decisions[q] is None
        }),
    decreases a.batch.d.calls.len() - p,
{
    let d = a.batch.d;
    if p >= d.calls.len() || (!d.all_safe && in_flight(d.slots)) {
    } else if !(d.slots[p as int] is Waiting) {
        admission_is(a, p + 1);
    } else {
        match d.gate.decisions[p as int] {
            None => {
                admission_is(a, p + 1);
            },
            Some(decision) => {
                let next = Admission {
                    batch: a.batch.admitted(p as int, decision),
                    starts: if decision is Approved {
                        a.starts.push(p as usize)
                    } else {
                        a.starts
                    },
                    admitted: true,
                };
                assert forall|i: int| 0 <= i < next.starts.len() implies (
                #[trigger] next.starts[i]) < p + 1 && next.starts[i] < d.calls.len()
                    && next.batch.d.slots[next.starts[i] as int] is Running
                    && next.batch.d.gate.decisions[next.starts[i] as int] == Some(
                    ApprovalView::Approved,
                ) by {
                    if i < a.starts.len() {
                        assert(next.starts[i] == a.starts[i]);
                    }
                }
                if d.all_safe {
                    admission_is(next, p + 1);
                    let r = admit_from(a, p);
                    assert forall|q: int|
                        0 <= q < d.slots.len() && !((#[trigger] d.slots[q]) is Waiting) implies
                        r.batch.d.slots[q] == d.slots[q] by {
                        assert(next.batch.d.slots[q] == d.slots[q]);
                    }
                }
            },
        }
    }
}

/// Only approved calls execute: whatever a step starts was decided, and
/// decided in favour.
pub proof fn only_approved_calls_start(batch: Batch, now: u64, i: int)
    requires
        batch.d.sound(batch.run),
        0 <= i < batch.admission(now).starts.len(),
    ensures
        ({
            let after = batch.admission(now);
            let p = after.starts[i] as int;
            &&& p < after.batch.d.calls.len()
            &&& after.batch.d.slots[p] is Running
            &&& after.batch.d.gate.decisions[p] == Some(ApprovalView::Approved)
        }),
{
    sizes_agree(batch.d, batch.run);
    let looked = batch.looked();
    if looked.d.interrupt is None {
        let drained = looked.drained(now);
        admission_is(
            Admission { batch: drained, starts: Seq::empty(), admitted: false },
            drained.d.flushed,
        );
    }
}

/// A rejected call is never in flight, and nothing runs undecided.
pub proof fn rejected_calls_never_run(d: DispatchView, run: RunView, p: int)
    requires
        d.sound(run),
        0 <= p < d.calls.len(),
        d.slots[p] is Running,
    ensures
        d.gate.decisions[p] == Some(ApprovalView::Approved),
{
    reveal(DispatchView::sound);
}

/// Unless every call is safe to overlap, at most one is in flight.
pub proof fn serial_batches_run_one_at_a_time(d: DispatchView, run: RunView, p: int, q: int)
    requires
        d.sound(run),
        !d.all_safe,
        0 <= p < d.calls.len(),
        0 <= q < d.calls.len(),
        d.slots[p] is Running,
        d.slots[q] is Running,
    ensures
        p == q,
{
    reveal(DispatchView::sound);
}

proof fn ascending_positions_are_bounded(answers: Seq<(usize, MessageView)>, i: int)
    requires
        0 <= i < answers.len(),
        forall|a: int, b: int|
            0 <= a < b < answers.len() ==> (#[trigger] answers[a]).0 < (#[trigger] answers[b]).0,
    ensures
        i <= answers[i].0,
    decreases i,
{
    if i > 0 {
        ascending_positions_are_bounded(answers, i - 1);
        assert(answers[i - 1].0 < answers[i].0);
    }
}

/// Results land in call order: at every step the history is what it was
/// before the batch, then the recorded answers by ascending position, each
/// naming its call and saying what came of it.
pub proof fn answers_keep_call_order(d: DispatchView, run: RunView)
    requires
        d.sound(run),
    ensures
        run.messages == d.before + answer_messages(d.answers),
        forall|i: int, j: int|
            0 <= i < j < d.answers.len() ==> (#[trigger] d.answers[i]).0 < (
            #[trigger] d.answers[j]).0,
        forall|i: int|
            0 <= i < d.answers.len() ==> (#[trigger] d.answers[i]).0 < d.calls.len()
                && d.outcomes[d.answers[i].0 as int] is Some && d.answers[i].1 == d.answer_at(
                d.answers[i].0 as int,
            ),
{
    reveal(DispatchView::sound);
}

proof fn admitting_keeps_outcomes(a: Admission, p: nat, q: int)
    requires
        a.batch.d.slots.len() == a.batch.d.calls.len(),
        a.batch.d.outcomes.len() == a.batch.d.calls.len(),
        0 <= q < a.batch.d.calls.len(),
        !(a.batch.d.slots[q] is Waiting),
    ensures
        admit_from(a, p).batch.d.outcomes[q] == a.batch.d.outcomes[q],
    decreases a.batch.d.calls.len() - p,
{
    let d = a.batch.d;
    if p < d.calls.len() && (d.all_safe || !in_flight(d.slots)) {
        match d.gate.decisions[p as int] {
            Some(decision) if d.slots[p as int] is Waiting => {
                if d.all_safe {
                    let next = Admission {
                        batch: a.batch.admitted(p as int, decision),
                        starts: if decision is Approved {
                            a.starts.push(p as usize)
                        } else {
                            a.starts
                        },
                        admitted: true,
                    };
                    admitting_keeps_outcomes(next, p + 1, q);
                }
            },
            _ => admitting_keeps_outcomes(a, p + 1, q),
        }
    }
}

proof fn flushing_keeps_outcomes(batch: Batch)
    ensures
        batch.flushed().d.outcomes == batch.d.outcomes,
    decreases batch.d.calls.len() - batch.d.flushed,
{
    let at = batch.d.flushed;
    if at < batch.d.calls.len() {
        match batch.d.slots[at as int] {
            SlotView::Done { span, outcome } => flushing_keeps_outcomes(
                batch.recorded(span, outcome),
            ),
            SlotView::Waiting => {
                if batch.d.interrupt is Some {
                    flushing_keeps_outcomes(
                        Batch { d: DispatchView { flushed: at + 1, ..batch.d }, ..batch },
                    );
                }
            },
            _ => {},
        }
    }
}

/// What came of a call stands: a report on a call in flight is what came of
/// it, no later report and no step changes it, and of a rejected call it is
/// the rejection with the comment of the decision.
pub proof fn outcomes_stand(batch: Batch, now: u64, p: int, report: ToolOutcomeView)
    requires
        batch.d.sound(batch.run),
        0 <= p < batch.d.calls.len(),
    ensures
        batch.d.slots[p] is Running ==> batch.completed(p, report).outcomes[p] == Some(report),
        batch.d.outcomes[p] is Some ==> batch.completed(p, report) == batch.d,
        batch.d.outcomes[p] is Some ==> batch.advanced(now).d.outcomes[p] == batch.d.outcomes[p],
        batch.d.outcomes[p] is Some ==> match batch.d.gate.decisions[p] {
            Some(ApprovalView::Rejected { comment }) => batch.d.outcomes[p] == Some(
                outcome::rejected_outcome(batch.d.calls[p].name, comment),
            ),
            _ => true,
        },
{
    reveal(DispatchView::sound);
    if batch.d.outcomes[p] is Some {
        assert(!(batch.d.slots[p] is Waiting));
        let looked = batch.looked();
        if looked.d.interrupt is None {
            let drained = looked.drained(now);
            admitting_keeps_outcomes(
                Admission { batch: drained, starts: Seq::empty(), admitted: false },
                drained.d.flushed,
                p,
            );
        }
        flushing_keeps_outcomes(batch.admission(now).batch);
    }
}

/// A batch that was not interrupted answers every call, in order, with what
/// came of it.
pub proof fn finished_batches_answer_every_call(d: DispatchView, run: RunView, p: int)
    requires
        d.sound(run),
        d.flushed == d.calls.len(),
        d.interrupt is None,
        0 <= p < d.calls.len(),
    ensures
        d.answers.len() == d.calls.len(),
        d.answers[p].0 == p,
        d.outcomes[p] is Some,
        d.answers[p].1 == d.answer_at(p),
    decreases p,
{
    reveal(DispatchView::sound);
    every_call_has_an_answer(d, run, p);
    if d.calls.len() > 0 {
        every_call_has_an_answer(d, run, d.calls.len() - 1);
        let last = d.answers.len() - 1;
        ascending_positions_are_bounded(d.answers, last);
        assert(d.answers[last].0 < d.flushed);
    }
}

proof fn every_call_has_an_answer(d: DispatchView, run: RunView, p: int)
    requires
        d.sound(run),
        d.flushed == d.calls.len(),
        d.interrupt is None,
        0 <= p < d.calls.len(),
    ensures
        p < d.answers.len(),
        d.answers[p].0 == p,
    decreases p,
{
    reveal(DispatchView::sound);
    assert(d.slots[p] is Recorded);
    let i = choose|i: int| 0 <= i < d.answers.len() && (#[trigger] d.answers[i]).0 == p;
    ascending_positions_are_bounded(d.answers, i);
    if i < p {
        every_call_has_an_answer(d, run, i);
    }
}

proof fn flushing_stops_at(batch: Batch)
    requires
        batch.d.slots.len() == batch.d.calls.len(),
        batch.d.flushed <= batch.d.calls.len(),
    ensures
        ({
            let r = batch.flushed();
            &&& r.d.calls == batch.d.calls
            &&& r.d.gate == batch.d.gate
            &&& r.d.interrupt == batch.d.interrupt
            &&& r.d.slots.len() == batch.d.slots.len()
            &&& batch.d.flushed <= r.d.flushed <= r.d.calls.len()
            &&& forall|q: int|
                r.d.flushed <= q < r.d.slots.len() ==> r.d.slots[q] == (
                #[trigger] batch.d.slots[q])
            &&& r.d.flushed < r.d.calls.len() ==> {
                let slot = r.d.slots[r.d.flushed as int];
                slot is Running || slot is Recorded || (slot is Waiting && r.d.interrupt is None)
            }
        }),
    decreases batch.d.calls.len() - batch.d.flushed,
{
    let at = batch.d.flushed;
    if at < batch.d.calls.len() {
        match batch.d.slots[at as int] {
            SlotView::Done { span, outcome } => {
                let next = batch.recorded(span, outcome);
                flushing_stops_at(next);
                let r = batch.flushed();
                assert forall|q: int| r.d.flushed <= q < r.d.slots.len() implies r.d.slots[q] == (
                #[trigger] batch.d.slots[q]) by {
                    assert(r.d.slots[q] == next.d.slots[q]);
                }
            },
            SlotView::Waiting => {
                if batch.d.interrupt is Some {
                    flushing_stops_at(
                        Batch { d: DispatchView { flushed: at + 1, ..batch.d }, ..batch },
                    );
                }
            },
            _ => {},
        }
    }
}

/// A batch never waits for nothing: where a step asks to wait, a call is in
/// flight, or an undecided one keeps the command channel open.
pub proof fn waiting_has_a_reason(batch: Batch, now: u64)
    requires
        batch.d.sound(batch.run),
        batch.next(now) is Wait,
    ensures
        in_flight(batch.advanced(now).d.slots) || batch.next(now)->listen is Some,
{
    reveal(DispatchView::sound);
    let looked = batch.looked();
    let admission = batch.admission(now);
    let n = batch.d.calls.len();
    if looked.d.interrupt is None {
        let drained = looked.drained(now);
        draining_keeps_decisions(
            looked.run.gate_run(looked.d.gate),
            looked.run.root,
            looked.run.turn,
            now,
            n,
        );
        admission_is(
            Admission { batch: drained, starts: Seq::empty(), admitted: false },
            drained.d.flushed,
        );
    }
    flushing_stops_at(admission.batch);
    let settled = admission.batch.settled();
    let at = settled.d.flushed as int;
    assert(at < n);
    if !in_flight(settled.d.slots) {
        let slot = settled.d.slots[at];
        assert(!(slot is Running));
        assert(admission.batch.d.slots[at] == slot);
        assert(!(slot is Recorded)) by {
            if looked.d.interrupt is None {
                if !(batch.d.slots[at] is Waiting) {
                    assert(admission.batch.d.slots[at] == batch.d.slots[at]);
                } else if admission.batch.d.slots[at] is Recorded {
                    admission_never_records(
                        Admission {
                            batch: looked.drained(now),
                            starts: Seq::empty(),
                            admitted: false,
                        },
                        looked.d.flushed,
                        at,
                    );
                }
            }
        }
        assert(slot is Waiting && settled.d.interrupt is None);
        assert(!admission.admitted);
        let drained = looked.drained(now);
        assert(!in_flight(drained.d.slots)) by {
            if in_flight(drained.d.slots) {
                let k = choose|k: int|
                    0 <= k < drained.d.slots.len() && (#[trigger] drained.d.slots[k]) is Running;
                assert(k >= batch.d.flushed);
                flushing_keeps_running(admission.batch, k);
                assert(settled.d.slots[k] is Running);
            }
        }
        assert(drained.d.slots[at] is Waiting);
        assert(drained.d.gate.decisions[at] is None);
        assert(settled.d.gate == drained.d.gate);
        assert(drained.d.gate.positions.contains(at as usize));
        let i = drained.d.gate.positions.index_of(at as usize);
        assert(drained.d.gate.decisions[drained.d.gate.positions[i] as int] is None);
        assert(settled.d.gate.pending());
    }
}

proof fn admission_never_records(a: Admission, p: nat, q: int)
    requires
        a.batch.d.slots.len() == a.batch.d.calls.len(),
        0 <= q < a.batch.d.slots.len(),
        !(a.batch.d.slots[q] is Recorded),
    ensures
        !(admit_from(a, p).batch.d.slots[q] is Recorded),
    decreases a.batch.d.calls.len() - p,
{
    let d = a.batch.d;
    if p >= d.calls.len() || (!d.all_safe && in_flight(d.slots)) {
    } else if !(d.slots[p as int] is Waiting) {
        admission_never_records(a, p + 1, q);
    } else {
        match d.gate.decisions[p as int] {
            None => {
                admission_never_records(a, p + 1, q);
            },
            Some(decision) => {
                let next = Admission {
                    batch: a.batch.admitted(p as int, decision),
                    starts: if decision is Approved {
                        a.starts.push(p as usize)
                    } else {
                        a.starts
                    },
                    admitted: true,
                };
                if d.all_safe {
                    admission_never_records(next, p + 1, q);
                }
            },
        }
    }
}

proof fn flushing_keeps_running(batch: Batch, k: int)
    requires
        batch.d.slots.len() == batch.d.calls.len(),
        batch.d.flushed <= k < batch.d.slots.len(),
        batch.d.slots[k] is Running,
    ensures
        batch.flushed().d.slots[k] is Running,
    decreases batch.d.calls.len() - batch.d.flushed,
{
    let at = batch.d.flushed;
    if at < batch.d.calls.len() && at < k {
        match batch.d.slots[at as int] {
            SlotView::Done { span, outcome } => {
                flushing_keeps_running(batch.recorded(span, outcome), k);
            },
            SlotView::Waiting => {
                if batch.d.interrupt is Some {
                    flushing_keeps_running(
                        Batch { d: DispatchView { flushed: at + 1, ..batch.d }, ..batch },
                        k,
                    );
                }
            },
            _ => {},
        }
    }
}

} // verus!
