//! The approval gate: one request per batch over the live stream, resolved
//! call by call or as a whole. The first decision on a call stands; what
//! stays unanswered is denied.
use crate::contract::approval::{Approval, ApprovalView};
use crate::contract::event::{Command, CommandView};
use crate::contract::live::{LiveKind, LiveKindView};
use crate::contract::message::{ToolCall, ToolCallView};
use crate::runtime::agent::inbox;
use crate::runtime::agent::inbox::{Inbox, InboxView};
use crate::runtime::agent::ledger;
use crate::runtime::agent::ledger::{Ledger, LedgerView};
use crate::runtime::agent::tool;
use crate::runtime::agent::tool::{ToolDeclaration, ToolDeclarationView};
use std::collections::HashMap;
use vstd::prelude::*;

verus! {

/// How long a request waits for its answers, in milliseconds.
pub const WAIT_BUDGET_MS: u64 = 300_000;

/// The reason given for a call that nobody decided in time.
pub const TIMED_OUT: &'static str = "approval timed out";

/// One batch's decisions.
pub struct Gate {
    request: Option<String>,
    positions: Vec<usize>,
    decisions: Vec<Option<Approval>>,
    opened_ms: u64,
}

/// What a [`Gate`] holds.
#[verifier::ext_equal]
pub struct GateView {
    /// The request's id; `None` where nothing is gated.
    pub request: Option<Seq<char>>,
    /// The positions of the gated calls, ascending.
    pub positions: Seq<usize>,
    /// The decision on each call of the batch; ungated calls are approved
    /// from the start.
    pub decisions: Seq<Option<ApprovalView>>,
    pub opened_ms: u64,
}

impl View for Gate {
    type V = GateView;

    closed spec fn view(&self) -> GateView {
        GateView {
            request: self.request.deep_view(),
            positions: self.positions@,
            decisions: self.decisions.deep_view(),
            opened_ms: self.opened_ms,
        }
    }
}

/// The positions of the gated calls.
pub open spec fn gated_positions(
    tools: Seq<ToolDeclarationView>,
    calls: Seq<ToolCallView>,
) -> Seq<usize>
    decreases calls.len(),
{
    if calls.len() == 0 {
        Seq::empty()
    } else {
        let before = gated_positions(tools, calls.drop_last());
        if tool::gated(tools, calls.last()) {
            before.push((calls.len() - 1) as usize)
        } else {
            before
        }
    }
}

/// The calls at the given positions.
pub open spec fn batch_of(calls: Seq<ToolCallView>, positions: Seq<usize>) -> Seq<ToolCallView> {
    positions.map_values(|p: usize| calls[p as int])
}

/// The decisions that a batch starts with.
pub open spec fn initial_decisions(
    tools: Seq<ToolDeclarationView>,
    calls: Seq<ToolCallView>,
) -> Seq<Option<ApprovalView>> {
    calls.map_values(
        |c: ToolCallView|
            if tool::gated(tools, c) {
                None
            } else {
                Some(ApprovalView::Approved)
            },
    )
}

/// The pending approvals of a batch, and the ledger after the request was
/// published.
pub open spec fn opened(
    tools: Seq<ToolDeclarationView>,
    calls: Seq<ToolCallView>,
    turn: usize,
    now: u64,
    ledger: LedgerView,
) -> (GateView, LedgerView) {
    let positions = gated_positions(tools, calls);
    let decisions = initial_decisions(tools, calls);
    if positions.len() == 0 {
        (GateView { request: None, positions, decisions, opened_ms: now }, ledger)
    } else {
        let request = ledger::request_id(ledger.next_id());
        (
            GateView { request: Some(request), positions, decisions, opened_ms: now },
            ledger.minted().published(
                LiveKindView::ApprovalRequested {
                    request_id: request,
                    turn: ledger::shown_turn(turn),
                    calls: batch_of(calls, positions),
                },
            ),
        )
    }
}

/// What a batch reply says about the call with gated index `index`: a short
/// reply denies the remainder.
pub open spec fn answer_for(answers: Seq<ApprovalView>, index: int) -> ApprovalView {
    if 0 <= index < answers.len() {
        answers[index]
    } else {
        ApprovalView::Rejected { comment: None }
    }
}

impl GateView {
    /// A gate over `n` calls.
    pub open spec fn well_formed(self, n: nat) -> bool {
        &&& self.decisions.len() == n <= usize::MAX
        &&& forall|i: int| 0 <= i < self.positions.len() ==> (#[trigger] self.positions[i]) < n
        &&& forall|i: int, j: int|
            0 <= i < j < self.positions.len() ==> (#[trigger] self.positions[i]) < (
            #[trigger] self.positions[j])
        &&& forall|p: int|
            0 <= p < n && #[trigger] self.decisions[p] is None ==> self.positions.contains(
                p as usize,
            )
        &&& (self.request is Some) == (self.positions.len() > 0)
    }

    /// Whether some gated call is undecided.
    pub open spec fn pending(self) -> bool {
        exists|i: int|
            0 <= i < self.positions.len() && self.decisions[(
            #[trigger] self.positions[i]) as int] is None
    }

    /// The milliseconds since the request was published.
    pub open spec fn elapsed(self, now: u64) -> int {
        if now >= self.opened_ms {
            now - self.opened_ms
        } else {
            0
        }
    }

    /// Whether the wait is over with calls undecided.
    pub open spec fn expired(self, now: u64) -> bool {
        self.pending() && self.elapsed(now) >= WAIT_BUDGET_MS
    }

    /// The milliseconds left of the wait.
    pub open spec fn remaining(self, now: u64) -> int {
        if self.elapsed(now) >= WAIT_BUDGET_MS {
            0
        } else {
            WAIT_BUDGET_MS - self.elapsed(now)
        }
    }

    /// The decisions after the first `k` gated calls were answered, where
    /// they were undecided.
    pub open spec fn answered(self, answers: Seq<ApprovalView>, k: nat) -> Seq<
        Option<ApprovalView>,
    >
        decreases k,
    {
        if k == 0 {
            self.decisions
        } else {
            let before = self.answered(answers, (k - 1) as nat);
            let p = self.positions[k - 1] as int;
            if before[p] is None {
                before.update(p, Some(answer_for(answers, k - 1)))
            } else {
                before
            }
        }
    }

    /// The decisions with each undecided gated call denied.
    pub open spec fn denied(self, comment: Option<Seq<char>>, k: nat) -> Seq<Option<ApprovalView>>
        decreases k,
    {
        if k == 0 {
            self.decisions
        } else {
            let before = self.denied(comment, (k - 1) as nat);
            let p = self.positions[k - 1] as int;
            if before[p] is None {
                before.update(p, Some(ApprovalView::Rejected { comment }))
            } else {
                before
            }
        }
    }

    /// Whether a resolve changes anything here.
    pub open spec fn effective(self, command: CommandView) -> bool {
        match command {
            CommandView::ResolveApprovalCall { call_index, .. } => call_index
                < self.positions.len() && self.decisions[self.positions[call_index as int] as int]
                is None,
            CommandView::ResolveApproval { .. } => self.pending(),
            _ => false,
        }
    }

    /// The decisions after a resolve.
    pub open spec fn resolved(self, command: CommandView) -> GateView {
        match command {
            CommandView::ResolveApprovalCall { call_index, decision, .. } => if self.effective(
                command,
            ) {
                GateView {
                    decisions: self.decisions.update(
                        self.positions[call_index as int] as int,
                        Some(decision),
                    ),
                    ..self
                }
            } else {
                self
            },
            CommandView::ResolveApproval { decisions, .. } => GateView {
                decisions: self.answered(decisions, self.positions.len()),
                ..self
            },
            _ => self,
        }
    }

    /// The decisions, with what is unanswered denied.
    pub open spec fn closed_out(self, comment: Option<Seq<char>>) -> GateView {
        GateView { decisions: self.denied(comment, self.positions.len()), ..self }
    }

    /// The decisions of the gated calls, in the batch's order.
    pub open spec fn verdicts(self) -> Seq<ApprovalView> {
        self.positions.map_values(
            |p: usize|
                match self.decisions[p as int] {
                    Some(decision) => decision,
                    None => ApprovalView::Rejected { comment: None },
                },
        )
    }

    /// The approval address of a call: the request, and the call's place
    /// among the gated ones.
    pub open spec fn address(self, position: int) -> Option<(Seq<char>, usize)> {
        match self.request {
            Some(request) => if self.positions.contains(position as usize) {
                Some((request, self.positions.index_of(position as usize) as usize))
            } else {
                None
            },
            None => None,
        }
    }
}

/// The reason recorded for an unanswered call.
pub open spec fn denial_comment(timed_out: bool) -> Option<Seq<char>> {
    if timed_out {
        Some(TIMED_OUT@)
    } else {
        None
    }
}

/// The id of the resolution that a request gets when its wait ends without
/// one.
pub open spec fn closing_id(request: Seq<char>, timed_out: bool) -> Seq<char> {
    request + (if timed_out {
        "-timeout"@
    } else {
        "-closed"@
    })
}

/// The part of a run that approvals touch: the decisions, the inbox and the
/// ledger.
#[verifier::ext_equal]
pub struct GateRun {
    pub gate: GateView,
    pub inbox: InboxView,
    pub ledger: LedgerView,
}

/// After the unanswered calls were denied: the decisions of the whole batch
/// are recorded, with those already made kept.
pub open spec fn denied_unanswered(
    gate: GateView,
    ledger: LedgerView,
    timed_out: bool,
    root: Seq<char>,
    turn: usize,
) -> (GateView, LedgerView) {
    match gate.request {
        Some(request) => if gate.pending() {
            let after = gate.closed_out(denial_comment(timed_out));
            (
                after,
                ledger.command_recorded(
                    CommandView::ResolveApproval {
                        command_id: closing_id(request, timed_out),
                        request_id: request,
                        decisions: after.verdicts(),
                    },
                    root,
                    turn,
                ),
            )
        } else {
            (gate, ledger)
        },
        None => (gate, ledger),
    }
}

/// After the buffered resolves of this request were applied in receipt order,
/// each recorded where it had an effect and dropped where it had none.
pub open spec fn settled(run: GateRun, root: Seq<char>, turn: usize) -> GateRun
    decreases run.inbox.resolves.len(),
{
    match run.gate.request {
        Some(request) => {
            let at = inbox::first_resolve(run.inbox.resolves, request);
            if 0 <= at < run.inbox.resolves.len() {
                let command = run.inbox.resolves[at];
                let rest = InboxView { resolves: run.inbox.resolves.remove(at), ..run.inbox };
                if run.gate.effective(command) {
                    settled(
                        GateRun {
                            gate: run.gate.resolved(command),
                            inbox: rest,
                            ledger: run.ledger.command_recorded(command, root, turn),
                        },
                        root,
                        turn,
                    )
                } else {
                    settled(GateRun { inbox: rest, ..run }, root, turn)
                }
            } else {
                run
            }
        },
        None => run,
    }
}

/// After a drain: an expired wait denies what is unanswered before any late
/// answer is looked at.
pub open spec fn drained(run: GateRun, root: Seq<char>, turn: usize, now: u64) -> GateRun {
    let (gate, ledger) = if run.gate.expired(now) {
        denied_unanswered(run.gate, run.ledger, true, root, turn)
    } else {
        (run.gate, run.ledger)
    };
    settled(GateRun { gate, ledger, ..run }, root, turn)
}

proof fn gated_positions_are(tools: Seq<ToolDeclarationView>, calls: Seq<ToolCallView>)
    requires
        calls.len() <= usize::MAX,
    ensures
        gated_positions(tools, calls).len() <= calls.len(),
        forall|i: int|
            0 <= i < gated_positions(tools, calls).len() ==> (
            #[trigger] gated_positions(tools, calls)[i]) < calls.len(),
        forall|i: int, j: int|
            0 <= i < j < gated_positions(tools, calls).len() ==> (#[trigger] gated_positions(
                tools,
                calls,
            )[i]) < (#[trigger] gated_positions(tools, calls)[j]),
        forall|p: int|
            0 <= p < calls.len() ==> (#[trigger] tool::gated(tools, calls[p]))
                == gated_positions(tools, calls).contains(p as usize),
    decreases calls.len(),
{
    if calls.len() > 0 {
        let rest = calls.drop_last();
        let before = gated_positions(tools, rest);
        let after = gated_positions(tools, calls);
        gated_positions_are(tools, rest);
        assert forall|p: int| 0 <= p < calls.len() implies (#[trigger] tool::gated(
            tools,
            calls[p],
        )) == after.contains(p as usize) by {
            if p < rest.len() {
                assert(rest[p] == calls[p]);
                assert(tool::gated(tools, rest[p]) == before.contains(p as usize));
                if before.contains(p as usize) {
                    let i = before.index_of(p as usize);
                    assert(after[i] == p as usize);
                }
                if after.contains(p as usize) {
                    let i = after.index_of(p as usize);
                    assert(after[i] == p as usize);
                    assert(i < before.len());
                    assert(before[i] == p as usize);
                }
            } else {
                if tool::gated(tools, calls.last()) {
                    assert(after.last() == p as usize);
                    assert(after[after.len() - 1] == p as usize);
                } else if after.contains(p as usize) {
                    let i = after.index_of(p as usize);
                    assert(before[i] == p as usize);
                }
            }
        }
    }
}

/// A fresh gate is well-formed: exactly the gated calls are undecided.
pub proof fn opened_is_well_formed(
    tools: Seq<ToolDeclarationView>,
    calls: Seq<ToolCallView>,
    turn: usize,
    now: u64,
    ledger: LedgerView,
)
    requires
        calls.len() <= usize::MAX,
    ensures
        opened(tools, calls, turn, now, ledger).0.well_formed(calls.len()),
        forall|p: int|
            0 <= p < calls.len() ==> (#[trigger] opened(
                tools,
                calls,
                turn,
                now,
                ledger,
            ).0.decisions[p] is None) == tool::gated(tools, calls[p]),
{
    gated_positions_are(tools, calls);
    let gate = opened(tools, calls, turn, now, ledger).0;
    assert forall|p: int| 0 <= p < calls.len() && #[trigger] gate.decisions[p] is None implies
        gate.positions.contains(p as usize) by {
        assert(tool::gated(tools, calls[p]));
    }
}

proof fn answered_is(gate: GateView, answers: Seq<ApprovalView>, k: nat, n: nat)
    requires
        gate.well_formed(n),
        k <= gate.positions.len(),
    ensures
        gate.answered(answers, k).len() == n,
        forall|i: int|
            0 <= i < k ==> gate.answered(answers, k)[(#[trigger] gate.positions[i]) as int] == (
            match gate.decisions[gate.positions[i] as int] {
                Some(decision) => Some(decision),
                None => Some(answer_for(answers, i)),
            }),
        forall|p: int|
            0 <= p < n && (forall|i: int|
                0 <= i < k ==> (#[trigger] gate.positions[i]) != p)
                ==> #[trigger] gate.answered(answers, k)[p] == gate.decisions[p],
    decreases k,
{
    if k > 0 {
        answered_is(gate, answers, (k - 1) as nat, n);
        let before = gate.answered(answers, (k - 1) as nat);
        let after = gate.answered(answers, k);
        let last = gate.positions[k - 1];
        assert(before[last as int] == gate.decisions[last as int]) by {
            assert forall|i: int| 0 <= i < k - 1 implies (#[trigger] gate.positions[i])
                != last as int by {}
        }
        assert forall|i: int| 0 <= i < k implies after[(#[trigger] gate.positions[i]) as int] == (
        match gate.decisions[gate.positions[i] as int] {
            Some(decision) => Some(decision),
            None => Some(answer_for(answers, i)),
        }) by {
            if i < k - 1 {
                assert(gate.positions[i] < gate.positions[k - 1]);
            }
        }
        assert forall|p: int|
            0 <= p < n && (forall|i: int| 0 <= i < k ==> (#[trigger] gate.positions[i]) != p)
            implies #[trigger] after[p] == gate.decisions[p] by {
            assert(gate.positions[k - 1] != p);
            assert(before[p] == gate.decisions[p]);
        }
    }
}

proof fn denied_is(gate: GateView, comment: Option<Seq<char>>, k: nat, n: nat)
    requires
        gate.well_formed(n),
        k <= gate.positions.len(),
    ensures
        gate.denied(comment, k).len() == n,
        forall|i: int|
            0 <= i < k ==> gate.denied(comment, k)[(#[trigger] gate.positions[i]) as int] == (
            match gate.decisions[gate.positions[i] as int] {
                Some(decision) => Some(decision),
                None => Some(ApprovalView::Rejected { comment }),
            }),
        forall|p: int|
            0 <= p < n && (forall|i: int|
                0 <= i < k ==> (#[trigger] gate.positions[i]) != p)
                ==> #[trigger] gate.denied(comment, k)[p] == gate.decisions[p],
    decreases k,
{
    if k > 0 {
        denied_is(gate, comment, (k - 1) as nat, n);
        let before = gate.denied(comment, (k - 1) as nat);
        let after = gate.denied(comment, k);
        let last = gate.positions[k - 1];
        assert(before[last as int] == gate.decisions[last as int]) by {
            assert forall|i: int| 0 <= i < k - 1 implies (#[trigger] gate.positions[i])
                != last as int by {}
        }
        assert forall|i: int| 0 <= i < k implies after[(#[trigger] gate.positions[i]) as int] == (
        match gate.decisions[gate.positions[i] as int] {
            Some(decision) => Some(decision),
            None => Some(ApprovalView::Rejected { comment }),
        }) by {
            if i < k - 1 {
                assert(gate.positions[i] < gate.positions[k - 1]);
            }
        }
        assert forall|p: int|
            0 <= p < n && (forall|i: int| 0 <= i < k ==> (#[trigger] gate.positions[i]) != p)
            implies #[trigger] after[p] == gate.decisions[p] by {
            assert(gate.positions[k - 1] != p);
            assert(before[p] == gate.decisions[p]);
        }
    }
}

/// The first decision on a call stands: no resolve changes it, whatever it
/// names and however often it comes.
pub proof fn first_decision_stands(gate: GateView, command: CommandView, position: int, n: nat)
    requires
        gate.well_formed(n),
        0 <= position < n,
        gate.decisions[position] is Some,
    ensures
        gate.resolved(command).decisions[position] == gate.decisions[position],
{
    if let CommandView::ResolveApproval { decisions, .. } = command {
        answered_is(gate, decisions, gate.positions.len(), n);
        if gate.positions.contains(position as usize) {
            let i = gate.positions.index_of(position as usize);
            assert(gate.positions[i] == position as usize);
        } else {
            assert forall|i: int| 0 <= i < gate.positions.len() implies (
            #[trigger] gate.positions[i]) != position by {
                if gate.positions[i] == position {
                    assert(gate.positions.contains(position as usize));
                }
            }
        }
    }
}

/// A batch reply answers each undecided gated call by its own place in the
/// batch, whatever was decided before; where the reply is short, the call is
/// denied, and what the reply has too many is ignored.
pub proof fn batches_answer_by_place(
    gate: GateView,
    answers: Seq<ApprovalView>,
    command_id: Seq<char>,
    request_id: Seq<char>,
    index: int,
    n: nat,
)
    requires
        gate.well_formed(n),
        0 <= index < gate.positions.len(),
        gate.decisions[gate.positions[index] as int] is None,
    ensures
        ({
            let command = CommandView::ResolveApproval {
                command_id,
                request_id,
                decisions: answers,
            };
            gate.resolved(command).decisions[gate.positions[index] as int] == Some(
                if index < answers.len() {
                    answers[index]
                } else {
                    ApprovalView::Rejected { comment: None }
                },
            )
        }),
{
    answered_is(gate, answers, gate.positions.len(), n);
}

/// Unanswered is deny: closing a gate rejects exactly the undecided calls and
/// leaves nothing pending.
pub proof fn unanswered_is_denied(
    gate: GateView,
    comment: Option<Seq<char>>,
    position: int,
    n: nat,
)
    requires
        gate.well_formed(n),
        0 <= position < n,
    ensures
        gate.closed_out(comment).decisions[position] == (match gate.decisions[position] {
            Some(decision) => Some(decision),
            None => Some(ApprovalView::Rejected { comment }),
        }),
        !gate.closed_out(comment).pending(),
        gate.closed_out(comment).well_formed(n),
{
    denied_is(gate, comment, gate.positions.len(), n);
    let after = gate.closed_out(comment);
    if gate.positions.contains(position as usize) {
        let i = gate.positions.index_of(position as usize);
        assert(gate.positions[i] == position as usize);
    } else {
        assert forall|i: int| 0 <= i < gate.positions.len() implies (#[trigger] gate.positions[i])
            != position by {
            if gate.positions[i] == position {
                assert(gate.positions.contains(position as usize));
            }
        }
        assert(gate.decisions[position] is Some);
    }
    assert forall|p: int| 0 <= p < n && #[trigger] after.decisions[p] is None implies
        after.positions.contains(p as usize) by {
        if !gate.positions.contains(p as usize) {
            assert forall|i: int| 0 <= i < gate.positions.len() implies (
            #[trigger] gate.positions[i]) != p by {
                if gate.positions[i] == p {
                    assert(gate.positions.contains(p as usize));
                }
            }
            assert(gate.decisions[p] is None);
        }
    }
}

/// A resolve keeps the decisions well-formed.
pub proof fn resolving_is_well_formed(gate: GateView, command: CommandView, n: nat)
    requires
        gate.well_formed(n),
    ensures
        gate.resolved(command).well_formed(n),
        gate.resolved(command).request == gate.request,
        gate.resolved(command).positions == gate.positions,
{
    let after = gate.resolved(command);
    if let CommandView::ResolveApproval { decisions, .. } = command {
        answered_is(gate, decisions, gate.positions.len(), n);
    }
    assert forall|p: int| 0 <= p < n && #[trigger] after.decisions[p] is None implies
        after.positions.contains(p as usize) by {
        if gate.decisions[p] is Some {
            first_decision_stands(gate, command, p, n);
        }
    }
}

/// Draining keeps the decisions well-formed, and the request and positions.
pub proof fn settling_is_well_formed(
    run: GateRun,
    root: Seq<char>,
    turn: usize,
    n: nat,
)
    requires
        run.gate.well_formed(n),
    ensures
        settled(run, root, turn).gate.well_formed(n),
        settled(run, root, turn).gate.request == run.gate.request,
        settled(run, root, turn).gate.positions == run.gate.positions,
        settled(run, root, turn).gate.opened_ms == run.gate.opened_ms,
        forall|p: int|
            0 <= p < n && #[trigger] run.gate.decisions[p] is Some ==> settled(
                run,
                root,
                turn,
            ).gate.decisions[p] == run.gate.decisions[p],
    decreases run.inbox.resolves.len(),
{
    if let Some(request) = run.gate.request {
        let at = inbox::first_resolve(run.inbox.resolves, request);
        if 0 <= at < run.inbox.resolves.len() {
            let command = run.inbox.resolves[at];
            let rest = InboxView { resolves: run.inbox.resolves.remove(at), ..run.inbox };
            if run.gate.effective(command) {
                let next = GateRun {
                    gate: run.gate.resolved(command),
                    inbox: rest,
                    ledger: run.ledger.command_recorded(command, root, turn),
                };
                resolving_is_well_formed(run.gate, command, n);
                settling_is_well_formed(next, root, turn, n);
                assert forall|p: int|
                    0 <= p < n && #[trigger] run.gate.decisions[p] is Some implies settled(
                    run,
                    root,
                    turn,
                ).gate.decisions[p] == run.gate.decisions[p] by {
                    first_decision_stands(run.gate, command, p, n);
                    assert(next.gate.decisions[p] == run.gate.decisions[p]);
                }
            } else {
                settling_is_well_formed(GateRun { inbox: rest, ..run }, root, turn, n);
            }
        }
    }
}

/// The deadline is fixed when the request is published: neither an answer nor
/// a stray command moves it, and time only brings it nearer.
pub proof fn the_deadline_is_fixed(
    run: GateRun,
    root: Seq<char>,
    turn: usize,
    now: u64,
    later: u64,
    n: nat,
)
    requires
        run.gate.well_formed(n),
        now <= later,
    ensures
        drained(run, root, turn, now).gate.opened_ms == run.gate.opened_ms,
        drained(run, root, turn, now).gate.remaining(later) <= run.gate.remaining(now),
{
    let (gate, ledger) = if run.gate.expired(now) {
        unanswered_is_denied(run.gate, denial_comment(true), run.gate.positions[0] as int, n);
        denied_unanswered(run.gate, run.ledger, true, root, turn)
    } else {
        (run.gate, run.ledger)
    };
    settling_is_well_formed(GateRun { gate, ledger, ..run }, root, turn, n);
}

proof fn decided_gates_ignore_answers(run: GateRun, root: Seq<char>, turn: usize)
    requires
        !run.gate.pending(),
    ensures
        settled(run, root, turn).gate == run.gate,
        settled(run, root, turn).ledger == run.ledger,
    decreases run.inbox.resolves.len(),
{
    if let Some(request) = run.gate.request {
        let at = inbox::first_resolve(run.inbox.resolves, request);
        if 0 <= at < run.inbox.resolves.len() {
            let command = run.inbox.resolves[at];
            let rest = InboxView { resolves: run.inbox.resolves.remove(at), ..run.inbox };
            if let CommandView::ResolveApprovalCall { call_index, .. } = command {
                if call_index < run.gate.positions.len() {
                    assert(run.gate.decisions[run.gate.positions[call_index as int] as int]
                        is Some);
                }
            }
            decided_gates_ignore_answers(GateRun { inbox: rest, ..run }, root, turn);
        }
    }
}

/// Late answers change nothing: once the time is up, what is unanswered is
/// denied and recorded, and whatever waits in the inbox is without effect.
pub proof fn late_answers_change_nothing(
    run: GateRun,
    root: Seq<char>,
    turn: usize,
    now: u64,
    n: nat,
)
    requires
        run.gate.well_formed(n),
        run.gate.expired(now),
    ensures
        drained(run, root, turn, now).gate == run.gate.closed_out(Some(TIMED_OUT@)),
        drained(run, root, turn, now).ledger == denied_unanswered(
            run.gate,
            run.ledger,
            true,
            root,
            turn,
        ).1,
{
    let (gate, ledger) = denied_unanswered(run.gate, run.ledger, true, root, turn);
    unanswered_is_denied(run.gate, denial_comment(true), run.gate.positions[0] as int, n);
    decided_gates_ignore_answers(GateRun { gate, ledger, ..run }, root, turn);
}

impl Gate {
    /// Presents the batch's gated calls as one approval request on the live
    /// stream.
    pub fn open(
        tools: &Vec<ToolDeclaration>,
        calls: &Vec<ToolCall>,
        turn: usize,
        now: u64,
        ledger: &mut Ledger,
    ) -> (r: Gate)
        requires
            old(ledger)@.room(2),
        ensures
            (r@, final(ledger)@) == opened(
                tools.deep_view(),
                calls.deep_view(),
                turn,
                now,
                old(ledger)@,
            ),
            r@.well_formed(calls.len() as nat),
            old(ledger)@.sound() ==> final(ledger)@.sound(),
    {
        let ghost all = calls.deep_view();
        let ghost wired = tools.deep_view();
        let ghost start = initial_decisions(wired, all);
        let mut positions: Vec<usize> = Vec::new();
        let mut batch: Vec<ToolCall> = Vec::new();
        let mut decisions: Vec<Option<Approval>> = Vec::new();
        let mut i: usize = 0;
        proof {
            assert(calls.len() == all.len());
            opened_is_well_formed(wired, all, turn, now, ledger@);
        }
        while i < calls.len()
            invariant
                i <= calls.len(),
                all == calls.deep_view(),
                wired == tools.deep_view(),
                start == initial_decisions(wired, all),
                positions@ == gated_positions(wired, all.take(i as int)),
                batch.deep_view() == batch_of(all, positions@),
                decisions.deep_view() == start.take(i as int),
                decisions.len() == i,
            decreases calls.len() - i,
        {
            assert(all.take(i as int + 1).drop_last() =~= all.take(i as int));
            assert(all.take(i as int + 1).last() == calls[i as int]@);
            if tool::is_gated(tools, &calls[i]) {
                let ghost chosen = batch.deep_view();
                batch.push(calls[i].clone());
                assert(batch.deep_view() =~= chosen.push(calls[i as int]@));
                positions.push(i);
                decisions.push(None);
                assert(batch.deep_view() =~= batch_of(all, positions@));
            } else {
                decisions.push(Some(Approval::Approved));
            }
            i += 1;
            assert(decisions.deep_view() =~= start.take(i as int));
        }
        assert(all.take(i as int) =~= all);
        assert(start.take(i as int) =~= start);
        if positions.len() == 0 {
            return Gate { request: None, positions, decisions, opened_ms: now };
        }
        let request = ledger.next_request();
        ledger.publish(
            LiveKind::ApprovalRequested {
                request_id: request.clone(),
                turn: ledger::live_turn(turn),
                calls: batch,
            },
        );
        Gate { request: Some(request), positions, decisions, opened_ms: now }
    }

    /// How many calls the batch has.
    pub fn len(&self) -> (r: usize)
        ensures
            r == self@.decisions.len(),
    {
        self.decisions.len()
    }

    /// The decision on the call at `position`.
    pub fn decision(&self, position: usize) -> (r: Option<Approval>)
        requires
            position < self@.decisions.len(),
        ensures
            r.deep_view() == self@.decisions[position as int],
    {
        assert(self.decisions.deep_view()[position as int]
            == self.decisions[position as int].deep_view());
        match &self.decisions[position] {
            Some(decision) => Some(decision.clone()),
            None => None,
        }
    }

    /// Whether some gated call is undecided.
    pub fn pending(&self) -> (r: bool)
        requires
            self@.well_formed(self@.decisions.len()),
        ensures
            r == self@.pending(),
    {
        let ghost gate = self@;
        let mut i: usize = 0;
        while i < self.positions.len()
            invariant
                i <= self.positions.len(),
                gate == self@,
                gate.well_formed(gate.decisions.len()),
                forall|j: int|
                    0 <= j < i ==> gate.decisions[(#[trigger] gate.positions[j]) as int] is Some,
            decreases self.positions.len() - i,
        {
            let p: usize = self.positions[i];
            assert(gate.positions[i as int] == p);
            assert(gate.decisions[p as int] == self.decisions[p as int].deep_view());
            if self.decisions[p].is_none() {
                return true;
            }
            i += 1;
        }
        false
    }

    /// The milliseconds left of the wait.
    pub fn remaining(&self, now: u64) -> (r: u64)
        ensures
            r == self@.remaining(now),
    {
        let elapsed: u64 = now.saturating_sub(self.opened_ms);
        if elapsed >= WAIT_BUDGET_MS {
            0
        } else {
            WAIT_BUDGET_MS - elapsed
        }
    }

    /// Sets the decision on the call at `position`.
    fn decide(&mut self, position: usize, decision: Approval)
        requires
            position < old(self)@.decisions.len(),
        ensures
            final(self)@ == (GateView {
                decisions: old(self)@.decisions.update(position as int, Some(decision@)),
                ..old(self)@
            }),
    {
        let ghost before = self.decisions.deep_view();
        self.decisions.set(position, Some(decision));
        assert(self.decisions.deep_view() =~= before.update(position as int, Some(decision@)));
    }

    /// Denies what is unanswered, and records the whole batch's decisions.
    pub fn deny_unanswered(
        &mut self,
        ledger: &mut Ledger,
        timed_out: bool,
        root: &str,
        turn: usize,
    )
        requires
            old(self)@.well_formed(old(self)@.decisions.len()),
            old(ledger)@.room(2),
        ensures
            (final(self)@, final(ledger)@) == denied_unanswered(
                old(self)@,
                old(ledger)@,
                timed_out,
                root@,
                turn,
            ),
            final(self)@.well_formed(old(self)@.decisions.len()),
            !final(self)@.pending(),
            old(ledger)@.sound() ==> final(ledger)@.sound(),
    {
        let ghost start = self@;
        let ghost n = self@.decisions.len();
        let request = match &self.request {
            Some(request) => request.clone(),
            None => {
                return;
            },
        };
        if !self.pending() {
            return;
        }
        let comment: Option<String> = if timed_out {
            Some(TIMED_OUT.to_owned())
        } else {
            None
        };
        let ghost reason = denial_comment(timed_out);
        assert(comment.deep_view() == reason);
        let mut verdicts: Vec<Approval> = Vec::new();
        let mut i: usize = 0;
        while i < self.positions.len()
            invariant
                i <= self.positions.len(),
                start.well_formed(n),
                comment.deep_view() == reason,
                self@.positions == start.positions,
                self@ == (GateView { decisions: start.denied(reason, i as nat), ..start }),
            decreases self.positions.len() - i,
        {
            proof {
                denied_is(start, reason, i as nat, n);
            }
            let p: usize = self.positions[i];
            assert(start.positions[i as int] == p);
            assert(self@.decisions[p as int] == self.decisions[p as int].deep_view());
            if self.decisions[p].is_none() {
                self.decide(p, Approval::Rejected { comment: comment.clone() });
            }
            i += 1;
        }
        let ghost after = start.closed_out(reason);
        assert(self@ == after);
        proof {
            denied_is(start, reason, start.positions.len(), n);
        }
        let mut k: usize = 0;
        while k < self.positions.len()
            invariant
                k <= self.positions.len(),
                self@ == after,
                start.well_formed(n),
                after.positions == start.positions,
                after.decisions.len() == n,
                verdicts.len() == k,
                verdicts.deep_view() == after.verdicts().take(k as int),
            decreases self.positions.len() - k,
        {
            let p: usize = self.positions[k];
            assert(start.positions[k as int] == p);
            assert(self@.decisions[p as int] == self.decisions[p as int].deep_view());
            let verdict = match &self.decisions[p] {
                Some(decision) => decision.clone(),
                None => Approval::Rejected { comment: None },
            };
            assert(after.verdicts()[k as int] == verdict@);
            verdicts.push(verdict);
            k += 1;
            assert(verdicts.deep_view() =~= after.verdicts().take(k as int));
        }
        assert(after.verdicts().take(k as int) =~= after.verdicts());
        let mut command_id = request.clone();
        command_id.append(
            if timed_out {
                "-timeout"
            } else {
                "-closed"
            },
        );
        proof {
            if n > 0 {
                unanswered_is_denied(start, reason, 0, n);
            }
        }
        ledger.record_command(
            Command::ResolveApproval { command_id, request_id: request, decisions: verdicts },
            root,
            turn,
        );
    }

    /// Applies one resolve of this request; says whether it had an effect.
    fn resolve(&mut self, command: &Command) -> (r: bool)
        requires
            old(self)@.well_formed(old(self)@.decisions.len()),
        ensures
            r == old(self)@.effective(command@),
            final(self)@ == (if r {
                old(self)@.resolved(command@)
            } else {
                old(self)@
            }),
    {
        let ghost start = self@;
        let ghost n = self@.decisions.len();
        match command {
            Command::ResolveApprovalCall { call_index, decision, .. } => {
                let index: usize = *call_index;
                if index >= self.positions.len() {
                    return false;
                }
                let p: usize = self.positions[index];
                assert(start.positions[index as int] == p);
                assert(self@.decisions[p as int] == self.decisions[p as int].deep_view());
                if self.decisions[p].is_some() {
                    return false;
                }
                self.decide(p, decision.clone());
                true
            },
            Command::ResolveApproval { decisions: answers, .. } => {
                if !self.pending() {
                    return false;
                }
                let ghost reply = answers.deep_view();
                let mut i: usize = 0;
                while i < self.positions.len()
                    invariant
                        i <= self.positions.len(),
                        start.well_formed(n),
                        reply == answers.deep_view(),
                        self@.positions == start.positions,
                        self@ == (GateView { decisions: start.answered(reply, i as nat), ..start }),
                    decreases self.positions.len() - i,
                {
                    proof {
                        answered_is(start, reply, i as nat, n);
                    }
                    let p: usize = self.positions[i];
                    assert(start.positions[i as int] == p);
                    assert(self@.decisions[p as int] == self.decisions[p as int].deep_view());
                    if self.decisions[p].is_none() {
                        let answer = if i < answers.len() {
                            assert(reply[i as int] == answers[i as int]@);
                            answers[i].clone()
                        } else {
                            Approval::Rejected { comment: None }
                        };
                        assert(answer@ == answer_for(reply, i as int));
                        self.decide(p, answer);
                    }
                    i += 1;
                }
                true
            },
            _ => false,
        }
    }

    /// Applies the buffered resolves of this request, after an expired wait
    /// has denied what is unanswered.
    pub fn drain(
        &mut self,
        inbox: &mut Inbox,
        ledger: &mut Ledger,
        root: &str,
        turn: usize,
        now: u64,
    )
        requires
            old(self)@.well_formed(old(self)@.decisions.len()),
            old(ledger)@.room(2 * old(inbox)@.resolves.len() + 2),
        ensures
            (GateRun { gate: final(self)@, inbox: final(inbox)@, ledger: final(ledger)@ })
                == drained(
                GateRun { gate: old(self)@, inbox: old(inbox)@, ledger: old(ledger)@ },
                root@,
                turn,
                now,
            ),
            final(self)@.well_formed(old(self)@.decisions.len()),
            final(self)@.positions == old(self)@.positions,
            final(self)@.request == old(self)@.request,
            final(inbox)@.resolves.len() <= old(inbox)@.resolves.len(),
            old(ledger)@.left() <= final(ledger)@.left() + 2 * old(inbox)@.resolves.len() + 2,
            old(ledger)@.sound() ==> final(ledger)@.sound(),
    {
        let ghost n = self@.decisions.len();
        let ghost whole = drained(
            GateRun { gate: self@, inbox: inbox@, ledger: ledger@ },
            root@,
            turn,
            now,
        );
        let ghost buffered = inbox@.resolves.len();
        let ghost sound = ledger@.sound();
        let ghost start_left = ledger@.left();
        if self.pending() && self.remaining(now) == 0 {
            self.deny_unanswered(ledger, true, root, turn);
        }
        let request = match &self.request {
            Some(request) => request.clone(),
            None => {
                return;
            },
        };
        assert(whole == settled(
            GateRun { gate: self@, inbox: inbox@, ledger: ledger@ },
            root@,
            turn,
        ));
        loop
            invariant
                self@.well_formed(n),
                self@.positions == old(self)@.positions,
                self@.request == old(self)@.request,
                self@.request == Some(request@),
                n == self@.decisions.len(),
                inbox@.resolves.len() <= buffered,
                ledger@.room(2 * inbox@.resolves.len()),
                start_left + 2 * inbox@.resolves.len() <= ledger@.left() + 2 * buffered + 2,
                sound ==> ledger@.sound(),
                whole == settled(
                    GateRun { gate: self@, inbox: inbox@, ledger: ledger@ },
                    root@,
                    turn,
                ),
            ensures
                whole == (GateRun { gate: self@, inbox: inbox@, ledger: ledger@ }),
            decreases inbox@.resolves.len(),
        {
            match inbox.take_resolve(request.as_str()) {
                Some(command) => {
                    proof {
                        resolving_is_well_formed(self@, command@, n);
                    }
                    if self.resolve(&command) {
                        ledger.record_command(command, root, turn);
                    }
                },
                None => {
                    break;
                },
            }
        }
    }

    /// The approval address of the call at `position`.
    pub fn approval_address(&self, position: usize) -> (r: Option<(String, usize)>)
        requires
            self@.well_formed(self@.decisions.len()),
        ensures
            r.deep_view() == self@.address(position as int),
    {
        let ghost gate = self@;
        let request = match &self.request {
            Some(request) => request,
            None => {
                return None;
            },
        };
        let mut i: usize = 0;
        while i < self.positions.len()
            invariant
                i <= self.positions.len(),
                gate == self@,
                gate.well_formed(gate.decisions.len()),
                gate.request == Some(request@),
                forall|j: int| 0 <= j < i ==> (#[trigger] gate.positions[j]) != position,
            decreases self.positions.len() - i,
        {
            assert(gate.positions[i as int] == self.positions[i as int]);
            if self.positions[i] == position {
                proof {
                    assert(gate.positions.contains(position));
                    let at = gate.positions.index_of(position);
                    assert(gate.positions[at] == position);
                    assert(at == i);
                }
                return Some((request.clone(), i));
            }
            i += 1;
        }
        None
    }
}

/// The positions that a batch reply denies, each with the reason given.
pub open spec fn denials(positions: Seq<usize>, answers: Seq<ApprovalView>) -> Map<
    usize,
    Option<Seq<char>>,
> {
    Map::new(
        |p: usize|
            positions.contains(p) && answer_for(answers, positions.index_of(p)) is Rejected,
        |p: usize| answer_for(answers, positions.index_of(p))->comment,
    )
}

/// A batch reply leaves denied exactly the undecided positions that its
/// denials name, with the reasons given there, and approves the others.
pub proof fn batch_replies_deny_what_is_named(
    gate: GateView,
    answers: Seq<ApprovalView>,
    command_id: Seq<char>,
    request_id: Seq<char>,
    p: usize,
    n: nat,
)
    requires
        gate.well_formed(n),
        p < n,
        gate.decisions[p as int] is None,
    ensures
        ({
            let command = CommandView::ResolveApproval {
                command_id,
                request_id,
                decisions: answers,
            };
            let denied = denials(gate.positions, answers);
            gate.resolved(command).decisions[p as int] == Some(
                if denied.contains_key(p) {
                    ApprovalView::Rejected { comment: denied[p] }
                } else {
                    ApprovalView::Approved
                },
            )
        }),
{
    assert(gate.positions.contains(p));
    let index = gate.positions.index_of(p);
    assert(gate.positions[index] == p);
    batches_answer_by_place(gate, answers, command_id, request_id, index, n);
}

/// When the clients are gone, every undecided position is one of those denied
/// without a reason, and is left denied so.
pub proof fn closed_channels_deny_all(gate: GateView, p: usize, n: nat)
    requires
        gate.well_formed(n),
        p < n,
        gate.decisions[p as int] is None,
    ensures
        gate.positions.contains(p),
        gate.closed_out(denial_comment(false)).decisions[p as int] == Some(
            ApprovalView::Rejected { comment: None },
        ),
{
    unanswered_is_denied(gate, denial_comment(false), p as int, n);
}

/// Every gated position denied without a reason: the answer of a batch whose
/// clients are gone.
pub fn deny_all(positions: &[usize]) -> (r: HashMap<usize, Option<String>>)
    ensures
        forall|p: usize| #[trigger] r@.contains_key(p) <==> positions@.contains(p),
        forall|p: usize| #[trigger] r@.contains_key(p) ==> r@[p] is None,
{
    broadcast use vstd::std_specs::hash::group_hash_axioms;

    let mut out: HashMap<usize, Option<String>> = HashMap::new();
    let mut i: usize = 0;
    while i < positions.len()
        invariant
            i <= positions.len(),
            forall|p: usize| #[trigger]
                out@.contains_key(p) <==> positions@.take(i as int).contains(p),
            forall|p: usize| #[trigger] out@.contains_key(p) ==> out@[p] is None,
        decreases positions.len() - i,
    {
        let ghost before = out@;
        out.insert(positions[i], None);
        i += 1;
        assert forall|p: usize| #[trigger] out@.contains_key(p) <==> positions@.take(
            i as int,
        ).contains(p) by {
            let now = positions@.take(i as int);
            let earlier = positions@.take(i - 1);
            if out@.contains_key(p) {
                if p == positions@[i - 1] {
                    assert(now[i - 1] == p);
                } else {
                    assert(before.contains_key(p));
                    let at = earlier.index_of(p);
                    assert(now[at] == p);
                }
            }
            if now.contains(p) {
                let at = now.index_of(p);
                if at < i - 1 {
                    assert(earlier[at] == p);
                    assert(earlier.contains(p));
                    assert(before.contains_key(p));
                }
            }
        }
    }
    assert(positions@.take(i as int) =~= positions@);
    out
}

/// The rejections of one batch reply, by batch position: a short reply denies
/// the remainder, extra decisions are ignored. Position, not call id: ids are
/// wire data, and a duplicated one must not deny its sibling.
pub fn batch_denials(positions: &[usize], decisions: &[Approval]) -> (r: HashMap<
    usize,
    Option<String>,
>)
    requires
        forall|i: int, j: int|
            0 <= i < j < positions.len() ==> (#[trigger] positions[i]) != (#[trigger] positions[j]),
    ensures
        forall|p: usize| #[trigger]
            r@.contains_key(p) <==> denials(positions@, decisions.deep_view()).contains_key(p),
        forall|p: usize| #[trigger]
            r@.contains_key(p) ==> r@[p].deep_view() == denials(
                positions@,
                decisions.deep_view(),
            )[p],
{
    broadcast use vstd::std_specs::hash::group_hash_axioms;

    let ghost reply = decisions.deep_view();
    let mut out: HashMap<usize, Option<String>> = HashMap::new();
    let mut i: usize = 0;
    while i < positions.len()
        invariant
            i <= positions.len(),
            reply == decisions.deep_view(),
            forall|a: int, b: int|
                0 <= a < b < positions.len() ==> (#[trigger] positions[a]) != (
                #[trigger] positions[b]),
            forall|p: usize| #[trigger]
                out@.contains_key(p) ==> exists|k: int|
                    0 <= k < i && #[trigger] positions[k] == p,
            forall|k: int|
                0 <= k < i ==> match answer_for(reply, k) {
                    ApprovalView::Approved => !out@.contains_key(#[trigger] positions[k]),
                    ApprovalView::Rejected { comment } => out@.contains_key(positions[k])
                        && out@[positions[k]].deep_view() == comment,
                },
        decreases positions.len() - i,
    {
        let ghost before = out@;
        let p: usize = positions[i];
        if i < decisions.len() {
            assert(reply[i as int] == decisions[i as int]@);
            match &decisions[i] {
                Approval::Approved => {},
                Approval::Rejected { comment } => {
                    out.insert(p, comment.clone());
                },
            }
        } else {
            out.insert(p, None);
        }
        i += 1;
        assert forall|q: usize| #[trigger] out@.contains_key(q) implies exists|k: int|
            0 <= k < i && #[trigger] positions[k] == q by {
            if before.contains_key(q) {
                let k = choose|k: int| 0 <= k < i - 1 && #[trigger] positions[k] == q;
                assert(positions[k] == q);
            } else {
                assert(positions[i - 1] == q);
            }
        }
        assert(!before.contains_key(p));
    }
    proof {
        let named = denials(positions@, reply);
        assert forall|p: usize| #[trigger] out@.contains_key(p) implies named.contains_key(p)
            && out@[p].deep_view() == named[p] by {
            let k = choose|k: int| 0 <= k < i && #[trigger] positions[k] == p;
            assert(positions@[k] == p);
            assert(positions@.contains(p));
            let at = positions@.index_of(p);
            assert(positions[at] == positions[k]);
            assert(at == k);
        }
        assert forall|p: usize| named.contains_key(p) implies #[trigger] out@.contains_key(p) by {
            let at = positions@.index_of(p);
            assert(positions[at] == p);
        }
    }
    out
}

} // verus!
