//! What the steps of a session decide, in terms of what was reported.
use crate::contract::approval::ApprovalView;
use crate::contract::context::InstructionFileView;
use crate::contract::error::ModelErrorView;
use crate::contract::event::TurnOutcome;
use crate::contract::live::{LiveItemView, LiveKindView, TimedRecvView};
use crate::contract::message;
use crate::contract::message::ToolCallView;
use crate::contract::stream::StreamChunkView;
use crate::runtime::agent::dispatch;
use crate::runtime::agent::dispatch::{Admission, AdvanceView, Batch, DispatchView, SlotView};
use crate::runtime::agent::failure::AgentErrorView;
use crate::runtime::agent::fold::FoldPlanView;
use crate::runtime::agent::outcome;
use crate::runtime::agent::outcome::ToolOutcomeView;
use crate::runtime::agent::run::{BoundaryView, RunOutcomeView, RunView};
use crate::runtime::agent::session::{ActionView, PhaseView, ReportView, SessionView};
use crate::runtime::assembler;
use crate::runtime::assembler::AssembledTurnView;
use crate::runtime::trailer::GitStatusView;
use vstd::prelude::*;

verus! {

/// Whether the call at `p` was let in by the decision on it: an approved call
/// runs and is among those to start, a rejected one is done with the rejection.
pub open spec fn let_in(a: Admission, p: int, decision: ApprovalView) -> bool {
    match decision {
        ApprovalView::Approved => a.batch.d.slots[p] is Running && a.starts.contains(p as usize),
        ApprovalView::Rejected { comment } => a.batch.d.slots[p] is Done
            && a.batch.d.slots[p]->outcome == outcome::rejected_outcome(
            a.batch.d.calls[p].name,
            comment,
        ),
    }
}

proof fn let_in_stays(a: Admission, from: nat, p: int, decision: ApprovalView)
    requires
        a.batch.d.slots.len() == a.batch.d.calls.len() <= usize::MAX,
        0 <= p < from,
        p < a.batch.d.calls.len(),
        let_in(a, p, decision),
    ensures
        let_in(dispatch::admit_from(a, from), p, decision),
    decreases a.batch.d.calls.len() - from,
{
    let d = a.batch.d;
    if from < d.calls.len() && (d.all_safe || !dispatch::in_flight(d.slots)) {
        if !(d.slots[from as int] is Waiting) {
            let_in_stays(a, from + 1, p, decision);
        } else {
            match d.gate.decisions[from as int] {
                None => let_in_stays(a, from + 1, p, decision),
                Some(other) => {
                    let next = Admission {
                        batch: a.batch.admitted(from as int, other),
                        starts: if other is Approved {
                            a.starts.push(from as usize)
                        } else {
                            a.starts
                        },
                        admitted: true,
                    };
                    if a.starts.contains(p as usize) {
                        let i = a.starts.index_of(p as usize);
                        assert(next.starts[i] == p as usize);
                    }
                    assert(next.batch.d.slots[p] == d.slots[p]);
                    if d.all_safe {
                        let_in_stays(next, from + 1, p, decision);
                    }
                },
            }
        }
    }
}

proof fn safe_calls_are_let_in(a: Admission, from: nat, p: int, decision: ApprovalView)
    requires
        a.batch.d.slots.len() == a.batch.d.calls.len() <= usize::MAX,
        a.batch.d.all_safe,
        from <= p < a.batch.d.calls.len(),
        a.batch.d.slots[p] is Waiting,
        a.batch.d.gate.decisions[p] == Some(decision),
    ensures
        let_in(dispatch::admit_from(a, from), p, decision),
    decreases a.batch.d.calls.len() - from,
{
    let d = a.batch.d;
    if !(d.slots[from as int] is Waiting) {
        safe_calls_are_let_in(a, from + 1, p, decision);
    } else {
        match d.gate.decisions[from as int] {
            None => safe_calls_are_let_in(a, from + 1, p, decision),
            Some(other) => {
                let next = Admission {
                    batch: a.batch.admitted(from as int, other),
                    starts: if other is Approved {
                        a.starts.push(from as usize)
                    } else {
                        a.starts
                    },
                    admitted: true,
                };
                if from == p {
                    if other is Approved {
                        assert(next.starts[next.starts.len() - 1] == p as usize);
                    }
                    let_in_stays(next, from + 1, p, decision);
                } else {
                    safe_calls_are_let_in(next, from + 1, p, decision);
                }
            },
        }
    }
}

/// Where all calls of a batch may overlap, a step lets in every decided call
/// that waits, not only the first: each approved one starts, and each rejected
/// one is done with its rejection.
pub proof fn overlapping_calls_start_together(
    batch: Batch,
    now: u64,
    p: int,
    decision: ApprovalView,
)
    requires
        batch.d.slots.len() == batch.d.calls.len() <= usize::MAX,
        batch.d.all_safe,
        batch.d.interrupt is None,
        batch.run.inbox.interrupt is None,
        batch.d.flushed <= p < batch.d.calls.len(),
        batch.d.slots[p] is Waiting,
        batch.looked().drained(now).d.gate.decisions[p] == Some(decision),
    ensures
        let_in(batch.admission(now), p, decision),
{
    let drained = batch.looked().drained(now);
    safe_calls_are_let_in(
        Admission { batch: drained, starts: Seq::empty(), admitted: false },
        drained.d.flushed,
        p,
        decision,
    );
}

proof fn first_call_is_let_in(a: Admission, from: nat, p: int, decision: ApprovalView)
    requires
        a.batch.d.slots.len() == a.batch.d.calls.len() <= usize::MAX,
        !a.batch.d.all_safe,
        !dispatch::in_flight(a.batch.d.slots),
        from <= p < a.batch.d.calls.len(),
        a.batch.d.slots[p] is Waiting,
        a.batch.d.gate.decisions[p] == Some(decision),
        a.starts.len() == 0,
        forall|q: int|
            from <= q < p ==> !((#[trigger] a.batch.d.slots[q]) is Waiting)
                || a.batch.d.gate.decisions[q] is None,
    ensures
        ({
            let after = dispatch::admit_from(a, from);
            &&& let_in(after, p, decision)
            &&& after.starts.len() <= 1
            &&& forall|q: int|
                0 <= q < a.batch.d.slots.len() && q != p ==> #[trigger] after.batch.d.slots[q]
                    == a.batch.d.slots[q]
        }),
    decreases p - from,
{
    if from < p {
        assert(!(a.batch.d.slots[from as int] is Waiting) || a.batch.d.gate.decisions[from as int]
            is None);
        first_call_is_let_in(a, from + 1, p, decision);
    } else if decision is Approved {
        assert(a.starts.push(p as usize)[0] == p as usize);
    }
}

/// Where calls may not overlap and none is in flight, a step lets in the first
/// decided call that waits, and no other.
pub proof fn other_calls_start_one_by_one(
    batch: Batch,
    now: u64,
    p: int,
    decision: ApprovalView,
)
    requires
        batch.d.slots.len() == batch.d.calls.len() <= usize::MAX,
        !batch.d.all_safe,
        !dispatch::in_flight(batch.d.slots),
        batch.d.interrupt is None,
        batch.run.inbox.interrupt is None,
        batch.d.flushed <= p < batch.d.calls.len(),
        batch.d.slots[p] is Waiting,
        batch.looked().drained(now).d.gate.decisions[p] == Some(decision),
        forall|q: int|
            batch.d.flushed <= q < p ==> !((#[trigger] batch.d.slots[q]) is Waiting)
                || batch.looked().drained(now).d.gate.decisions[q] is None,
    ensures
        ({
            let after = batch.admission(now);
            &&& let_in(after, p, decision)
            &&& after.starts.len() <= 1
            &&& forall|q: int|
                0 <= q < batch.d.slots.len() && q != p ==> #[trigger] after.batch.d.slots[q]
                    == batch.d.slots[q]
        }),
{
    let drained = batch.looked().drained(now);
    first_call_is_let_in(
        Admission { batch: drained, starts: Seq::empty(), admitted: false },
        drained.d.flushed,
        p,
        decision,
    );
}

/// Calls may overlap exactly where every one of the batch may.
pub proof fn batches_overlap_only_as_a_whole(run: RunView, calls: Seq<ToolCallView>, now: u64)
    ensures
        ({
            let d = dispatch::opened(run, calls, now).d;
            &&& d.calls == calls
            &&& d.all_safe <==> forall|i: int|
                0 <= i < calls.len() ==> crate::runtime::agent::tool::parallel_safe(
                    run.wiring.tools,
                    #[trigger] calls[i],
                )
            &&& forall|i: int| 0 <= i < calls.len() ==> #[trigger] d.slots[i] is Waiting
            &&& d.flushed == 0 && d.answers.len() == 0 && d.interrupt is None
            &&& dispatch::opened(run, calls, now).run.messages == run.messages
        }),
{
}

/// A finished call is done with what came of it; every other call stays as it
/// is. A report on a call that does not run changes nothing.
pub proof fn finished_calls_are_done(
    batch: Batch,
    p: int,
    outcome: ToolOutcomeView,
    q: int,
)
    requires
        batch.d.slots.len() == batch.d.calls.len() <= usize::MAX,
        batch.d.outcomes.len() == batch.d.calls.len(),
        0 <= p < batch.d.calls.len(),
        0 <= q < batch.d.calls.len(),
    ensures
        ({
            let after = batch.completed(p, outcome);
            &&& batch.d.slots[p] is Running ==> after.slots[p] is Done && after.slots[p]->outcome
                == outcome && after.outcomes[p] == Some(outcome) && after.completed.last() == p
            &&& q != p ==> after.slots[q] == batch.d.slots[q] && after.outcomes[q]
                == batch.d.outcomes[q]
            &&& !(batch.d.slots[p] is Running) ==> after == batch.d
        }),
{
}

/// A finished call that waits for its place is announced with its position, its
/// name and what came of it; one that was recorded meanwhile is not.
pub proof fn finished_calls_are_announced(batch: Batch, positions: Seq<usize>, p: usize)
    requires
        batch.run.turn <= u32::MAX,
    ensures
        batch.announced(Seq::empty()) == batch.run,
        ({
            let before = batch.announced(positions);
            let after = batch.announced(positions.push(p));
            let call = batch.d.calls[p as int];
            match batch.d.slots[p as int] {
                SlotView::Done { span, outcome } => {
                    &&& after.ledger.log == before.ledger.log
                    &&& after.ledger.live.last().kind matches LiveKindView::ToolCompleted {
                        completion,
                    } && completion.span_id == span && completion.turn == batch.run.turn
                        && completion.message_call_index == p
                        && completion.call_id == call.id && completion.name == call.name
                        && completion.result == outcome.result && completion.error
                        == outcome.error
                },
                _ => after == before,
            }
        }),
{
    assert(positions.push(p).drop_last() =~= positions);
    announcing_keeps_the_turn(batch, positions);
}

proof fn announcing_keeps_the_turn(batch: Batch, positions: Seq<usize>)
    ensures
        batch.announced(positions).turn == batch.run.turn,
    decreases positions.len(),
{
    if positions.len() > 0 {
        announcing_keeps_the_turn(batch, positions.drop_last());
    }
}

/// A dispatch is over exactly where every call is settled: in success without
/// an interrupt, else as interrupted. Before that commands are waited for only
/// where something is undecided and nothing interrupts, for as long as the
/// approval request has left.
pub proof fn dispatches_end_when_all_is_settled(batch: Batch, now: u64)
    ensures
        ({
            let settled = batch.admission(now).batch.settled();
            let over = settled.d.flushed == settled.d.calls.len();
            let next = batch.next(now);
            &&& next is Finished <==> over && settled.d.interrupt is None
            &&& next is Interrupted <==> over && settled.d.interrupt is Some
            &&& next matches AdvanceView::Wait { starts, listen } ==> {
                &&& starts == batch.admission(now).starts
                &&& listen is Some <==> settled.d.gate.pending() && settled.d.interrupt is None
                &&& listen matches Some(left) ==> left == settled.d.gate.remaining(now) as u64
            }
        }),
{
}

/// A probe's report sends the request that the run makes of it.
pub proof fn probes_send_the_request(
    session: SessionView,
    git: Option<GitStatusView>,
    offset_minutes: i32,
    now: u64,
)
    requires
        session.phase is Probing,
    ensures
        ({
            let (action, after) = session.stepped(
                ReportView::Probed { git, offset_minutes },
                now,
            );
            &&& action == ActionView::Call(session.run.request(git, offset_minutes))
            &&& after.phase is Calling
        }),
{
}

/// A call that opens is read; one that is refused fails the run with the
/// provider's error.
pub proof fn calls_open_or_fail(session: SessionView, error: ModelErrorView, now: u64)
    requires
        session.phase is Calling,
    ensures
        session.stepped(ReportView::Opened, now).0 is Read,
        session.stepped(ReportView::Opened, now).1.phase is Streaming,
        session.stepped(ReportView::Opened, now).1.run == session.run,
        session.stepped(ReportView::Refused(error), now).0 == ActionView::Fail(
            AgentErrorView::Provider(error),
        ),
        session.stepped(ReportView::Refused(error), now).1.phase is Closed,
{
}

/// A chunk is taken in, and an interrupt is looked for before the next is read.
/// Without one the next is read; with one the stream is broken off, and the run
/// fails as interrupted.
pub proof fn chunks_are_read_until_an_interrupt(
    session: SessionView,
    chunk: StreamChunkView,
    now: u64,
)
    ensures
        session.phase is Streaming ==> {
            let (action, after) = session.stepped(ReportView::Chunk(chunk), now);
            action is Go && after.phase is Checking && after.run == session.run.chunk_pushed(chunk)
        },
        session.phase is Checking && session.run.inbox.interrupt is None ==> {
            let (action, after) = session.stepped(ReportView::Ready, now);
            action is Read && after.phase is Streaming && after.run.messages
                == session.run.messages
        },
        session.phase is Checking && session.run.inbox.interrupt is Some ==> {
            let (action, after) = session.stepped(ReportView::Ready, now);
            action == ActionView::Fail(AgentErrorView::Interrupted) && after.phase is Closed
        },
{
}

/// A stream that ends leads on to the calls of its message; one that breaks
/// fails the run with its error, and so does a turn in which nothing came.
pub proof fn streams_lead_to_their_calls(
    session: SessionView,
    error: ModelErrorView,
    now: u64,
)
    requires
        session.phase is Streaming,
        session.run.stopping is None,
    ensures
        ({
            let turn = assembler::finished_turn(session.run.assembler);
            let calls = message::calls_in(turn.message.content);
            let (action, after) = session.stepped(ReportView::Ended, now);
            &&& turn.outcome != TurnOutcome::Empty ==> action == ActionView::Track(calls)
                && after.phase == (PhaseView::Tracking { turn, calls })
            &&& turn.outcome == TurnOutcome::Empty ==> action == ActionView::Fail(
                AgentErrorView::EmptyTurn { finish: turn.finish },
            ) && after.phase is Closed
            &&& after.run.messages == session.run.messages.push(turn.message)
        }),
        session.stepped(ReportView::Broke(error), now).0 == ActionView::Fail(
            AgentErrorView::Provider(error),
        ),
        session.stepped(ReportView::Broke(error), now).1.phase is Closed,
        session.stepped(ReportView::Broke(error), now).1.run.messages
            == session.run.messages.push(
            assembler::finished_turn(session.run.assembler).message,
        ),
{
}

/// A turn with calls is dispatched, all of them, and what was located for it is
/// injected afterwards; a turn without calls finishes the run with the history,
/// that turn and the number of turns, unless a steer waits.
pub proof fn turns_are_dispatched_or_finish(
    session: SessionView,
    turn: AssembledTurnView,
    calls: Seq<ToolCallView>,
    files: Seq<InstructionFileView>,
    now: u64,
)
    requires
        session.phase == (PhaseView::Tracking { turn, calls }),
    ensures
        ({
            let (action, after) = session.stepped(ReportView::Located(files), now);
            &&& calls.len() > 0 ==> action is Go && (after.phase matches PhaseView::Dispatching {
                batch,
                nested,
            } && batch.calls == calls && nested == files)
            &&& calls.len() == 0 && session.run.goes_on() ==> action is Go && after.phase
                is Boundary
            &&& calls.len() == 0 && !session.run.goes_on() ==> {
                &&& action == ActionView::Finish(
                    RunOutcomeView {
                        messages: after.run.messages,
                        final_turn: turn,
                        turns: session.run.turn,
                    },
                )
                &&& after.phase is Closed
            }
        }),
{
}

/// While calls are dispatched: a finished call is taken in where it runs, a
/// command is noted and leaves the calls alone, and a wait that ends without a
/// command leaves nothing undecided.
pub proof fn dispatches_take_reports(
    session: SessionView,
    batch: DispatchView,
    nested: Seq<InstructionFileView>,
    position: usize,
    outcome: ToolOutcomeView,
    received: TimedRecvView,
    now: u64,
)
    requires
        session.phase == (PhaseView::Dispatching { batch, nested }),
    ensures
        ({
            let (action, after) = session.stepped(
                ReportView::Completed { position, outcome },
                now,
            );
            if position < batch.calls.len() && batch.slots[position as int] is Running {
                action is Go && after.run == session.run && (
                after.phase matches PhaseView::Dispatching { batch: next, nested: kept } && kept
                    == nested && next == (Batch { run: session.run, d: batch }).completed(
                    position as int,
                    outcome,
                ))
            } else {
                action is Stay && after == session
            }
        }),
        received matches TimedRecvView::Command(command) ==> {
            let (action, after) = session.stepped(ReportView::Received(received), now);
            action is Go && after.run == session.run.noted(command) && after.phase
                == session.phase
        },
        !(received is Command) ==> {
            let (action, after) = session.stepped(ReportView::Received(received), now);
            action is Go && (after.phase matches PhaseView::Dispatching { batch: next, .. }
                && next.calls == batch.calls && next.slots == batch.slots && next.gate
                == crate::runtime::agent::gate::denied_unanswered(
                batch.gate,
                session.run.ledger,
                received is TimedOut,
                session.run.root,
                session.run.turn,
            ).0)
        },
{
}

/// A dispatch that is over leads on to what was located, and that to the next
/// boundary; an interrupted one fails the run.
pub proof fn dispatches_lead_on(
    session: SessionView,
    batch: DispatchView,
    nested: Seq<InstructionFileView>,
    now: u64,
)
    ensures
        session.phase == (PhaseView::Dispatching { batch, nested }) ==> {
            let (action, after) = session.stepped(ReportView::Ready, now);
            match (Batch { run: session.run, d: batch }).next(now) {
                AdvanceView::Finished => action is Go && after.phase == PhaseView::Nesting(nested),
                AdvanceView::Interrupted => action == ActionView::Fail(AgentErrorView::Interrupted)
                    && after.phase is Closed,
                AdvanceView::Again => action is Go && after.phase is Dispatching,
                AdvanceView::Wait { starts, listen } => action == (ActionView::Work {
                    starts,
                    listen,
                }) && after.phase is Dispatching,
            }
        },
        session.phase == PhaseView::Nesting(nested) ==> {
            let (action, after) = session.stepped(ReportView::Ready, now);
            action is Go && after.phase is Boundary && after.run == session.run.injected(nested)
        },
{
}

/// A boundary that opens asks for the artifacts of a fold where one is planned,
/// and else for the probe; one that ends the run fails with its reason.
pub proof fn boundaries_ask_for_what_is_next(session: SessionView, now: u64)
    requires
        session.phase is Boundary,
    ensures
        ({
            let (action, after) = session.stepped(ReportView::Ready, now);
            &&& after.run == session.run.boundary_crossed()
            &&& match session.run.boundary() {
                BoundaryView::Ended(error) => action == ActionView::Fail(error) && after.phase
                    is Closed,
                BoundaryView::Open { plan: Some(plan) } => action == ActionView::Spill(plan.orders)
                    && after.phase == PhaseView::Folding(plan),
                BoundaryView::Open { plan: None } => action is Probe && after.phase is Probing,
            }
        }),
{
}

/// A fold is made once there is an artifact for every order; then the probe is
/// next. Too few or too many artifacts change nothing.
pub proof fn folds_wait_for_every_artifact(
    session: SessionView,
    plan: FoldPlanView,
    paths: Seq<Seq<char>>,
    now: u64,
)
    requires
        session.phase == PhaseView::Folding(plan),
    ensures
        ({
            let (action, after) = session.stepped(ReportView::Spilled(paths), now);
            if paths.len() == plan.orders.len() {
                action is Probe && after.phase is Probing && after.run
                    == session.run.fold_committed(plan, paths)
            } else {
                action is Stay && after == session
            }
        }),
{
}

/// Whether a report fits where a session stands.
pub open spec fn fits(phase: PhaseView, report: ReportView) -> bool {
    match phase {
        PhaseView::Boundary | PhaseView::Checking | PhaseView::Nesting(_) => report is Ready,
        PhaseView::Folding(_) => report is Spilled,
        PhaseView::Probing => report is Probed,
        PhaseView::Calling => report is Opened || report is Refused,
        PhaseView::Streaming => report is Chunk || report is Ended || report is Broke,
        PhaseView::Tracking { .. } => report is Located,
        PhaseView::Dispatching { .. } => report is Ready || report is Completed || report
            is Received,
        PhaseView::Closed => false,
    }
}

/// A report that does not fit where the session stands changes nothing; one that
/// fits is answered with an action, but for artifacts that do not match the plan
/// and calls that do not run.
pub proof fn misplaced_reports_change_nothing(
    session: SessionView,
    report: ReportView,
    now: u64,
)
    ensures
        !fits(session.phase, report) ==> session.stepped(report, now).0 is Stay
            && session.stepped(report, now).1 == session,
        fits(session.phase, report) && !(report is Spilled) && !(report is Completed)
            ==> session.stepped(report, now).0 !is Stay,
{
}

/// A batch takes a pending interrupt out of the inbox, and the first one stays.
pub proof fn batches_keep_the_first_interrupt(batch: Batch)
    ensures
        batch.d.interrupt is Some ==> batch.looked() == batch,
        batch.d.interrupt is None ==> {
            &&& batch.looked().d.interrupt == batch.run.inbox.interrupt
            &&& batch.looked().run.inbox.interrupt is None
            &&& batch.looked().d.slots == batch.d.slots
            &&& batch.looked().run.messages == batch.run.messages
        },
{
}

/// Whether item `k` of a live stream announces the call at `p`.
pub open spec fn announces(
    live: Seq<LiveItemView>,
    k: int,
    p: usize,
    call: ToolCallView,
    outcome: ToolOutcomeView,
) -> bool {
    &&& 0 <= k < live.len()
    &&& live[k].kind matches LiveKindView::ToolCompleted { completion }
        && completion.message_call_index == p && completion.call_id == call.id && completion.name
        == call.name && completion.result == outcome.result && completion.error == outcome.error
}

proof fn announced_calls_are_live(batch: Batch, positions: Seq<usize>, i: int)
    requires
        0 <= i < positions.len(),
        batch.d.slots[positions[i] as int] is Done,
    ensures
        exists|k: int|
            announces(
                batch.announced(positions).ledger.live,
                k,
                positions[i],
                batch.d.calls[positions[i] as int],
                batch.d.slots[positions[i] as int]->outcome,
            ),
    decreases positions.len(),
{
    let p = positions[i];
    let call = batch.d.calls[p as int];
    let outcome = batch.d.slots[p as int]->outcome;
    let fewer = positions.drop_last();
    let before = batch.announced(fewer).ledger.live;
    let after = batch.announced(positions).ledger.live;
    if i < fewer.len() {
        assert(fewer[i] == positions[i]);
        announced_calls_are_live(batch, fewer, i);
        let k = choose|k: int| announces(before, k, p, call, outcome);
        assert(after[k] == before[k]);
        assert(announces(after, k, p, call, outcome));
    } else {
        assert(announces(after, after.len() - 1, p, call, outcome));
    }
}

/// A step announces every finished call that still waits for its place, and
/// announces it once: afterwards none is left to announce.
pub proof fn steps_announce_what_is_finished(batch: Batch, i: int)
    requires
        0 <= i < batch.flushed().d.completed.len(),
        batch.flushed().d.slots[batch.flushed().d.completed[i] as int] is Done,
    ensures
        ({
            let flushed = batch.flushed();
            let p = flushed.d.completed[i];
            exists|k: int|
                announces(
                    batch.settled().run.ledger.live,
                    k,
                    p,
                    flushed.d.calls[p as int],
                    flushed.d.slots[p as int]->outcome,
                )
        }),
        batch.settled().d.completed.len() == 0,
        batch.settled().d.slots == batch.flushed().d.slots,
{
    announced_calls_are_live(batch.flushed(), batch.flushed().d.completed, i);
}

/// A step leaves no due result behind: the first call without a recorded result
/// is still running, or waits without an interrupt that would pass it over.
pub proof fn due_results_are_recorded_at_once(batch: Batch)
    requires
        batch.d.slots.len() == batch.d.calls.len(),
        batch.d.flushed <= batch.d.calls.len(),
    ensures
        ({
            let after = batch.flushed().d;
            &&& after.flushed <= after.calls.len()
            &&& after.calls == batch.d.calls
            &&& after.interrupt == batch.d.interrupt
            &&& after.flushed < after.calls.len() ==> {
                let slot = after.slots[after.flushed as int];
                &&& slot !is Done
                &&& slot is Waiting ==> after.interrupt is None
            }
        }),
    decreases batch.d.calls.len() - batch.d.flushed,
{
    let at = batch.d.flushed;
    if at < batch.d.calls.len() {
        match batch.d.slots[at as int] {
            SlotView::Done { span, outcome } => {
                due_results_are_recorded_at_once(batch.recorded(span, outcome));
            },
            SlotView::Waiting => {
                if batch.d.interrupt is Some {
                    due_results_are_recorded_at_once(
                        Batch { d: DispatchView { flushed: at + 1, ..batch.d }, ..batch },
                    );
                }
            },
            _ => {},
        }
    }
}

} // verus!
