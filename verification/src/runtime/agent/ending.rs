//! How a run ends: with one terminal record, and nothing recorded behind it.
use crate::contract::context::InstructionFileView;
use crate::contract::error::ModelErrorView;
use crate::contract::event::{CommandView, EventErrorView, EventView};
use crate::contract::request::ChatRequestView;
use crate::contract::state::FinishRecordView;
use crate::runtime::agent::dispatch;
use crate::runtime::agent::dispatch::{Admission, Batch, DispatchView, SlotView};
use crate::runtime::agent::failure;
use crate::runtime::agent::gate;
use crate::runtime::agent::gate::GateRun;
use crate::runtime::agent::inbox;
use crate::runtime::agent::inbox::InboxView;
use crate::runtime::agent::ledger;
use crate::runtime::agent::run;
use crate::runtime::agent::run::{AgentLoopView, RunView};
use crate::runtime::agent::session::{PhaseView, ReportView, SessionView};
use crate::runtime::trajectory;
use vstd::prelude::*;

verus! {

/// No terminal record is in the log.
pub open spec fn unfinished(log: Seq<EventView>) -> bool {
    forall|i: int| 0 <= i < log.len() ==> !((#[trigger] log[i]).kind is RunFinished)
}

/// The last event of the log is its one terminal record.
pub open spec fn finished_once(log: Seq<EventView>) -> bool {
    &&& log.len() > 0
    &&& log.last().kind is RunFinished
    &&& unfinished(log.drop_last())
}

/// A terminal record finishes an unfinished log.
proof fn ending_finishes(run: RunView, turns: usize, error: Option<EventErrorView>)
    requires
        unfinished(run.ledger.log),
    ensures
        finished_once(run.ended(turns, error).ledger.log),
{
    assert(run.ended(turns, error).ledger.log.drop_last() =~= run.ledger.log);
}

proof fn steering_goes_on(run: RunView, steers: Seq<CommandView>, turn: usize)
    requires
        unfinished(run.ledger.log),
    ensures
        unfinished(run.steered(steers, turn).ledger.log),
    decreases steers.len(),
{
    if steers.len() > 0 {
        steering_goes_on(run, steers.drop_last(), turn);
    }
}

proof fn injecting_goes_on(run: RunView, files: Seq<InstructionFileView>)
    requires
        unfinished(run.ledger.log),
    ensures
        unfinished(run.injected(files).ledger.log),
    decreases files.len(),
{
    if files.len() > 0 {
        injecting_goes_on(run, files.drop_last());
    }
}

proof fn resolving_goes_on(run: GateRun, root: Seq<char>, turn: usize)
    requires
        unfinished(run.ledger.log),
    ensures
        unfinished(gate::settled(run, root, turn).ledger.log),
    decreases run.inbox.resolves.len(),
{
    if let Some(request) = run.gate.request {
        let at = inbox::first_resolve(run.inbox.resolves, request);
        if 0 <= at < run.inbox.resolves.len() {
            let command = run.inbox.resolves[at];
            let rest = InboxView { resolves: run.inbox.resolves.remove(at), ..run.inbox };
            if run.gate.effective(command) {
                resolving_goes_on(
                    GateRun {
                        gate: run.gate.resolved(command),
                        inbox: rest,
                        ledger: run.ledger.command_recorded(command, root, turn),
                    },
                    root,
                    turn,
                );
            } else {
                resolving_goes_on(GateRun { inbox: rest, ..run }, root, turn);
            }
        }
    }
}

proof fn draining_goes_on(batch: Batch, now: u64)
    requires
        unfinished(batch.run.ledger.log),
    ensures
        unfinished(batch.drained(now).run.ledger.log),
{
    let run = batch.run.gate_run(batch.d.gate);
    let (gate, ledger) = if run.gate.expired(now) {
        gate::denied_unanswered(
            run.gate,
            run.ledger,
            true,
            batch.run.root,
            batch.run.turn,
        )
    } else {
        (run.gate, run.ledger)
    };
    resolving_goes_on(GateRun { gate, ledger, ..run }, batch.run.root, batch.run.turn);
}

proof fn admitting_goes_on(a: Admission, p: nat)
    requires
        unfinished(a.batch.run.ledger.log),
    ensures
        unfinished(dispatch::admit_from(a, p).batch.run.ledger.log),
    decreases a.batch.d.calls.len() - p,
{
    let d = a.batch.d;
    if p < d.calls.len() && (d.all_safe || !dispatch::in_flight(d.slots)) {
        if !(d.slots[p as int] is Waiting) {
            admitting_goes_on(a, p + 1);
        } else {
            match d.gate.decisions[p as int] {
                None => admitting_goes_on(a, p + 1),
                Some(decision) => {
                    let next = Admission {
                        batch: a.batch.admitted(p as int, decision),
                        starts: if decision is Approved {
                            a.starts.push(p as usize)
                        } else {
                            a.starts
                        },
                        admitted: true,
                    };
                    if d.all_safe {
                        admitting_goes_on(next, p + 1);
                    }
                },
            }
        }
    }
}

proof fn flushing_goes_on(batch: Batch)
    requires
        unfinished(batch.run.ledger.log),
    ensures
        unfinished(batch.flushed().run.ledger.log),
    decreases batch.d.calls.len() - batch.d.flushed,
{
    let at = batch.d.flushed;
    if at < batch.d.calls.len() {
        match batch.d.slots[at as int] {
            SlotView::Done { span, outcome } => {
                flushing_goes_on(batch.recorded(span, outcome));
            },
            SlotView::Waiting => {
                if batch.d.interrupt is Some {
                    flushing_goes_on(
                        Batch { d: DispatchView { flushed: at + 1, ..batch.d }, ..batch },
                    );
                }
            },
            _ => {},
        }
    }
}

proof fn announcing_records_nothing(batch: Batch, positions: Seq<usize>)
    ensures
        batch.announced(positions).ledger.log == batch.run.ledger.log,
    decreases positions.len(),
{
    if positions.len() > 0 {
        announcing_records_nothing(batch, positions.drop_last());
    }
}

proof fn dispatching_goes_on(batch: Batch, now: u64)
    requires
        unfinished(batch.run.ledger.log),
    ensures
        batch.next(now) is Interrupted ==> finished_once(batch.advanced(now).run.ledger.log),
        !(batch.next(now) is Interrupted) ==> unfinished(batch.advanced(now).run.ledger.log),
{
    let looked = batch.looked();
    let admission = batch.admission(now);
    if looked.d.interrupt is None {
        draining_goes_on(looked, now);
        let drained = looked.drained(now);
        admitting_goes_on(
            Admission { batch: drained, starts: Seq::empty(), admitted: false },
            drained.d.flushed,
        );
    }
    flushing_goes_on(admission.batch);
    let flushed = admission.batch.flushed();
    announcing_records_nothing(flushed, flushed.d.completed);
    let settled = admission.batch.settled();
    if settled.d.flushed == settled.d.calls.len() {
        if let Some(command) = settled.d.interrupt {
            let recorded = settled.run.command_recorded(command, settled.run.turn);
            assert(unfinished(recorded.ledger.log));
            ending_finishes(
                recorded,
                settled.run.turn,
                Some(failure::interruption()),
            );
        }
    }
}

proof fn boundaries_end_once(run: RunView)
    requires
        unfinished(run.ledger.log),
    ensures
        run.boundary() is Ended ==> finished_once(run.boundary_crossed().ledger.log),
        run.boundary() is Open ==> unfinished(run.boundary_crossed().ledger.log),
{
    if run.turn >= run.wiring.max_turns {
        ending_finishes(run, run.wiring.max_turns, Some(run.limit_detail()));
    } else {
        let turn = (run.turn + 1) as usize;
        let next = RunView { turn, ..run };
        match run.inbox.interrupt {
            Some(command) => {
                let recorded = RunView {
                    inbox: InboxView { interrupt: None, ..run.inbox },
                    ..next
                }.command_recorded(command, turn);
                assert(unfinished(recorded.ledger.log));
                ending_finishes(
                    recorded,
                    run.turn,
                    Some(failure::interruption()),
                );
            },
            None => {
                let rest = InboxView {
                    steers: inbox::staying(run.inbox.steers, false),
                    ..run.inbox
                };
                steering_goes_on(
                    RunView { inbox: rest, ..next },
                    inbox::applying(run.inbox.steers, false),
                    turn,
                );
            },
        }
    }
}

proof fn streams_end_once(
    session: SessionView,
    error: Option<ModelErrorView>,
)
    requires
        unfinished(session.run.ledger.log),
    ensures
        ({
            let after = session.stream_over(error).1;
            if after.phase is Closed {
                finished_once(after.run.ledger.log)
            } else {
                unfinished(after.run.ledger.log)
            }
        }),
{
    let closed = session.run.stream_closed(error).ledger.log;
    assert(unfinished(closed.drop_last()) && closed.last().kind is RunFinished || unfinished(
        closed,
    ));
}

proof fn finish_lines_end_once(run: RunView)
    requires
        unfinished(run.ledger.log),
    ensures
        run.goes_on() ==> unfinished(run.finish_line_crossed().ledger.log),
        !run.goes_on() ==> finished_once(run.finish_line_crossed().ledger.log),
{
    let looked = RunView { inbox: InboxView { interrupt: None, ..run.inbox }, ..run };
    let rest = InboxView { steers: inbox::staying(looked.inbox.steers, true), ..looked.inbox };
    let turn = (run.turn + 1) as usize;
    steering_goes_on(
        RunView { inbox: rest, ..looked },
        inbox::applying(looked.inbox.steers, true),
        turn,
    );
    ending_finishes(looked, run.turn, None);
    ending_finishes(looked.steers_applied(turn, true), run.turn, None);
}

/// A run that just started has no terminal record.
pub proof fn started_runs_are_unfinished(
    wiring: AgentLoopView,
    base: ChatRequestView,
    numbers: Seq<u64>,
    times: Seq<u64>,
)
    ensures
        unfinished(run::started(wiring, base, numbers, times).ledger.log),
{
}

/// Every run ends with one terminal record: a step that leaves the run open
/// leaves its log without one, and a step that ends the run makes it the last
/// event, whichever way the run ended.
pub proof fn runs_end_with_one_terminal_record(
    session: SessionView,
    report: ReportView,
    now: u64,
)
    requires
        !(session.phase is Closed),
        unfinished(session.run.ledger.log),
    ensures
        ({
            let after = session.stepped(report, now).1;
            if after.phase is Closed {
                finished_once(after.run.ledger.log)
            } else {
                unfinished(after.run.ledger.log)
            }
        }),
{
    match session.phase {
        PhaseView::Boundary => boundaries_end_once(session.run),
        PhaseView::Calling => {
            if let ReportView::Refused(error) = report {
                ending_finishes(
                    session.run,
                    session.run.completed(),
                    Some(failure::model_detail(error)),
                );
            }
        },
        PhaseView::Streaming => {
            if let ReportView::Broke(error) = report {
                streams_end_once(session, Some(error));
            }
            streams_end_once(session, None);
        },
        PhaseView::Checking => {
            let looked = SessionView::at(session.run.interrupt_checked(), PhaseView::Streaming);
            streams_end_once(looked, None);
        },
        PhaseView::Tracking { turn, calls } => finish_lines_end_once(session.run),
        PhaseView::Dispatching { batch, nested } => {
            dispatching_goes_on(Batch { run: session.run, d: batch }, now);
        },
        PhaseView::Nesting(files) => injecting_goes_on(session.run, files),
        _ => {},
    }
}

proof fn unfinished_logs_fold_open(log: Seq<EventView>)
    requires
        unfinished(log),
    ensures
        trajectory::folded(log).finished is None,
    decreases log.len(),
{
    if log.len() > 0 {
        let earlier = log.drop_last();
        assert forall|i: int| 0 <= i < earlier.len() implies !((#[trigger] earlier[i]).kind
            is RunFinished) by {
            assert(earlier[i] == log[i]);
        }
        assert(!(log[log.len() - 1].kind is RunFinished));
        unfinished_logs_fold_open(earlier);
    }
}

/// The trace knows how the run ended: its replay has no ending while the run
/// goes on, and after that the turns, the status and the error of the terminal
/// record.
pub proof fn replays_know_the_ending(run: RunView)
    requires
        run.sound(),
    ensures
        unfinished(run.ledger.log) ==> trajectory::replayed(run.ledger.log).finished is None,
        finished_once(run.ledger.log) ==> ({
            let last = run.ledger.log.last();
            trajectory::replayed(run.ledger.log).finished == Some(
                FinishRecordView {
                    turns: last.kind->RunFinished_turns,
                    status: last.status,
                    error: last.error,
                },
            )
        }),
{
    let log = run.ledger.log;
    if unfinished(log) {
        unfinished_logs_fold_open(log);
    }
    if finished_once(log) {
        let last = log.last();
        if trajectory::folded(log.drop_last()).seen.contains(last.id) {
            let k = trajectory::seen_ids_are_there(log.drop_last(), last.id);
            assert(log[k].id == last.id);
            ledger::ids_are_distinct(run.ledger, k, log.len() - 1);
        }
    }
}

} // verus!
