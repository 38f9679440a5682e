//! How a run grows: the log and the history only gain at their ends, and what
//! every request shares stays as it was at the start.
use crate::contract::context::InstructionFileView;
use crate::contract::error::ModelErrorView;
use crate::contract::event::{CommandView, EventErrorView};
use crate::contract::request::ChatRequestView;
use crate::runtime::agent::dispatch;
use crate::runtime::agent::dispatch::{Admission, Batch, DispatchView, SlotView};
use crate::runtime::agent::failure;
use crate::runtime::agent::gate;
use crate::runtime::agent::gate::GateRun;
use crate::runtime::agent::inbox;
use crate::runtime::agent::inbox::InboxView;
use crate::runtime::agent::run::RunView;
use crate::runtime::agent::session::{PhaseView, ReportView, SessionView};
use crate::runtime::assembler;
use crate::runtime::trailer::GitStatusView;
use vstd::prelude::*;

verus! {

/// `after` carries on from `before`: the same wiring, base request, root span
/// and start, a turn that is no earlier and not newly beyond the limit, and a
/// log, a history and folds that begin with those of `before`.
pub open spec fn carries_on(before: RunView, after: RunView) -> bool {
    &&& after.wiring == before.wiring
    &&& after.base == before.base
    &&& after.root == before.root
    &&& after.run_start_ms == before.run_start_ms
    &&& before.turn <= after.turn
    &&& after.turn == before.turn || after.turn <= before.wiring.max_turns
    &&& before.messages.is_prefix_of(after.messages)
    &&& before.ledger.log.is_prefix_of(after.ledger.log)
    &&& before.fold.folded.is_prefix_of(after.fold.folded)
}

pub(crate) proof fn prefixes_chain<T>(a: Seq<T>, b: Seq<T>, c: Seq<T>)
    requires
        a.is_prefix_of(b),
        b.is_prefix_of(c),
    ensures
        a.is_prefix_of(c),
{
    assert(a =~= c.subrange(0, a.len() as int)) by {
        assert forall|i: int| 0 <= i < a.len() implies a[i] == c.subrange(
            0,
            a.len() as int,
        )[i] by {
            assert(a[i] == b.subrange(0, a.len() as int)[i]);
            assert(b[i] == c.subrange(0, b.len() as int)[i]);
        }
    }
}

proof fn carrying_on_chains(a: RunView, b: RunView, c: RunView)
    requires
        carries_on(a, b),
        carries_on(b, c),
    ensures
        carries_on(a, c),
{
    prefixes_chain(a.messages, b.messages, c.messages);
    prefixes_chain(a.ledger.log, b.ledger.log, c.ledger.log);
    prefixes_chain(a.fold.folded, b.fold.folded, c.fold.folded);
}

proof fn pushed_prefix<T>(a: Seq<T>, b: Seq<T>, x: T)
    requires
        a.is_prefix_of(b),
    ensures
        a.is_prefix_of(b.push(x)),
{
    assert(b =~= b.push(x).subrange(0, b.len() as int));
    prefixes_chain(a, b, b.push(x));
}

proof fn carries_itself_on(run: RunView)
    ensures
        carries_on(run, run),
{
    assert(run.messages =~= run.messages.subrange(0, run.messages.len() as int));
    assert(run.ledger.log =~= run.ledger.log.subrange(0, run.ledger.log.len() as int));
    assert(run.fold.folded =~= run.fold.folded.subrange(0, run.fold.folded.len() as int));
}

/// One more event, with or without a message, carries on.
proof fn one_more_event_carries_on(before: RunView, between: RunView, after: RunView)
    requires
        carries_on(before, between),
        after.wiring == between.wiring,
        after.base == between.base,
        after.root == between.root,
        after.run_start_ms == between.run_start_ms,
        after.turn == between.turn || after.turn == between.turn + 1 <= after.wiring.max_turns,
        after.messages == between.messages || (after.messages.len() == between.messages.len() + 1
            && after.messages.drop_last() == between.messages),
        after.ledger.log == between.ledger.log || (after.ledger.log.len()
            == between.ledger.log.len() + 1 && after.ledger.log.drop_last()
            == between.ledger.log),
        after.fold.folded == between.fold.folded || between.fold.folded.is_prefix_of(
            after.fold.folded,
        ),
    ensures
        carries_on(before, after),
{
    if after.messages != between.messages {
        assert(after.messages =~= between.messages.push(after.messages.last()));
        pushed_prefix(before.messages, between.messages, after.messages.last());
    }
    if after.ledger.log != between.ledger.log {
        assert(after.ledger.log =~= between.ledger.log.push(after.ledger.log.last()));
        pushed_prefix(before.ledger.log, between.ledger.log, after.ledger.log.last());
    }
    if after.fold.folded != between.fold.folded {
        prefixes_chain(before.fold.folded, between.fold.folded, after.fold.folded);
    }
}

pub(crate) proof fn steering_carries_on(run: RunView, steers: Seq<CommandView>, turn: usize)
    ensures
        carries_on(run, run.steered(steers, turn)),
    decreases steers.len(),
{
    carries_itself_on(run);
    if steers.len() > 0 {
        let before = run.steered(steers.drop_last(), turn);
        let after = run.steered(steers, turn);
        steering_carries_on(run, steers.drop_last(), turn);
        if let CommandView::Steer { .. } = steers.last() {
            assert(after.messages.drop_last() =~= before.messages);
            assert(after.ledger.log.drop_last() =~= before.ledger.log);
        }
        one_more_event_carries_on(run, before, after);
    }
}

proof fn injecting_carries_on(run: RunView, files: Seq<InstructionFileView>)
    ensures
        carries_on(run, run.injected(files)),
    decreases files.len(),
{
    carries_itself_on(run);
    if files.len() > 0 {
        let before = run.injected(files.drop_last());
        let after = run.injected(files);
        injecting_carries_on(run, files.drop_last());
        assert(after.messages.drop_last() =~= before.messages);
        assert(after.ledger.log.drop_last() =~= before.ledger.log);
        one_more_event_carries_on(run, before, after);
    }
}

proof fn resolving_only_appends(run: GateRun, root: Seq<char>, turn: usize)
    ensures
        run.ledger.log.is_prefix_of(gate::settled(run, root, turn).ledger.log),
    decreases run.inbox.resolves.len(),
{
    assert(run.ledger.log =~= run.ledger.log.subrange(0, run.ledger.log.len() as int));
    if let Some(request) = run.gate.request {
        let at = inbox::first_resolve(run.inbox.resolves, request);
        if 0 <= at < run.inbox.resolves.len() {
            let command = run.inbox.resolves[at];
            let rest = InboxView { resolves: run.inbox.resolves.remove(at), ..run.inbox };
            if run.gate.effective(command) {
                let next = GateRun {
                    gate: run.gate.resolved(command),
                    inbox: rest,
                    ledger: run.ledger.command_recorded(command, root, turn),
                };
                resolving_only_appends(next, root, turn);
                pushed_prefix(run.ledger.log, run.ledger.log, next.ledger.log.last());
                assert(next.ledger.log =~= run.ledger.log.push(next.ledger.log.last()));
                prefixes_chain(
                    run.ledger.log,
                    next.ledger.log,
                    gate::settled(run, root, turn).ledger.log,
                );
            } else {
                resolving_only_appends(GateRun { inbox: rest, ..run }, root, turn);
            }
        }
    }
}

proof fn denying_carries_on(run: RunView, d: DispatchView, timed_out: bool)
    ensures
        carries_on(run, run.gate_denied(d.gate, timed_out)),
{
    carries_itself_on(run);
    let after = run.gate_denied(d.gate, timed_out);
    if after.ledger.log != run.ledger.log {
        assert(after.ledger.log.drop_last() =~= run.ledger.log);
    }
    one_more_event_carries_on(run, run, after);
}

proof fn draining_carries_on(batch: Batch, now: u64)
    ensures
        carries_on(batch.run, batch.drained(now).run),
{
    let run = batch.run.gate_run(batch.d.gate);
    carries_itself_on(batch.run);
    let (gate, ledger) = if run.gate.expired(now) {
        gate::denied_unanswered(
            run.gate,
            run.ledger,
            true,
            batch.run.root,
            batch.run.turn,
        )
    } else {
        (run.gate, run.ledger)
    };
    if ledger.log != run.ledger.log {
        assert(ledger.log =~= run.ledger.log.push(ledger.log.last()));
        pushed_prefix(run.ledger.log, run.ledger.log, ledger.log.last());
    }
    resolving_only_appends(
        GateRun { gate, ledger, ..run },
        batch.run.root,
        batch.run.turn,
    );
    prefixes_chain(run.ledger.log, ledger.log, batch.drained(now).run.ledger.log);
}

proof fn admitting_carries_on(a: Admission, p: nat)
    ensures
        carries_on(a.batch.run, dispatch::admit_from(a, p).batch.run),
    decreases a.batch.d.calls.len() - p,
{
    let d = a.batch.d;
    carries_itself_on(a.batch.run);
    if p < d.calls.len() && (d.all_safe || !dispatch::in_flight(d.slots)) {
        if !(d.slots[p as int] is Waiting) {
            admitting_carries_on(a, p + 1);
        } else {
            match d.gate.decisions[p as int] {
                None => admitting_carries_on(a, p + 1),
                Some(decision) => {
                    let next = Admission {
                        batch: a.batch.admitted(p as int, decision),
                        starts: if decision is Approved {
                            a.starts.push(p as usize)
                        } else {
                            a.starts
                        },
                        admitted: true,
                    };
                    assert(next.batch.run.ledger.log.drop_last() =~= a.batch.run.ledger.log);
                    one_more_event_carries_on(a.batch.run, a.batch.run, next.batch.run);
                    if d.all_safe {
                        admitting_carries_on(next, p + 1);
                        carrying_on_chains(
                            a.batch.run,
                            next.batch.run,
                            dispatch::admit_from(next, p + 1).batch.run,
                        );
                    }
                },
            }
        }
    }
}

pub(crate) proof fn flushing_carries_on(batch: Batch)
    ensures
        carries_on(batch.run, batch.flushed().run),
    decreases batch.d.calls.len() - batch.d.flushed,
{
    let at = batch.d.flushed;
    carries_itself_on(batch.run);
    if at < batch.d.calls.len() {
        match batch.d.slots[at as int] {
            SlotView::Done { span, outcome } => {
                let next = batch.recorded(span, outcome);
                assert(next.run.ledger.log.drop_last() =~= batch.run.ledger.log);
                assert(next.run.messages.drop_last() =~= batch.run.messages);
                one_more_event_carries_on(batch.run, batch.run, next.run);
                flushing_carries_on(next);
                carrying_on_chains(batch.run, next.run, next.flushed().run);
            },
            SlotView::Waiting => {
                if batch.d.interrupt is Some {
                    flushing_carries_on(
                        Batch { d: DispatchView { flushed: at + 1, ..batch.d }, ..batch },
                    );
                }
            },
            _ => {},
        }
    }
}

proof fn announcing_carries_on(batch: Batch, positions: Seq<usize>)
    ensures
        carries_on(batch.run, batch.announced(positions)),
    decreases positions.len(),
{
    carries_itself_on(batch.run);
    if positions.len() > 0 {
        announcing_carries_on(batch, positions.drop_last());
        one_more_event_carries_on(
            batch.run,
            batch.announced(positions.drop_last()),
            batch.announced(positions),
        );
    }
}

proof fn ending_carries_on(
    before: RunView,
    run: RunView,
    turns: usize,
    error: Option<EventErrorView>,
)
    requires
        carries_on(before, run),
    ensures
        carries_on(before, run.ended(turns, error)),
{
    assert(run.ended(turns, error).ledger.log.drop_last() =~= run.ledger.log);
    one_more_event_carries_on(before, run, run.ended(turns, error));
}

proof fn commands_carry_on(
    before: RunView,
    run: RunView,
    command: CommandView,
    turn: usize,
)
    requires
        carries_on(before, run),
    ensures
        carries_on(before, run.command_recorded(command, turn)),
{
    assert(run.command_recorded(command, turn).ledger.log.drop_last() =~= run.ledger.log);
    one_more_event_carries_on(before, run, run.command_recorded(command, turn));
}

proof fn dispatching_carries_on(batch: Batch, now: u64)
    ensures
        carries_on(batch.run, batch.advanced(now).run),
{
    let looked = batch.looked();
    let admission = batch.admission(now);
    carries_itself_on(batch.run);
    one_more_event_carries_on(batch.run, batch.run, looked.run);
    if looked.d.interrupt is None {
        let drained = looked.drained(now);
        draining_carries_on(looked, now);
        carrying_on_chains(batch.run, looked.run, drained.run);
        admitting_carries_on(
            Admission { batch: drained, starts: Seq::empty(), admitted: false },
            drained.d.flushed,
        );
        carrying_on_chains(batch.run, drained.run, admission.batch.run);
    }
    let flushed = admission.batch.flushed();
    flushing_carries_on(admission.batch);
    carrying_on_chains(batch.run, admission.batch.run, flushed.run);
    announcing_carries_on(flushed, flushed.d.completed);
    let settled = admission.batch.settled();
    carrying_on_chains(batch.run, flushed.run, settled.run);
    if settled.d.flushed == settled.d.calls.len() {
        if let Some(command) = settled.d.interrupt {
            let turn = settled.run.turn;
            commands_carry_on(batch.run, settled.run, command, turn);
            ending_carries_on(
                batch.run,
                settled.run.command_recorded(command, turn),
                turn,
                Some(failure::interruption()),
            );
        }
    }
}

proof fn boundaries_carry_on(run: RunView)
    ensures
        carries_on(run, run.boundary_crossed()),
{
    carries_itself_on(run);
    if run.turn >= run.wiring.max_turns {
        ending_carries_on(run, run, run.wiring.max_turns, Some(run.limit_detail()));
    } else {
        let turn = (run.turn + 1) as usize;
        let next = RunView { turn, ..run };
        match run.inbox.interrupt {
            Some(command) => {
                let looked = RunView {
                    inbox: InboxView { interrupt: None, ..run.inbox },
                    ..next
                };
                one_more_event_carries_on(run, run, looked);
                commands_carry_on(run, looked, command, turn);
                ending_carries_on(
                    run,
                    looked.command_recorded(command, turn),
                    run.turn,
                    Some(failure::interruption()),
                );
            },
            None => {
                let rest = InboxView {
                    steers: inbox::staying(run.inbox.steers, false),
                    ..run.inbox
                };
                let from = RunView { inbox: rest, ..next };
                let due = inbox::applying(run.inbox.steers, false);
                one_more_event_carries_on(run, run, from);
                steering_carries_on(from, due, turn);
                carrying_on_chains(run, from, from.steered(due, turn));
                one_more_event_carries_on(
                    run,
                    from.steered(due, turn),
                    run.boundary_crossed(),
                );
            },
        }
    }
}

proof fn responses_carry_on(
    before: RunView,
    run: RunView,
    error: Option<EventErrorView>,
)
    requires
        carries_on(before, run),
    ensures
        carries_on(
            before,
            run.response_recorded(
                assembler::finished_turn(run.assembler),
                error,
            ),
        ),
{
    let turn = assembler::finished_turn(run.assembler);
    let after = run.response_recorded(turn, error);
    assert(after.messages.drop_last() =~= run.messages);
    assert(after.ledger.log.drop_last() =~= run.ledger.log);
    one_more_event_carries_on(before, run, after);
}

proof fn streams_carry_on(
    session: SessionView,
    error: Option<ModelErrorView>,
)
    ensures
        carries_on(session.run, session.stream_over(error).1.run),
{
    let run = session.run;
    let turn = assembler::finished_turn(run.assembler);
    carries_itself_on(run);
    match (error, run.stopping) {
        (Some(error), _) => {
            let detail = Some(failure::model_detail(error));
            responses_carry_on(run, run, detail);
            ending_carries_on(
                run,
                run.response_recorded(turn, detail),
                run.completed(),
                detail,
            );
        },
        (None, Some(command)) => {
            let detail = Some(failure::interruption());
            let recorded = run.command_recorded(command, run.turn);
            commands_carry_on(run, run, command, run.turn);
            responses_carry_on(run, recorded, detail);
            ending_carries_on(
                run,
                recorded.response_recorded(turn, detail),
                run.completed(),
                detail,
            );
        },
        (None, None) => {
            let detail = Some(run.empty_detail(turn.finish));
            responses_carry_on(run, run, detail);
            ending_carries_on(
                run,
                run.response_recorded(turn, detail),
                run.completed(),
                detail,
            );
            responses_carry_on(run, run, None);
        },
    }
    one_more_event_carries_on(
        run,
        run.stream_closed(error),
        session.stream_over(error).1.run,
    );
}

proof fn finish_lines_carry_on(run: RunView)
    ensures
        carries_on(run, run.finish_line_crossed()),
{
    let looked = RunView { inbox: InboxView { interrupt: None, ..run.inbox }, ..run };
    let rest = InboxView { steers: inbox::staying(looked.inbox.steers, true), ..looked.inbox };
    let turn = (run.turn + 1) as usize;
    let from = RunView { inbox: rest, ..looked };
    let due = inbox::applying(looked.inbox.steers, true);
    carries_itself_on(run);
    one_more_event_carries_on(run, run, looked);
    one_more_event_carries_on(run, run, from);
    steering_carries_on(from, due, turn);
    carrying_on_chains(run, from, from.steered(due, turn));
    ending_carries_on(run, looked, run.turn, None);
    ending_carries_on(run, looked.steers_applied(turn, true), run.turn, None);
}

/// The log and the history are append-only, and every request of a run shares
/// one prefix, one set of tools and one set of parameters: no step changes
/// what was recorded, what was said, what was folded, or what the run started
/// with.
pub proof fn steps_only_add(session: SessionView, report: ReportView, now: u64)
    ensures
        carries_on(session.run, session.stepped(report, now).1.run),
{
    let run = session.run;
    let after = session.stepped(report, now).1.run;
    carries_itself_on(run);
    match session.phase {
        PhaseView::Boundary => boundaries_carry_on(run),
        PhaseView::Folding(plan) => {
            if let ReportView::Spilled(paths) = report {
                if paths.len() == plan.orders.len() {
                    assert(after.ledger.log.drop_last() =~= run.ledger.log);
                    assert(run.fold.folded =~= after.fold.folded.subrange(
                        0,
                        run.fold.folded.len() as int,
                    ));
                    one_more_event_carries_on(run, run, after);
                }
            }
        },
        PhaseView::Probing => {
            if let ReportView::Probed { .. } = report {
                assert(after.ledger.log.drop_last() =~= run.ledger.log);
                one_more_event_carries_on(run, run, after);
            }
        },
        PhaseView::Calling => {
            if let ReportView::Refused(error) = report {
                ending_carries_on(
                    run,
                    run,
                    run.completed(),
                    Some(failure::model_detail(error)),
                );
            }
        },
        PhaseView::Streaming => {
            if let ReportView::Broke(error) = report {
                streams_carry_on(session, Some(error));
            }
            streams_carry_on(session, None);
            if let ReportView::Chunk(_) = report {
                one_more_event_carries_on(run, run, after);
            }
        },
        PhaseView::Checking => {
            let looked = SessionView::at(run.interrupt_checked(), PhaseView::Streaming);
            one_more_event_carries_on(run, run, looked.run);
            streams_carry_on(looked, None);
            carrying_on_chains(run, looked.run, looked.stream_over(None).1.run);
        },
        PhaseView::Tracking { turn, calls } => {
            finish_lines_carry_on(run);
            one_more_event_carries_on(run, run, dispatch::opened(run, calls, now).run);
        },
        PhaseView::Dispatching { batch, nested } => {
            dispatching_carries_on(Batch { run, d: batch }, now);
            denying_carries_on(run, batch, true);
            denying_carries_on(run, batch, false);
            if let ReportView::Received(received) = report {
                if received is Command {
                    one_more_event_carries_on(run, run, after);
                }
            }
        },
        PhaseView::Nesting(files) => injecting_carries_on(run, files),
        PhaseView::Closed => {},
    }
}

/// The turn limit holds: a run that is within its limit of turns stays within
/// it, whatever happens.
pub proof fn turns_stay_within_the_limit(session: SessionView, report: ReportView, now: u64)
    requires
        session.run.turn <= session.run.wiring.max_turns,
    ensures
        ({
            let after = session.stepped(report, now).1.run;
            &&& after.wiring.max_turns == session.run.wiring.max_turns
            &&& after.turn <= after.wiring.max_turns
        }),
{
    steps_only_add(session, report, now);
}

/// The system message of every request is the prefix that the run started
/// with, byte for byte, and its other parameters are those of the base.
pub proof fn requests_share_one_prefix(
    session: SessionView,
    report: ReportView,
    now: u64,
    first: (Option<GitStatusView>, i32),
    second: (Option<GitStatusView>, i32),
)
    ensures
        ({
            let before = session.run.request(first.0, first.1);
            let after = session.stepped(report, now).1.run.request(second.0, second.1);
            &&& after.messages[0] == before.messages[0]
            &&& after == (ChatRequestView {
                messages: after.messages,
                ..before
            })
        }),
{
    steps_only_add(session, report, now);
}

} // verus!
