//! What the results of a run leave behind: the todo list that was written last
//! and how often each tool was executed.
use crate::contract::context::{InstructionFileView, TodoItemView};
use crate::contract::error::ModelErrorView;
use crate::contract::event::{CommandView, EventErrorView, EventKindView, EventView};
use crate::contract::message::{ContentPartView, MessageView, Role, ToolCallView};
use crate::contract::request::ChatRequestView;
use crate::json;
use crate::json::ValueView;
use crate::runtime::agent::dispatch;
use crate::runtime::agent::dispatch::{Admission, Batch, DispatchView, SlotView};
use crate::runtime::agent::gate;
use crate::runtime::agent::gate::GateRun;
use crate::runtime::agent::inbox;
use crate::runtime::agent::inbox::InboxView;
use crate::runtime::agent::outcome::ToolOutcomeView;
use crate::runtime::agent::run;
use crate::runtime::agent::run::{AgentLoopView, RunView};
use crate::runtime::agent::session::{PhaseView, ReportView, SessionView};
use crate::runtime::agent::success;
use crate::runtime::agent::success::Input;
use crate::runtime::prompt_laws;
use crate::runtime::trailer;
use crate::runtime::trailer::{GitStatusView, ToolCountView, TrailerTime};
use vstd::prelude::*;

verus! {

/// A call with what came of it.
pub type CallResult = (ToolCallView, ToolOutcomeView);

/// Whether a result writes the todo list.
pub open spec fn writes_the_list(call: ToolCallView, outcome: ToolOutcomeView) -> bool {
    call.name == "todo_write"@ && outcome.error is None && outcome.todos is Some
}

/// Whether a call was executed: it was neither rejected nor unknown.
pub open spec fn was_executed(outcome: ToolOutcomeView) -> bool {
    match outcome.error {
        Some(error) => error.kind != "approval_rejected"@ && error.kind != "unknown_tool"@,
        None => true,
    }
}

/// A recorded write replaces the todo list by its items, whatever the list held
/// before; any other result leaves the list alone: a failed write, a result
/// without items, a result of another tool.
pub proof fn writes_replace_the_list(
    run: RunView,
    call: ToolCallView,
    span: Seq<char>,
    outcome: ToolOutcomeView,
    address: Option<(Seq<char>, usize)>,
)
    ensures
        writes_the_list(call, outcome) ==> run.result_recorded(call, span, outcome, address).todos
            == outcome.todos->0,
        !writes_the_list(call, outcome) ==> run.result_recorded(
            call,
            span,
            outcome,
            address,
        ).todos == run.todos,
{
}

/// A recorded result is answered in the history under its call's id, marked as
/// an error exactly where it is one, and recorded in the log with the result,
/// the error, the turn and the approval address. A call that was executed is
/// counted under its name, and no other.
pub proof fn results_are_answered_and_counted(
    run: RunView,
    call: ToolCallView,
    span: Seq<char>,
    outcome: ToolOutcomeView,
    address: Option<(Seq<char>, usize)>,
)
    ensures
        ({
            let after = run.result_recorded(call, span, outcome, address);
            let event = after.ledger.log.last();
            let said = match outcome.result {
                ValueView::String(text) => text,
                other => json::rendered(other),
            };
            &&& after.messages == run.messages.push(
                MessageView {
                    role: Role::Tool,
                    content: seq![ContentPartView::Text { text: said }],
                    tool_call_id: Some(call.id),
                    is_error: outcome.error is Some,
                    opaque: None,
                },
            )
            &&& after.ledger.log == run.ledger.log.push(event)
            &&& event.kind == (EventKindView::ToolResult {
                call_id: call.id,
                result: outcome.result,
            })
            &&& event.error == outcome.error
            &&& event.span_id == span
            &&& event.parent_span_id == Some(run.root)
            &&& event.trace_id == run.ledger.trace_id
            &&& event.seq == run.ledger.numbers[0]
            &&& event.time_unix_ms == run.ledger.times[0]
            &&& crate::pairs::lookup(event.attributes, "selfevol.turn"@) == Some(
                json::unsigned_value(run.turn as u64),
            )
            &&& address matches Some((request, index)) ==> {
                &&& crate::pairs::lookup(event.attributes, "selfevol.approval.request_id"@)
                    == Some(ValueView::String(request))
                &&& crate::pairs::lookup(event.attributes, "selfevol.approval.call_index"@)
                    == Some(json::unsigned_value(index as u64))
            }
            &&& address is None ==> crate::pairs::lookup(
                event.attributes,
                "selfevol.approval.request_id"@,
            ) is None
            &&& after.counts == (if was_executed(outcome) {
                trailer::counted(run.counts, call.name)
            } else {
                run.counts
            })
            &&& after.fold.tracks.len() == run.fold.tracks.len() + 1
            &&& after.fold.tracks.last().msg_index == run.messages.len() as usize
            &&& after.fold.tracks.last().turn == run.turn
            &&& after.fold.tracks.last().event_id == event.id
            &&& after.fold.tracks.last().call_id == call.id
        }),
{
    let event = run.result_event(call, span, outcome, address);
    let plain = run.ledger.turn_envelope(
        span,
        run.root,
        run.turn,
        EventKindView::ToolResult { call_id: call.id, result: outcome.result },
    );
    let none = Seq::<(Seq<char>, ValueView)>::empty();
    let turn = "selfevol.turn"@;
    let request = "selfevol.approval.request_id"@;
    let index = "selfevol.approval.call_index"@;
    reveal_strlit("selfevol.turn");
    reveal_strlit("selfevol.approval.request_id");
    reveal_strlit("selfevol.approval.call_index");
    assert(turn.len() != request.len());
    assert(turn.len() != index.len());
    assert(request[18] != index[18]);
    let marked = json::unsigned_value(run.turn as u64);
    crate::pairs::lookup_after_put(none, turn, marked, turn);
    crate::pairs::lookup_after_put(none, turn, marked, request);
    assert(crate::pairs::lookup(none, request) is None);
    match address {
        Some((id, at)) => {
            let first = crate::pairs::put(plain.attributes, request, ValueView::String(id));
            crate::pairs::lookup_after_put(plain.attributes, request, ValueView::String(id), turn);
            crate::pairs::lookup_after_put(
                plain.attributes,
                request,
                ValueView::String(id),
                request,
            );
            crate::pairs::lookup_after_put(first, index, json::unsigned_value(at as u64), turn);
            crate::pairs::lookup_after_put(first, index, json::unsigned_value(at as u64), request);
            crate::pairs::lookup_after_put(first, index, json::unsigned_value(at as u64), index);
        },
        None => {},
    }
    let after = run.result_recorded(call, span, outcome, address);
    assert(after.ledger.log.last() == event);
}

/// The todo list after the given results: that of the last write among them.
pub open spec fn list_after(todos: Seq<TodoItemView>, results: Seq<CallResult>) -> Seq<TodoItemView>
    decreases results.len(),
{
    if results.len() == 0 {
        todos
    } else if writes_the_list(results.last().0, results.last().1) {
        results.last().1.todos->0
    } else {
        list_after(todos, results.drop_last())
    }
}

/// The counters after the given results.
pub open spec fn counts_after(counts: Seq<ToolCountView>, results: Seq<CallResult>) -> Seq<
    ToolCountView,
>
    decreases results.len(),
{
    if results.len() == 0 {
        counts
    } else {
        let before = counts_after(counts, results.drop_last());
        if was_executed(results.last().1) {
            trailer::counted(before, results.last().0.name)
        } else {
            before
        }
    }
}

/// What the log tells of a result.
pub type Told = (Seq<char>, ValueView, Option<EventErrorView>);

/// The results that a log tells of, in order.
pub open spec fn told(log: Seq<EventView>) -> Seq<Told>
    decreases log.len(),
{
    if log.len() == 0 {
        Seq::empty()
    } else {
        let before = told(log.drop_last());
        match log.last().kind {
            EventKindView::ToolResult { call_id, result } => before.push(
                (call_id, result, log.last().error),
            ),
            _ => before,
        }
    }
}

/// What a log tells of the given results.
pub open spec fn telling(results: Seq<CallResult>) -> Seq<Told> {
    results.map_values(|r: CallResult| (r.0.id, r.1.result, r.1.error))
}

/// Whether `after` is `before` with the given results recorded and nothing else
/// that touches the list, the counters or the results in the log.
pub open spec fn adds(before: RunView, after: RunView, results: Seq<CallResult>) -> bool {
    &&& after.todos == list_after(before.todos, results)
    &&& after.counts == counts_after(before.counts, results)
    &&& told(after.ledger.log) == told(before.ledger.log) + telling(results)
}

/// Whether the list, the counters and the results in the log are the same.
pub open spec fn stays(before: RunView, after: RunView) -> bool {
    &&& after.todos == before.todos
    &&& after.counts == before.counts
    &&& told(after.ledger.log) == told(before.ledger.log)
}

proof fn nothing_more(before: RunView, after: RunView)
    requires
        stays(before, after),
    ensures
        adds(before, after, Seq::empty()),
{
    assert(telling(Seq::empty()) =~= Seq::empty());
    assert(told(before.ledger.log) + Seq::<Told>::empty() =~= told(before.ledger.log));
}

proof fn results_chain(
    a: RunView,
    b: RunView,
    c: RunView,
    first: Seq<CallResult>,
    second: Seq<CallResult>,
)
    requires
        adds(a, b, first),
        adds(b, c, second),
    ensures
        adds(a, c, first + second),
{
    lists_chain(a.todos, a.counts, first, second);
    assert(telling(first + second) =~= telling(first) + telling(second));
    assert(told(a.ledger.log) + (telling(first) + telling(second)) =~= (told(a.ledger.log)
        + telling(first)) + telling(second));
}

proof fn lists_chain(
    todos: Seq<TodoItemView>,
    counts: Seq<ToolCountView>,
    first: Seq<CallResult>,
    second: Seq<CallResult>,
)
    ensures
        list_after(list_after(todos, first), second) == list_after(todos, first + second),
        counts_after(counts_after(counts, first), second) == counts_after(counts, first + second),
    decreases second.len(),
{
    if second.len() == 0 {
        assert(first + second =~= first);
    } else {
        lists_chain(todos, counts, first, second.drop_last());
        assert((first + second).drop_last() =~= first + second.drop_last());
        assert((first + second).last() == second.last());
    }
}

/// An event of another kind tells of no result.
proof fn other_events_tell_nothing(log: Seq<EventView>, after: Seq<EventView>)
    requires
        after.len() == log.len() + 1,
        after.drop_last() =~= log,
        after.last().kind !is ToolResult,
    ensures
        told(after) == told(log),
{
    assert(after.drop_last() == log);
}

proof fn steering_stays(run: RunView, steers: Seq<CommandView>, turn: usize)
    ensures
        stays(run, run.steered(steers, turn)),
    decreases steers.len(),
{
    if steers.len() > 0 {
        steering_stays(run, steers.drop_last(), turn);
        let before = run.steered(steers.drop_last(), turn);
        if let CommandView::Steer { .. } = steers.last() {
            other_events_tell_nothing(before.ledger.log, run.steered(steers, turn).ledger.log);
        }
    }
}

proof fn injecting_stays(run: RunView, files: Seq<InstructionFileView>)
    ensures
        stays(run, run.injected(files)),
    decreases files.len(),
{
    if files.len() > 0 {
        injecting_stays(run, files.drop_last());
        let before = run.injected(files.drop_last());
        other_events_tell_nothing(before.ledger.log, run.injected(files).ledger.log);
    }
}

proof fn resolving_stays(run: GateRun, root: Seq<char>, turn: usize)
    ensures
        told(gate::settled(run, root, turn).ledger.log) == told(run.ledger.log),
    decreases run.inbox.resolves.len(),
{
    if let Some(request) = run.gate.request {
        let at = inbox::first_resolve(run.inbox.resolves, request);
        if 0 <= at < run.inbox.resolves.len() {
            let command = run.inbox.resolves[at];
            let rest = InboxView { resolves: run.inbox.resolves.remove(at), ..run.inbox };
            if run.gate.effective(command) {
                let next = GateRun {
                    gate: run.gate.resolved(command),
                    inbox: rest,
                    ledger: run.ledger.command_recorded(command, root, turn),
                };
                resolving_stays(next, root, turn);
                other_events_tell_nothing(run.ledger.log, next.ledger.log);
            } else {
                resolving_stays(GateRun { inbox: rest, ..run }, root, turn);
            }
        }
    }
}

proof fn denying_stays(run: RunView, d: DispatchView, timed_out: bool)
    ensures
        stays(run, run.gate_denied(d.gate, timed_out)),
{
    let after = run.gate_denied(d.gate, timed_out);
    if after.ledger.log != run.ledger.log {
        other_events_tell_nothing(run.ledger.log, after.ledger.log);
    }
}

proof fn draining_stays(batch: Batch, now: u64)
    ensures
        stays(batch.run, batch.drained(now).run),
{
    let run = batch.run.gate_run(batch.d.gate);
    let (gate, ledger) = if run.gate.expired(now) {
        gate::denied_unanswered(run.gate, run.ledger, true, batch.run.root, batch.run.turn)
    } else {
        (run.gate, run.ledger)
    };
    if ledger.log != run.ledger.log {
        other_events_tell_nothing(run.ledger.log, ledger.log);
    }
    resolving_stays(GateRun { gate, ledger, ..run }, batch.run.root, batch.run.turn);
}

proof fn admitting_stays(a: Admission, p: nat)
    requires
        noted_down(a.batch.d),
    ensures
        stays(a.batch.run, dispatch::admit_from(a, p).batch.run),
        noted_down(dispatch::admit_from(a, p).batch.d),
        dispatch::admit_from(a, p).batch.d.flushed == a.batch.d.flushed,
        dispatch::admit_from(a, p).batch.d.calls == a.batch.d.calls,
    decreases a.batch.d.calls.len() - p,
{
    let d = a.batch.d;
    if p < d.calls.len() && (d.all_safe || !dispatch::in_flight(d.slots)) {
        if !(d.slots[p as int] is Waiting) {
            admitting_stays(a, p + 1);
        } else {
            match d.gate.decisions[p as int] {
                None => admitting_stays(a, p + 1),
                Some(decision) => {
                    let next = Admission {
                        batch: a.batch.admitted(p as int, decision),
                        starts: if decision is Approved {
                            a.starts.push(p as usize)
                        } else {
                            a.starts
                        },
                        admitted: true,
                    };
                    other_events_tell_nothing(
                        a.batch.run.ledger.log,
                        next.batch.run.ledger.log,
                    );
                    assert(noted_down(next.batch.d));
                    if d.all_safe {
                        admitting_stays(next, p + 1);
                    }
                },
            }
        }
    }
}

proof fn announcing_stays(batch: Batch, positions: Seq<usize>)
    ensures
        stays(batch.run, batch.announced(positions)),
    decreases positions.len(),
{
    if positions.len() > 0 {
        announcing_stays(batch, positions.drop_last());
    }
}

proof fn ending_stays(run: RunView, turns: usize, error: Option<EventErrorView>)
    ensures
        stays(run, run.ended(turns, error)),
{
    other_events_tell_nothing(run.ledger.log, run.ended(turns, error).ledger.log);
}

proof fn commands_stay(run: RunView, command: CommandView, turn: usize)
    ensures
        stays(run, run.command_recorded(command, turn)),
{
    other_events_tell_nothing(run.ledger.log, run.command_recorded(command, turn).ledger.log);
}

/// Whether what came of every call that is done is noted down.
pub open spec fn noted_down(d: DispatchView) -> bool {
    &&& d.slots.len() == d.calls.len()
    &&& d.outcomes.len() == d.calls.len()
    &&& forall|p: int|
        0 <= p < d.slots.len() ==> match #[trigger] d.slots[p] {
            SlotView::Done { outcome, .. } => d.outcomes[p] == Some(outcome),
            _ => true,
        }
}

/// The results of the calls from `from` up to `to` that were recorded.
pub open spec fn recorded_from(d: DispatchView, from: int, to: int) -> Seq<CallResult>
    decreases to - from,
{
    if from >= to {
        Seq::empty()
    } else {
        (if d.slots[from] is Recorded {
            seq![(d.calls[from], d.outcomes[from]->0)]
        } else {
            Seq::empty()
        }) + recorded_from(d, from + 1, to)
    }
}

proof fn one_result(
    run: RunView,
    call: ToolCallView,
    span: Seq<char>,
    outcome: ToolOutcomeView,
    address: Option<(Seq<char>, usize)>,
)
    ensures
        adds(run, run.result_recorded(call, span, outcome, address), seq![(call, outcome)]),
{
    let after = run.result_recorded(call, span, outcome, address);
    let results = seq![(call, outcome)];
    results_are_answered_and_counted(run, call, span, outcome, address);
    writes_replace_the_list(run, call, span, outcome, address);
    assert(results.drop_last() =~= Seq::empty());
    assert(list_after(run.todos, results.drop_last()) == run.todos);
    assert(counts_after(run.counts, results.drop_last()) == run.counts);
    assert(after.ledger.log.drop_last() =~= run.ledger.log);
    assert(told(after.ledger.log) =~= told(run.ledger.log) + telling(results));
}

proof fn flushing_adds(batch: Batch)
    requires
        noted_down(batch.d),
    ensures
        ({
            let after = batch.flushed();
            &&& batch.d.flushed <= after.d.flushed
            &&& adds(
                batch.run,
                after.run,
                recorded_from(after.d, batch.d.flushed as int, after.d.flushed as int),
            )
            &&& noted_down(after.d)
            &&& after.d.calls == batch.d.calls
            &&& after.d.outcomes == batch.d.outcomes
            &&& forall|p: int|
                0 <= p < batch.d.flushed && p < after.d.slots.len() ==> #[trigger] after.d.slots[p]
                    == batch.d.slots[p]
        }),
    decreases batch.d.calls.len() - batch.d.flushed,
{
    let at = batch.d.flushed;
    let after = batch.flushed();
    nothing_more(batch.run, batch.run);
    if at < batch.d.calls.len() {
        match batch.d.slots[at as int] {
            SlotView::Done { span, outcome } => {
                let next = batch.recorded(span, outcome);
                let call = batch.d.calls[at as int];
                assert(noted_down(next.d));
                one_result(batch.run, call, span, outcome, batch.d.gate.address(at as int));
                flushing_adds(next);
                assert(after.d.slots[at as int] == next.d.slots[at as int]);
                let rest = recorded_from(after.d, at as int + 1, after.d.flushed as int);
                results_chain(batch.run, next.run, after.run, seq![(call, outcome)], rest);
                assert forall|p: int| 0 <= p < at && p < after.d.slots.len() implies #[trigger]
                    after.d.slots[p] == batch.d.slots[p] by {
                    assert(after.d.slots[p] == next.d.slots[p]);
                }
            },
            SlotView::Waiting => {
                if batch.d.interrupt is Some {
                    let next = Batch { d: DispatchView { flushed: at + 1, ..batch.d }, ..batch };
                    flushing_adds(next);
                    assert(after.d.slots[at as int] == next.d.slots[at as int]);
                    let rest = recorded_from(after.d, at as int + 1, after.d.flushed as int);
                    assert(Seq::<CallResult>::empty() + rest =~= rest);
                }
            },
            _ => {},
        }
    }
}

/// The results that one step of the dispatch records, in call order.
pub open spec fn dispatched(batch: Batch, now: u64) -> Seq<CallResult> {
    let after = batch.advanced(now).d;
    recorded_from(after, batch.d.flushed as int, after.flushed as int)
}

proof fn dispatching_adds(batch: Batch, now: u64)
    requires
        noted_down(batch.d),
    ensures
        adds(batch.run, batch.advanced(now).run, dispatched(batch, now)),
        noted_down(batch.advanced(now).d),
{
    let looked = batch.looked();
    let admission = batch.admission(now);
    if looked.d.interrupt is None {
        let drained = looked.drained(now);
        draining_stays(looked, now);
        admitting_stays(
            Admission { batch: drained, starts: Seq::empty(), admitted: false },
            drained.d.flushed,
        );
    }
    assert(stays(batch.run, admission.batch.run));
    nothing_more(batch.run, admission.batch.run);
    let flushed = admission.batch.flushed();
    flushing_adds(admission.batch);
    let results = recorded_from(flushed.d, batch.d.flushed as int, flushed.d.flushed as int);
    results_chain(
        batch.run,
        admission.batch.run,
        flushed.run,
        Seq::empty(),
        results,
    );
    assert(Seq::<CallResult>::empty() + results =~= results);
    announcing_stays(flushed, flushed.d.completed);
    let settled = admission.batch.settled();
    same_slots_same_results(
        flushed.d,
        settled.d,
        batch.d.flushed as int,
        flushed.d.flushed as int,
    );
    if settled.d.flushed == settled.d.calls.len() {
        if let Some(command) = settled.d.interrupt {
            let turn = settled.run.turn;
            commands_stay(settled.run, command, turn);
            ending_stays(
                settled.run.command_recorded(command, turn),
                turn,
                Some(crate::runtime::agent::failure::interruption()),
            );
        }
    }
    assert(stays(flushed.run, batch.advanced(now).run));
    assert(batch.advanced(now).d == settled.d);
}

proof fn same_slots_same_results(d: DispatchView, other: DispatchView, from: int, to: int)
    requires
        d.slots == other.slots,
        d.calls == other.calls,
        d.outcomes == other.outcomes,
    ensures
        recorded_from(d, from, to) == recorded_from(other, from, to),
    decreases to - from,
{
    if from < to {
        same_slots_same_results(d, other, from + 1, to);
    }
}

proof fn responses_stay(run: RunView, error: Option<ModelErrorView>)
    ensures
        stays(run, run.stream_closed(error)),
{
    let turn = crate::runtime::assembler::finished_turn(run.assembler);
    match (error, run.stopping) {
        (Some(error), _) => {
            let detail = Some(crate::runtime::agent::failure::model_detail(error));
            let recorded = run.response_recorded(turn, detail);
            other_events_tell_nothing(run.ledger.log, recorded.ledger.log);
            ending_stays(recorded, run.completed(), detail);
        },
        (None, Some(command)) => {
            let detail = Some(crate::runtime::agent::failure::interruption());
            let noted = run.command_recorded(command, run.turn);
            commands_stay(run, command, run.turn);
            let recorded = noted.response_recorded(turn, detail);
            other_events_tell_nothing(noted.ledger.log, recorded.ledger.log);
            ending_stays(recorded, run.completed(), detail);
        },
        (None, None) => {
            let detail = Some(run.empty_detail(turn.finish));
            let recorded = run.response_recorded(turn, detail);
            other_events_tell_nothing(run.ledger.log, recorded.ledger.log);
            ending_stays(recorded, run.completed(), detail);
            other_events_tell_nothing(
                run.ledger.log,
                run.response_recorded(turn, None).ledger.log,
            );
        },
    }
}

proof fn boundaries_stay(run: RunView)
    ensures
        stays(run, run.boundary_crossed()),
{
    if run.turn >= run.wiring.max_turns {
        ending_stays(run, run.wiring.max_turns, Some(run.limit_detail()));
    } else {
        let turn = (run.turn + 1) as usize;
        let next = RunView { turn, ..run };
        match run.inbox.interrupt {
            Some(command) => {
                let looked = RunView { inbox: InboxView { interrupt: None, ..run.inbox }, ..next };
                commands_stay(looked, command, turn);
                ending_stays(
                    looked.command_recorded(command, turn),
                    run.turn,
                    Some(crate::runtime::agent::failure::interruption()),
                );
            },
            None => {
                let rest = InboxView {
                    steers: inbox::staying(run.inbox.steers, false),
                    ..run.inbox
                };
                steering_stays(
                    RunView { inbox: rest, ..next },
                    inbox::applying(run.inbox.steers, false),
                    turn,
                );
            },
        }
    }
}

proof fn finish_lines_stay(run: RunView)
    ensures
        stays(run, run.finish_line_crossed()),
{
    let looked = RunView { inbox: InboxView { interrupt: None, ..run.inbox }, ..run };
    let rest = InboxView { steers: inbox::staying(looked.inbox.steers, true), ..looked.inbox };
    let turn = (run.turn + 1) as usize;
    let from = RunView { inbox: rest, ..looked };
    let due = inbox::applying(looked.inbox.steers, true);
    steering_stays(from, due, turn);
    ending_stays(looked, run.turn, None);
    ending_stays(looked.steers_applied(turn, true), run.turn, None);
}

/// The results that one step of a session records.
pub open spec fn recorded_in_step(session: SessionView, report: ReportView, now: u64) -> Seq<
    CallResult,
> {
    match session.phase {
        PhaseView::Dispatching { batch, .. } => if report is Ready {
            dispatched(Batch { run: session.run, d: batch }, now)
        } else {
            Seq::empty()
        },
        _ => Seq::empty(),
    }
}

/// Whether the batch of a session, where there is one, has its results noted
/// down.
pub open spec fn keeps_results(session: SessionView) -> bool {
    match session.phase {
        PhaseView::Dispatching { batch, .. } => noted_down(batch),
        _ => true,
    }
}

/// A step changes the todo list and the counters only by the results that it
/// records, each of which the log tells of.
pub proof fn only_results_change_the_list(session: SessionView, report: ReportView, now: u64)
    requires
        keeps_results(session),
    ensures
        adds(
            session.run,
            session.stepped(report, now).1.run,
            recorded_in_step(session, report, now),
        ),
        keeps_results(session.stepped(report, now).1),
{
    let run = session.run;
    let after = session.stepped(report, now).1.run;
    nothing_more(run, run);
    match session.phase {
        PhaseView::Boundary => {
            boundaries_stay(run);
            nothing_more(run, run.boundary_crossed());
        },
        PhaseView::Folding(plan) => {
            if let ReportView::Spilled(paths) = report {
                if paths.len() == plan.orders.len() {
                    other_events_tell_nothing(run.ledger.log, after.ledger.log);
                    nothing_more(run, after);
                }
            }
        },
        PhaseView::Probing => {
            if let ReportView::Probed { .. } = report {
                other_events_tell_nothing(run.ledger.log, after.ledger.log);
                nothing_more(run, after);
            }
        },
        PhaseView::Calling => {
            if let ReportView::Refused(error) = report {
                ending_stays(
                    run,
                    run.completed(),
                    Some(crate::runtime::agent::failure::model_detail(error)),
                );
                nothing_more(run, after);
            }
        },
        PhaseView::Streaming => {
            responses_stay(run, None);
            if let ReportView::Broke(error) = report {
                responses_stay(run, Some(error));
            }
            nothing_more(run, after);
        },
        PhaseView::Checking => {
            let looked = run.interrupt_checked();
            responses_stay(looked, None);
            nothing_more(run, after);
        },
        PhaseView::Tracking { turn, calls } => {
            finish_lines_stay(run);
            nothing_more(run, after);
        },
        PhaseView::Dispatching { batch, nested } => {
            dispatching_adds(Batch { run, d: batch }, now);
            denying_stays(run, batch, true);
            denying_stays(run, batch, false);
            if !(report is Ready) {
                nothing_more(run, after);
            }
        },
        PhaseView::Nesting(files) => {
            injecting_stays(run, files);
            nothing_more(run, run.injected(files));
        },
        PhaseView::Closed => {},
    }
}

/// The results that a run records over the given inputs, in order.
pub open spec fn recorded_over(session: SessionView, inputs: Seq<Input>) -> Seq<CallResult>
    decreases inputs.len(),
{
    if inputs.len() == 0 {
        Seq::empty()
    } else {
        let before = inputs.drop_last();
        recorded_over(session, before) + (match inputs.last() {
            Input::Step { report, now } => recorded_in_step(
                success::led(session, before),
                report,
                now,
            ),
            _ => Seq::empty(),
        })
    }
}

/// How many of the given results are executions of the tool `name`.
pub open spec fn executions(results: Seq<CallResult>, name: Seq<char>) -> nat
    decreases results.len(),
{
    if results.len() == 0 {
        0
    } else {
        let before = executions(results.drop_last(), name);
        if results.last().0.name == name && was_executed(results.last().1) {
            before + 1
        } else {
            before
        }
    }
}

/// Whether result `k` is the last of `results` that writes the todo list.
pub open spec fn last_write(results: Seq<CallResult>, k: int) -> bool {
    &&& 0 <= k < results.len()
    &&& writes_the_list(results[k].0, results[k].1)
    &&& forall|i: int|
        k < i < results.len() ==> !writes_the_list((#[trigger] results[i]).0, results[i].1)
}

proof fn lists_are_last_writes(todos: Seq<TodoItemView>, results: Seq<CallResult>, k: int)
    ensures
        last_write(results, k) ==> list_after(todos, results) == results[k].1.todos->0,
        (forall|i: int|
            0 <= i < results.len() ==> !writes_the_list((#[trigger] results[i]).0, results[i].1))
            ==> list_after(todos, results) == todos,
    decreases results.len(),
{
    if results.len() > 0 {
        let before = results.drop_last();
        lists_are_last_writes(todos, before, k);
        assert(results[results.len() - 1] == results.last());
        assert(forall|i: int| 0 <= i < before.len() ==> before[i] == results[i]);
        if last_write(results, k) && k < before.len() {
            assert(last_write(before, k));
        }
        if forall|i: int|
            0 <= i < results.len() ==> !writes_the_list((#[trigger] results[i]).0, results[i].1) {
            assert forall|i: int| 0 <= i < before.len() implies !writes_the_list(
                (#[trigger] before[i]).0,
                before[i].1,
            ) by {
                assert(before[i] == results[i]);
            }
        }
    }
}

proof fn counts_are_executions(results: Seq<CallResult>, name: Seq<char>)
    requires
        results.len() < usize::MAX,
    ensures
        ({
            let counts = counts_after(Seq::empty(), results);
            &&& trailer::in_name_order(counts)
            &&& forall|i: int|
                0 <= i < counts.len() ==> (#[trigger] counts[i]).count <= results.len()
            &&& prompt_laws::tallies(counts, name, executions(results, name) as int)
        }),
    decreases results.len(),
{
    if results.len() > 0 {
        let before = counts_after(Seq::empty(), results.drop_last());
        let own = results.last().0.name;
        counts_are_executions(results.drop_last(), name);
        if was_executed(results.last().1) {
            let after = trailer::counted(before, own);
            trailer::counters_stay_in_name_order(before, own);
            prompt_laws::executions_are_counted_by_name(
                before,
                own,
                name,
                executions(results.drop_last(), name) as int,
            );
            let at = trailer::counter_slot(before, own);
            trailer::counter_slot_bounds(before, own);
            assert forall|i: int| 0 <= i < after.len() implies (#[trigger] after[i]).count
                <= results.len() by {
                if at < before.len() && before[at].name == own {
                    if i == at {
                        assert(before[at].count <= results.len() - 1);
                    } else {
                        assert(after[i] == before[i]);
                    }
                } else if i < at {
                    assert(after[i] == before[i]);
                } else if i > at {
                    assert(after[i] == before[i - 1]);
                }
            }
        }
    }
}

proof fn runs_add_up(
    wiring: AgentLoopView,
    base: ChatRequestView,
    numbers: Seq<u64>,
    times: Seq<u64>,
    inputs: Seq<Input>,
)
    ensures
        ({
            let start = SessionView::at(
                run::started(wiring, base, numbers, times),
                PhaseView::Boundary,
            );
            let session = success::led(start, inputs);
            &&& keeps_results(session)
            &&& adds(start.run, session.run, recorded_over(start, inputs))
        }),
    decreases inputs.len(),
{
    let start = SessionView::at(run::started(wiring, base, numbers, times), PhaseView::Boundary);
    if inputs.len() == 0 {
        nothing_more(start.run, start.run);
    } else {
        let before = inputs.drop_last();
        runs_add_up(wiring, base, numbers, times, before);
        let earlier = success::led(start, before);
        let session = success::led(start, inputs);
        match inputs.last() {
            Input::Step { report, now } => {
                only_results_change_the_list(earlier, report, now);
                results_chain(
                    start.run,
                    earlier.run,
                    session.run,
                    recorded_over(start, before),
                    recorded_in_step(earlier, report, now),
                );
            },
            _ => {
                nothing_more(earlier.run, session.run);
                results_chain(
                    start.run,
                    earlier.run,
                    session.run,
                    recorded_over(start, before),
                    Seq::empty(),
                );
            },
        }
    }
}

/// Over a whole run, whatever happens in it: the log tells of every recorded
/// result in order; the todo list is that of the latest successful write among
/// them, empty before the first, and the trailer of every request shows it; and
/// the counter of each tool is the number of its executions among them.
pub proof fn trailers_show_the_latest_list(
    wiring: AgentLoopView,
    base: ChatRequestView,
    numbers: Seq<u64>,
    times: Seq<u64>,
    inputs: Seq<Input>,
    k: int,
    name: Seq<char>,
    git: Option<GitStatusView>,
    offset_minutes: i32,
)
    ensures
        ({
            let start = SessionView::at(
                run::started(wiring, base, numbers, times),
                PhaseView::Boundary,
            );
            let run = success::led(start, inputs).run;
            let results = recorded_over(start, inputs);
            let time = Some(
                TrailerTime {
                    now_ms: run.ledger.times[0],
                    run_start_ms: times[0],
                    offset_seconds: trailer::clock_offset(offset_minutes),
                },
            );
            &&& told(run.ledger.log) == telling(results)
            &&& last_write(results, k) ==> run.todos == results[k].1.todos->0
                && run.trailer(git, offset_minutes) == trailer::trailer_text(
                wiring.cwd,
                git,
                time,
                run.counts,
                results[k].1.todos->0,
            )
            &&& (forall|i: int|
                0 <= i < results.len() ==> !writes_the_list(
                    (#[trigger] results[i]).0,
                    results[i].1,
                )) ==> run.todos.len() == 0
            &&& results.len() < usize::MAX ==> prompt_laws::tallies(
                run.counts,
                name,
                executions(results, name) as int,
            )
        }),
{
    let start = SessionView::at(run::started(wiring, base, numbers, times), PhaseView::Boundary);
    let run = success::led(start, inputs).run;
    let results = recorded_over(start, inputs);
    runs_add_up(wiring, base, numbers, times, inputs);
    runs_stay_wired(wiring, base, numbers, times, inputs);
    let opening = start.run.ledger.log;
    assert(opening.drop_last() =~= Seq::empty());
    assert(told(opening.drop_last()) == Seq::<Told>::empty());
    assert(told(opening) =~= Seq::empty());
    assert(Seq::<Told>::empty() + telling(results) =~= telling(results));
    lists_are_last_writes(start.run.todos, results, k);
    if results.len() < usize::MAX {
        counts_are_executions(results, name);
    }
}

proof fn runs_stay_wired(
    wiring: AgentLoopView,
    base: ChatRequestView,
    numbers: Seq<u64>,
    times: Seq<u64>,
    inputs: Seq<Input>,
)
    ensures
        ({
            let start = SessionView::at(
                run::started(wiring, base, numbers, times),
                PhaseView::Boundary,
            );
            let run = success::led(start, inputs).run;
            &&& run.wiring == wiring
            &&& run.run_start_ms == times[0]
        }),
    decreases inputs.len(),
{
    let start = SessionView::at(run::started(wiring, base, numbers, times), PhaseView::Boundary);
    if inputs.len() > 0 {
        let before = inputs.drop_last();
        runs_stay_wired(wiring, base, numbers, times, before);
        if let Input::Step { report, now } = inputs.last() {
            crate::runtime::agent::growth::steps_only_add(
                success::led(start, before),
                report,
                now,
            );
        }
    }
}

} // verus!
