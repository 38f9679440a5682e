//! What is asked about a batch and what the answers decide, in terms of the
//! calls and the commands.
use crate::contract::approval::ApprovalView;
use crate::contract::event::{CommandView, EventKindView};
use crate::contract::live::LiveKindView;
use crate::contract::message::ToolCallView;
use crate::runtime::agent::gate;
use crate::runtime::agent::gate::{GateRun, GateView};
use crate::runtime::agent::inbox;
use crate::runtime::agent::inbox::InboxView;
use crate::runtime::agent::ledger::LedgerView;
use crate::runtime::agent::tool;
use crate::runtime::agent::tool::{Concurrency, Effect, ToolDeclarationView};
use crate::text;
use vstd::prelude::*;

verus! {

/// A name is dispatched to the last tool that has it, whatever other tools
/// there are; a name that no tool has is not dispatched.
pub proof fn the_last_declaration_counts(
    before: Seq<ToolDeclarationView>,
    tool: ToolDeclarationView,
    after: Seq<ToolDeclarationView>,
    name: Seq<char>,
)
    requires
        forall|i: int| 0 <= i < after.len() ==> (#[trigger] after[i]).spec.name != name,
    ensures
        tool.spec.name == name ==> tool::declared(before.push(tool) + after, name) == Some(tool),
        tool::declared(after, name) is None,
    decreases after.len(),
{
    let all = before.push(tool) + after;
    if after.len() == 0 {
        assert(all.last() == tool);
    } else {
        let fewer = after.drop_last();
        assert(all.last() == after[after.len() - 1]);
        assert(after.last() == after[after.len() - 1]);
        assert(all.drop_last() =~= before.push(tool) + fewer);
        assert forall|i: int| 0 <= i < fewer.len() implies (#[trigger] fewer[i]).spec.name
            != name by {
            assert(fewer[i] == after[i]);
        }
        the_last_declaration_counts(before, tool, fewer, name);
    }
}

/// A call needs approval exactly where its tool mutates, and may overlap with
/// others exactly where its tool says so; a call of an unknown tool does
/// neither.
pub proof fn declarations_decide(
    tools: Seq<ToolDeclarationView>,
    call: ToolCallView,
    found: ToolDeclarationView,
)
    ensures
        tool::declared(tools, call.name) == Some(found) ==> {
            &&& tool::gated(tools, call) == (found.effect == Effect::Mutation)
            &&& tool::parallel_safe(tools, call) == (found.concurrency
                == Concurrency::ParallelSafe)
        },
        tool::declared(tools, call.name) is None ==> !tool::gated(tools, call)
            && !tool::parallel_safe(tools, call),
{
}

proof fn positions_are_those_gated(tools: Seq<ToolDeclarationView>, calls: Seq<ToolCallView>)
    requires
        calls.len() <= usize::MAX,
    ensures
        ({
            let positions = gate::gated_positions(tools, calls);
            &&& positions.len() <= calls.len()
            &&& forall|i: int|
                0 <= i < positions.len() ==> (#[trigger] positions[i]) < calls.len()
                    && tool::gated(tools, calls[positions[i] as int])
            &&& forall|i: int, j: int|
                0 <= i < j < positions.len() ==> (#[trigger] positions[i]) < (
                #[trigger] positions[j])
            &&& forall|p: usize|
                p < calls.len() && tool::gated(tools, calls[p as int])
                    ==> #[trigger] positions.contains(p)
        }),
    decreases calls.len(),
{
    if calls.len() > 0 {
        let rest = calls.drop_last();
        let before = gate::gated_positions(tools, rest);
        let after = gate::gated_positions(tools, calls);
        positions_are_those_gated(tools, rest);
        assert forall|i: int| 0 <= i < after.len() implies (#[trigger] after[i]) < calls.len()
            && tool::gated(tools, calls[after[i] as int]) by {
            if i < before.len() {
                assert(after[i] == before[i]);
                assert(rest[before[i] as int] == calls[before[i] as int]);
            }
        }
        assert forall|p: usize|
            p < calls.len() && tool::gated(tools, calls[p as int]) implies #[trigger]
            after.contains(p) by {
            if p < rest.len() {
                assert(rest[p as int] == calls[p as int]);
                assert(before.contains(p));
                let i = before.index_of(p);
                assert(after[i] == p);
            } else {
                assert(after[after.len() - 1] == p);
            }
        }
    }
}

/// The approval request of a batch lists every call that needs approval, each
/// once and in the order of the calls, under an id of its own; a batch without
/// such a call asks nothing. A call that needs no approval is approved from the
/// start, and one that does is undecided.
pub proof fn requests_list_every_gated_call(
    tools: Seq<ToolDeclarationView>,
    calls: Seq<ToolCallView>,
    turn: usize,
    now: u64,
    ledger: LedgerView,
)
    requires
        calls.len() <= usize::MAX,
        turn <= u32::MAX,
        ledger.numbers.len() >= 2,
    ensures
        ({
            let (opened, after) = gate::opened(tools, calls, turn, now, ledger);
            let asked = after.live.last();
            &&& opened.opened_ms == now
            &&& opened.decisions.len() == calls.len()
            &&& forall|p: int|
                0 <= p < calls.len() ==> #[trigger] opened.decisions[p] == (if tool::gated(
                    tools,
                    calls[p],
                ) {
                    None
                } else {
                    Some(ApprovalView::Approved)
                })
            &&& opened.request is None <==> forall|p: int|
                0 <= p < calls.len() ==> !tool::gated(tools, #[trigger] calls[p])
            &&& opened.request is None ==> after == ledger
            &&& opened.request matches Some(request) ==> {
                &&& request == "ap"@ + text::decimal(ledger.numbers[0] as nat)
                &&& after.log == ledger.log
                &&& asked.seq == ledger.numbers[1]
                &&& asked.kind matches LiveKindView::ApprovalRequested {
                    request_id,
                    turn: shown,
                    calls: listed,
                } && request_id == request && shown == turn && listed.len()
                    == opened.positions.len() && forall|i: int|
                    0 <= i < listed.len() ==> #[trigger] listed[i]
                        == calls[opened.positions[i] as int]
            }
            &&& forall|i: int|
                0 <= i < opened.positions.len() ==> tool::gated(
                    tools,
                    calls[#[trigger] opened.positions[i] as int],
                )
            &&& forall|i: int, j: int|
                0 <= i < j < opened.positions.len() ==> (#[trigger] opened.positions[i]) < (
                #[trigger] opened.positions[j])
            &&& forall|p: usize|
                p < calls.len() && tool::gated(tools, calls[p as int])
                    ==> #[trigger] opened.positions.contains(p)
        }),
{
    let (opened, after) = gate::opened(tools, calls, turn, now, ledger);
    positions_are_those_gated(tools, calls);
    if opened.request is None {
        assert forall|p: int| 0 <= p < calls.len() implies !tool::gated(
            tools,
            #[trigger] calls[p],
        ) by {
            if tool::gated(tools, calls[p]) {
                assert(opened.positions.contains(p as usize));
            }
        }
    } else {
        let first = opened.positions[0];
        assert(tool::gated(tools, calls[first as int]));
    }
}

/// An answer about one call decides that call, where it was undecided, and no
/// other; an answer about a call that is not there decides nothing.
pub proof fn single_answers_decide_one_call(
    gate: GateView,
    command_id: Seq<char>,
    request_id: Seq<char>,
    call_index: usize,
    decision: ApprovalView,
    p: int,
    n: nat,
)
    requires
        gate.well_formed(n),
        0 <= p < n,
    ensures
        ({
            let command = CommandView::ResolveApprovalCall {
                command_id,
                request_id,
                call_index,
                decision,
            };
            let after = gate.resolved(command).decisions[p];
            if call_index < gate.positions.len() && gate.positions[call_index as int] == p
                && gate.decisions[p] is None {
                after == Some(decision)
            } else {
                after == gate.decisions[p]
            }
        }),
{
}

/// The wait for answers lasts five minutes from the request on: it is over
/// exactly where a call is undecided and that time has passed, and what is left
/// of it counts down to nothing.
pub proof fn waits_last_five_minutes(gate: GateView, now: u64)
    requires
        gate.opened_ms <= now,
    ensures
        gate.expired(now) <==> gate.pending() && now >= gate.opened_ms + 5 * 60 * 1000,
        now < gate.opened_ms + 5 * 60 * 1000 ==> now + gate.remaining(now) == gate.opened_ms + 5
            * 60 * 1000,
        now >= gate.opened_ms + 5 * 60 * 1000 ==> gate.remaining(now) == 0,
{
}

/// A gate waits exactly where a call that it asked about is undecided.
pub proof fn gates_wait_for_the_undecided(gate: GateView, n: nat)
    requires
        gate.well_formed(n),
    ensures
        gate.pending() <==> exists|p: int| 0 <= p < n && #[trigger] gate.decisions[p] is None,
{
    if gate.pending() {
        let i = choose|i: int|
            0 <= i < gate.positions.len() && gate.decisions[(
            #[trigger] gate.positions[i]) as int] is None;
        assert(gate.decisions[gate.positions[i] as int] is None);
    }
    if exists|p: int| 0 <= p < n && #[trigger] gate.decisions[p] is None {
        let p = choose|p: int| 0 <= p < n && #[trigger] gate.decisions[p] is None;
        assert(gate.positions.contains(p as usize));
        let i = gate.positions.index_of(p as usize);
        assert(gate.decisions[gate.positions[i] as int] is None);
    }
}

/// A call's approval address is the request and its place among the calls that
/// were asked about; a call that was not asked about has none.
pub proof fn addresses_are_places_in_the_request(gate: GateView, i: int, p: usize, n: nat)
    requires
        gate.well_formed(n),
        p < n,
    ensures
        0 <= i < gate.positions.len() && gate.positions[i] == p ==> gate.address(p as int) == Some(
            (gate.request->0, i as usize),
        ),
        !gate.positions.contains(p) ==> gate.address(p as int) is None,
{
    if 0 <= i < gate.positions.len() && gate.positions[i] == p {
        assert(gate.positions.contains(p));
        let at = gate.positions.index_of(p);
        assert(gate.positions[at] == p);
        if at < i {
            assert(gate.positions[at] < gate.positions[i]);
        }
        if i < at {
            assert(gate.positions[i] < gate.positions[at]);
        }
    }
}

/// When a wait ends without an answer, one resolution of the whole request is
/// recorded, named after how it ended, with the decision of every call that was
/// asked about: those made before stand, and the others are denied, as timed out
/// where the time ran out.
pub proof fn unanswered_requests_are_resolved(
    gate: GateView,
    ledger: LedgerView,
    timed_out: bool,
    root: Seq<char>,
    turn: usize,
    i: int,
    n: nat,
)
    requires
        gate.well_formed(n),
        gate.pending(),
        0 <= i < gate.positions.len(),
    ensures
        ({
            let (closed, after) = gate::denied_unanswered(gate, ledger, timed_out, root, turn);
            let p = gate.positions[i] as int;
            let decided = match gate.decisions[p] {
                Some(decision) => decision,
                None => ApprovalView::Rejected {
                    comment: if timed_out {
                        Some("approval timed out"@)
                    } else {
                        None
                    },
                },
            };
            &&& closed.decisions[p] == Some(decided)
            &&& !closed.pending()
            &&& after.log.drop_last() == ledger.log
            &&& after.log.last().kind matches EventKindView::Command(
                CommandView::ResolveApproval { command_id, request_id, decisions },
            ) && Some(request_id) == gate.request && command_id == request_id + (if timed_out {
                "-timeout"@
            } else {
                "-closed"@
            }) && decisions.len() == gate.positions.len() && decisions[i] == decided
        }),
{
    let p = gate.positions[i] as int;
    gate::unanswered_is_denied(gate, gate::denial_comment(timed_out), p, n);
    let (closed, after) = gate::denied_unanswered(gate, ledger, timed_out, root, turn);
    assert(after.log.drop_last() =~= ledger.log);
}

/// A gate without an undecided call needs no closing.
pub proof fn answered_requests_need_no_resolution(
    gate: GateView,
    ledger: LedgerView,
    timed_out: bool,
    root: Seq<char>,
    turn: usize,
)
    requires
        !gate.pending(),
    ensures
        gate::denied_unanswered(gate, ledger, timed_out, root, turn) == (gate, ledger),
{
}

/// Whether a command answers the given request.
pub open spec fn answers(command: CommandView, request: Seq<char>) -> bool {
    match command {
        CommandView::ResolveApproval { request_id, .. } => request_id == request,
        CommandView::ResolveApprovalCall { request_id, .. } => request_id == request,
        _ => false,
    }
}

/// The commands that answer other requests, in order.
pub open spec fn about_others(resolves: Seq<CommandView>, request: Seq<char>) -> Seq<CommandView>
    decreases resolves.len(),
{
    if resolves.len() == 0 {
        Seq::empty()
    } else if answers(resolves[0], request) {
        about_others(resolves.drop_first(), request)
    } else {
        seq![resolves[0]] + about_others(resolves.drop_first(), request)
    }
}

proof fn taking_one_out(resolves: Seq<CommandView>, request: Seq<char>)
    ensures
        ({
            let at = inbox::first_resolve(resolves, request);
            &&& 0 <= at <= resolves.len()
            &&& at < resolves.len() ==> answers(resolves[at], request) && about_others(
                resolves.remove(at),
                request,
            ) == about_others(resolves, request)
            &&& at == resolves.len() ==> about_others(resolves, request) == resolves
            &&& forall|j: int| 0 <= j < at ==> !answers(#[trigger] resolves[j], request)
        }),
    decreases resolves.len(),
{
    if resolves.len() == 0 {
        assert(about_others(resolves, request) =~= resolves);
    } else if !answers(resolves[0], request) {
        let rest = resolves.drop_first();
        taking_one_out(rest, request);
        let at = inbox::first_resolve(rest, request);
        assert forall|j: int| 0 <= j < at + 1 implies !answers(#[trigger] resolves[j], request) by {
            if j > 0 {
                assert(rest[j - 1] == resolves[j]);
            }
        }
        if at < rest.len() {
            let fewer = resolves.remove(at + 1);
            assert(fewer.drop_first() =~= rest.remove(at));
            assert(fewer[0] == resolves[0]);
        } else {
            assert(seq![resolves[0]] + rest =~= resolves);
        }
    } else {
        assert(resolves.remove(0) =~= resolves.drop_first());
    }
}

/// Draining a gate takes out every answer to its request and leaves the answers
/// to others in order; a gate that asked nothing takes out none.
pub proof fn answers_to_others_stay(run: GateRun, root: Seq<char>, turn: usize)
    ensures
        ({
            let after = gate::settled(run, root, turn).inbox;
            match run.gate.request {
                Some(request) => after.resolves == about_others(run.inbox.resolves, request),
                None => after.resolves == run.inbox.resolves,
            }
        }),
        gate::settled(run, root, turn).inbox.steers == run.inbox.steers,
        gate::settled(run, root, turn).inbox.interrupt == run.inbox.interrupt,
    decreases run.inbox.resolves.len(),
{
    if let Some(request) = run.gate.request {
        taking_one_out(run.inbox.resolves, request);
        let at = inbox::first_resolve(run.inbox.resolves, request);
        if at < run.inbox.resolves.len() {
            let command = run.inbox.resolves[at];
            let rest = InboxView { resolves: run.inbox.resolves.remove(at), ..run.inbox };
            if run.gate.effective(command) {
                answers_to_others_stay(
                    GateRun {
                        gate: run.gate.resolved(command),
                        inbox: rest,
                        ledger: run.ledger.command_recorded(command, root, turn),
                    },
                    root,
                    turn,
                );
            } else {
                answers_to_others_stay(GateRun { inbox: rest, ..run }, root, turn);
            }
        }
    }
}

/// The first answer to a request that decides anything is recorded first and
/// takes effect before the later ones are looked at.
pub proof fn answers_take_effect_in_order(
    run: GateRun,
    request: Seq<char>,
    before: Seq<CommandView>,
    command: CommandView,
    after: Seq<CommandView>,
    root: Seq<char>,
    turn: usize,
)
    requires
        run.gate.request == Some(request),
        run.inbox.resolves == before.push(command) + after,
        answers(command, request),
        forall|i: int| 0 <= i < before.len() ==> !answers(#[trigger] before[i], request),
    ensures
        ({
            let rest = InboxView { resolves: before + after, ..run.inbox };
            gate::settled(run, root, turn) == (if run.gate.effective(command) {
                gate::settled(
                    GateRun {
                        gate: run.gate.resolved(command),
                        inbox: rest,
                        ledger: run.ledger.command_recorded(command, root, turn),
                    },
                    root,
                    turn,
                )
            } else {
                gate::settled(GateRun { inbox: rest, ..run }, root, turn)
            })
        }),
{
    let resolves = run.inbox.resolves;
    taking_one_out(resolves, request);
    let at = inbox::first_resolve(resolves, request);
    assert(resolves[before.len() as int] == command);
    if at < before.len() {
        assert(resolves[at] == before[at]);
    }
    if at > before.len() {
        assert(!answers(resolves[before.len() as int], request));
    }
    assert(resolves.remove(at) =~= before + after);
}

/// An answer about one call changes something exactly where that call is there
/// and undecided, and a batch of answers exactly where any call is undecided.
pub proof fn answers_with_effect(gate: GateView, command: CommandView)
    ensures
        match command {
            CommandView::ResolveApprovalCall { call_index, .. } => gate.effective(command) <==> (
            call_index < gate.positions.len() && gate.decisions[gate.positions[call_index as int] as int]
                is None),
            CommandView::ResolveApproval { .. } => gate.effective(command) <==> gate.pending(),
            _ => !gate.effective(command),
        },
{
}

/// Before its time is up a drained gate takes the answers that wait for it, and
/// nothing else happens to it; where no answer waits for it, nothing does.
pub proof fn gates_change_only_by_answers(run: GateRun, root: Seq<char>, turn: usize, now: u64)
    requires
        !run.gate.expired(now),
    ensures
        gate::drained(run, root, turn, now) == gate::settled(run, root, turn),
        (match run.gate.request {
            Some(request) => forall|i: int|
                0 <= i < run.inbox.resolves.len() ==> !answers(
                    #[trigger] run.inbox.resolves[i],
                    request,
                ),
            None => true,
        }) ==> gate::drained(run, root, turn, now) == run,
{
    if let Some(request) = run.gate.request {
        taking_one_out(run.inbox.resolves, request);
        let at = inbox::first_resolve(run.inbox.resolves, request);
        if at < run.inbox.resolves.len() {
            assert(answers(run.inbox.resolves[at], request));
        }
    }
}

} // verus!
