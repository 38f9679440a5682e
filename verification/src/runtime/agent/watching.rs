//! What a subscriber of the live stream can rely on: its own fold of the
//! published increments is the turn that is recorded.
use crate::contract::event::{EventKindView, EventView};
use crate::contract::live::{LiveItemView, LiveKindView};
use crate::contract::stream::StreamChunkView;
use crate::runtime::agent::failure;
use crate::runtime::agent::session::{PhaseView, ReportView, SessionView};
use crate::runtime::assembler;
use vstd::prelude::*;

verus! {

/// The increments published since the latest request, in order.
pub open spec fn increments(live: Seq<LiveItemView>) -> Seq<StreamChunkView>
    decreases live.len(),
{
    if live.len() == 0 {
        Seq::empty()
    } else {
        match live.last().kind {
            LiveKindView::AssistantDelta { chunk, .. } => increments(live.drop_last()).push(chunk),
            LiveKindView::Recorded { event } if event.kind is LlmRequest => Seq::empty(),
            _ => increments(live.drop_last()),
        }
    }
}

/// What the latest response of a log carries.
pub open spec fn latest_answer(log: Seq<EventView>) -> Option<EventKindView>
    decreases log.len(),
{
    if log.len() == 0 {
        None
    } else if log.last().kind is LlmResponse {
        Some(log.last().kind)
    } else {
        latest_answer(log.drop_last())
    }
}

/// Whether a provider call is under way.
pub open spec fn calling(session: SessionView) -> bool {
    session.phase is Calling || session.phase is Streaming || session.phase is Checking
}

/// Whether the open turn is the fold of what was published of it.
pub open spec fn reconciled(session: SessionView) -> bool {
    calling(session) ==> session.run.assembler == assembler::assembled(
        increments(session.run.ledger.live),
    )
}

/// Every increment is published before it is folded: at each step the open
/// turn stays the fold of what was published of it.
pub proof fn open_turns_reconcile(session: SessionView, report: ReportView, now: u64)
    requires
        reconciled(session),
    ensures
        reconciled(session.stepped(report, now).1),
{
    let after = session.stepped(report, now).1;
    match (session.phase, report) {
        (PhaseView::Probing, ReportView::Probed { .. }) => {
            assert(increments(after.run.ledger.live) =~= Seq::empty());
        },
        (PhaseView::Streaming, ReportView::Chunk(chunk)) => {
            let before = increments(session.run.ledger.live);
            assert(after.run.ledger.live.drop_last() =~= session.run.ledger.live);
            assert(before.push(chunk).drop_last() =~= before);
        },
        _ => {},
    }
}

/// When the provider call is over and it was not refused, however it ended,
/// the recorded response and the history hold the subscriber's own fold of
/// what was published.
pub proof fn recorded_turns_are_what_was_published(
    session: SessionView,
    report: ReportView,
    now: u64,
)
    requires
        reconciled(session),
        session.phase is Streaming || session.phase is Checking,
        !calling(session.stepped(report, now).1),
    ensures
        ({
            let after = session.stepped(report, now).1.run;
            let folded = assembler::finished_turn(
                assembler::assembled(increments(session.run.ledger.live)),
            );
            &&& latest_answer(after.ledger.log) == Some(failure::response_payload(folded))
            &&& after.messages == session.run.messages.push(folded.message)
        }),
{
    let after = session.stepped(report, now).1.run;
    let log = after.ledger.log;
    assert(log.last().kind is LlmResponse || (log.last().kind is RunFinished && log.len() > 1
        && log.drop_last().last().kind is LlmResponse));
    if !(log.last().kind is LlmResponse) {
        reveal_with_fuel(latest_answer, 2);
    }
}

} // verus!
