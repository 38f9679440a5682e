//! What a whole successful run comes to.
use crate::contract::event::{CommandView, EventKindView, Status};
use crate::contract::message;
use crate::contract::request::ChatRequestView;
use crate::runtime::agent::ending;
use crate::runtime::agent::growth;
use crate::runtime::agent::inbox;
use crate::runtime::agent::inbox::InboxView;
use crate::runtime::agent::ledger;
use crate::runtime::agent::ledger::LedgerView;
use crate::runtime::agent::run;
use crate::runtime::agent::run::{AgentLoopView, RunView};
use crate::runtime::agent::session::{PhaseView, ReportView, SessionView};
use crate::runtime::trajectory;
use vstd::prelude::*;

verus! {

/// What a session is given on its way.
#[verifier::ext_equal]
pub enum Input {
    /// Numbers and readings.
    Supply { numbers: Seq<u64>, times: Seq<u64> },
    /// A received command.
    Note(CommandView),
    /// The outputs are taken.
    Take,
    /// A report, at an instant.
    Step { report: ReportView, now: u64 },
}

/// The session after one input.
pub open spec fn given(session: SessionView, input: Input) -> SessionView {
    match input {
        Input::Supply { numbers, times } => session.supplied(numbers, times),
        Input::Note(command) => SessionView { run: session.run.noted(command), ..session },
        Input::Take => SessionView {
            run: RunView {
                ledger: LedgerView { outbox: Seq::empty(), ..session.run.ledger },
                ..session.run
            },
            ..session
        },
        Input::Step { report, now } => session.stepped(report, now).1,
    }
}

/// The session after all the inputs, in order.
pub open spec fn led(session: SessionView, inputs: Seq<Input>) -> SessionView
    decreases inputs.len(),
{
    if inputs.len() == 0 {
        session
    } else {
        given(led(session, inputs.drop_last()), inputs.last())
    }
}

/// Whether a turn is under way: from its boundary to the word on its calls.
pub open spec fn in_turn(phase: PhaseView) -> bool {
    match phase {
        PhaseView::Folding(_)
        | PhaseView::Probing
        | PhaseView::Calling
        | PhaseView::Streaming
        | PhaseView::Checking
        | PhaseView::Tracking { .. } => true,
        _ => false,
    }
}

/// What holds of every run from `base` on its way: it has no ending before it
/// is closed, it is within its limit, it carries the base's messages on, and
/// the turn it looks at is one of its own.
pub open spec fn on_course(session: SessionView, wiring: AgentLoopView, base: ChatRequestView) -> bool {
    &&& session.run.wiring == wiring
    &&& session.run.turn <= wiring.max_turns
    &&& base.messages.is_prefix_of(session.run.messages)
    &&& !(session.phase is Closed) ==> ending::unfinished(session.run.ledger.log)
    &&& in_turn(session.phase) ==> session.run.turn >= 1
    &&& session.phase matches PhaseView::Tracking { turn, calls } ==> calls == message::calls_in(
        turn.message.content,
    )
}

proof fn boundaries_open_turns(run: RunView)
    requires
        run.turn < run.wiring.max_turns,
        run.inbox.interrupt is None,
    ensures
        run.boundary_crossed().turn >= 1,
{
    let turn = (run.turn + 1) as usize;
    let rest = InboxView { steers: inbox::staying(run.inbox.steers, false), ..run.inbox };
    let from = RunView { turn, inbox: rest, ..run };
    growth::steering_carries_on(from, inbox::applying(run.inbox.steers, false), turn);
}

proof fn inputs_keep_the_course(
    session: SessionView,
    wiring: AgentLoopView,
    base: ChatRequestView,
    input: Input,
)
    requires
        on_course(session, wiring, base),
    ensures
        on_course(given(session, input), wiring, base),
{
    if let Input::Step { report, now } = input {
        let after = session.stepped(report, now).1;
        growth::steps_only_add(session, report, now);
        growth::prefixes_chain(base.messages, session.run.messages, after.run.messages);
        if !(session.phase is Closed) {
            ending::runs_end_with_one_terminal_record(session, report, now);
        }
        if session.phase is Boundary && session.run.turn < wiring.max_turns
            && session.run.inbox.interrupt is None {
            boundaries_open_turns(session.run);
        }
    }
}

proof fn runs_keep_the_course(
    wiring: AgentLoopView,
    base: ChatRequestView,
    numbers: Seq<u64>,
    times: Seq<u64>,
    inputs: Seq<Input>,
)
    ensures
        on_course(
            led(
                SessionView::at(run::started(wiring, base, numbers, times), PhaseView::Boundary),
                inputs,
            ),
            wiring,
            base,
        ),
    decreases inputs.len(),
{
    let start = SessionView::at(run::started(wiring, base, numbers, times), PhaseView::Boundary);
    if inputs.len() == 0 {
        assert(base.messages =~= base.messages.subrange(0, base.messages.len() as int));
        ending::started_runs_are_unfinished(wiring, base, numbers, times);
    } else {
        runs_keep_the_course(wiring, base, numbers, times, inputs.drop_last());
        inputs_keep_the_course(led(start, inputs.drop_last()), wiring, base, inputs.last());
    }
}

/// The whole of a successful run: whatever a session was given on its way from
/// `base`, when it finishes (sound, as every step leaves it), replaying its log gives the outcome's messages,
/// these carry the base's messages on, the final turn has no calls, the turns
/// lie between one and the limit, and the log ends with its one terminal
/// record, a clean one that counts those turns.
pub proof fn successful_runs(
    wiring: AgentLoopView,
    base: ChatRequestView,
    numbers: Seq<u64>,
    times: Seq<u64>,
    inputs: Seq<Input>,
    report: ReportView,
    now: u64,
)
    requires
        ({
            let start = SessionView::at(
                run::started(wiring, base, numbers, times),
                PhaseView::Boundary,
            );
            let (action, after) = led(start, inputs).stepped(report, now);
            after.run.sound() && action is Finish
        }),
    ensures
        ({
            let start = SessionView::at(
                run::started(wiring, base, numbers, times),
                PhaseView::Boundary,
            );
            let (action, after) = led(start, inputs).stepped(report, now);
            let outcome = action->Finish_0;
            let log = after.run.ledger.log;
            &&& trajectory::replayed(log).messages == outcome.messages
            &&& base.messages.is_prefix_of(outcome.messages)
            &&& message::calls_in(outcome.final_turn.message.content).len() == 0
            &&& 1 <= outcome.turns <= wiring.max_turns
            &&& ending::finished_once(log)
            &&& log.last().kind == (EventKindView::RunFinished {
                turns: ledger::shown_turn(outcome.turns),
            })
            &&& log.last().status == Status::Success
            &&& log.last().error is None
        }),
{
    let start = SessionView::at(run::started(wiring, base, numbers, times), PhaseView::Boundary);
    let session = led(start, inputs);
    runs_keep_the_course(wiring, base, numbers, times, inputs);
    inputs_keep_the_course(session, wiring, base, Input::Step { report, now });
    ending::runs_end_with_one_terminal_record(session, report, now);
}

} // verus!
