//! What the steps of a run record and say, in terms of what came in.
use crate::contract::approval::ApprovalView;
use crate::contract::context::InstructionFileView;
use crate::contract::error::ModelErrorView;
use crate::contract::event;
use crate::contract::event::{CommandView, EventErrorView, EventKindView, EventView, Status, TurnOutcome};
use crate::contract::live::LiveKindView;
use crate::contract::message::{MessageView, Role, ToolCallView};
use crate::contract::request::ChatRequestView;
use crate::contract::stream::StreamChunkView;
use crate::json;
use crate::json::ValueView;
use crate::pairs;
use crate::runtime::agent::dispatch;
use crate::runtime::agent::dispatch::{Batch, DispatchView, SlotView};
use crate::runtime::agent::failure;
use crate::runtime::agent::failure::AgentErrorView;
use crate::runtime::agent::fold;
use crate::runtime::agent::gate;
use crate::runtime::agent::gate::GateRun;
use crate::runtime::agent::growth;
use crate::runtime::agent::inbox;
use crate::runtime::agent::inbox::InboxView;
use crate::runtime::agent::ledger;
use crate::runtime::agent::ledger::{LedgerView, OutputView};
use crate::runtime::agent::outcome::ToolOutcomeView;
use crate::runtime::agent::run;
use crate::runtime::agent::run::{AgentLoopView, BoundaryView, RunView, TurnEndView};
use crate::runtime::assembler;
use crate::runtime::context;
use crate::runtime::history_laws;
use crate::runtime::trailer;
use crate::runtime::trailer::{GitStatusView, TrailerTime};
use crate::text;
use vstd::prelude::*;

verus! {

/// Whether `event` is the next event of the ledger: it has the next number as
/// its place and in its id, the next reading as its time, the ledger's trace,
/// and fails exactly where there is an error.
pub open spec fn is_next(
    ledger: LedgerView,
    event: EventView,
    span: Seq<char>,
    parent: Option<Seq<char>>,
    kind: EventKindView,
    error: Option<EventErrorView>,
) -> bool {
    &&& event.seq == ledger.numbers[0]
    &&& event.id == "e"@ + text::decimal(ledger.numbers[0] as nat)
    &&& event.trace_id == ledger.trace_id
    &&& event.time_unix_ms == ledger.times[0]
    &&& event.span_id == span
    &&& event.parent_span_id == parent
    &&& event.kind == kind
    &&& event.error == error
    &&& event.status == (if error is Some {
        Status::Error
    } else {
        Status::Success
    })
}

/// Whether `after` is `ledger` with one event more: appended to the log, and
/// first appended and then republished, in this order, among the outputs.
pub open spec fn gains(ledger: LedgerView, after: LedgerView, event: EventView) -> bool {
    &&& after.log == ledger.log.push(event)
    &&& after.live.len() == ledger.live.len() + 1
    &&& after.live.drop_last() == ledger.live
    &&& after.live.last().seq == event.seq
    &&& after.live.last().trace_id == event.trace_id
    &&& after.live.last().kind == (LiveKindView::Recorded { event })
    &&& after.outbox == ledger.outbox.push(OutputView::Append(event)).push(
        OutputView::Publish(after.live.last()),
    )
    &&& after.trace_id == ledger.trace_id
}

/// An event of a turn hangs off the run's root, on the span it is given, and
/// is marked with the turn; it takes one number and one reading.
pub proof fn turn_events_are_marked(
    ledger: LedgerView,
    span: Seq<char>,
    root: Seq<char>,
    turn: usize,
    kind: EventKindView,
    error: Option<EventErrorView>,
)
    requires
        ledger.numbers.len() > 0,
        ledger.times.len() > 0,
    ensures
        ({
            let after = ledger.turn_recorded(span, root, turn, kind, error);
            let event = after.log.last();
            &&& is_next(ledger, event, span, Some(root), kind, error)
            &&& gains(ledger, after, event)
            &&& event.attributes == seq![("selfevol.turn"@, json::unsigned_value(turn as u64))]
            &&& after.numbers == ledger.numbers.drop_first()
            &&& after.times == ledger.times.drop_first()
            &&& turn <= u32::MAX ==> event::turn_of(event) == Some(turn as u32)
        }),
{
    let after = ledger.turn_recorded(span, root, turn, kind, error);
    let event = after.log.last();
    assert(after.live.drop_last() =~= ledger.live);
    assert(pairs::put(
        Seq::<(Seq<char>, ValueView)>::empty(),
        "selfevol.turn"@,
        json::unsigned_value(turn as u64),
    ) =~= seq![("selfevol.turn"@, json::unsigned_value(turn as u64))]);
    assert(after.numbers =~= ledger.numbers.drop_first());
    assert(after.times =~= ledger.times.drop_first());
    assert(pairs::lookup(event.attributes, "selfevol.turn"@) == Some(
        json::unsigned_value(turn as u64),
    ));
}

/// A command is recorded as it came, on a span of its own that is named by the
/// number in front of the event's.
pub proof fn commands_are_recorded_as_they_came(
    ledger: LedgerView,
    command: CommandView,
    root: Seq<char>,
    turn: usize,
)
    requires
        ledger.numbers.len() > 1,
        ledger.times.len() > 0,
    ensures
        ({
            let after = ledger.command_recorded(command, root, turn);
            let event = after.log.last();
            &&& event.kind == EventKindView::Command(command)
            &&& event.span_id == "s"@ + text::decimal(ledger.numbers[0] as nat)
            &&& event.parent_span_id == Some(root)
            &&& event.seq == ledger.numbers[1]
            &&& event.error is None
            &&& gains(ledger, after, event)
            &&& turn <= u32::MAX ==> event::turn_of(event) == Some(turn as u32)
        }),
{
    let minted = ledger.minted();
    turn_events_are_marked(
        minted,
        "s"@ + text::decimal(ledger.numbers[0] as nat),
        root,
        turn,
        EventKindView::Command(command),
        None,
    );
    assert(minted.numbers[0] == ledger.numbers[1]);
}

/// The terminal record is the root's own event, without a parent and without a
/// turn, and tells the number of turns and the error.
pub proof fn runs_end_on_their_root(
    ledger: LedgerView,
    root: Seq<char>,
    turns: usize,
    error: Option<EventErrorView>,
)
    requires
        ledger.numbers.len() > 0,
        ledger.times.len() > 0,
        turns <= u32::MAX,
    ensures
        ({
            let after = ledger.finished(root, turns, error);
            let event = after.log.last();
            &&& is_next(
                ledger,
                event,
                root,
                None,
                EventKindView::RunFinished { turns: turns as u32 },
                error,
            )
            &&& gains(ledger, after, event)
            &&& event.attributes.len() == 0
        }),
{
    let after = ledger.finished(root, turns, error);
    assert(after.live.drop_last() =~= ledger.live);
}

/// What is only published takes a number of its own and leaves the log alone.
pub proof fn passing_items_are_only_published(ledger: LedgerView, kind: LiveKindView)
    requires
        ledger.numbers.len() > 0,
    ensures
        ({
            let after = ledger.published(kind);
            &&& after.log == ledger.log
            &&& after.live.drop_last() == ledger.live
            &&& after.live.last().kind == kind
            &&& after.live.last().seq == ledger.numbers[0]
            &&& after.live.last().trace_id == ledger.trace_id
            &&& after.outbox == ledger.outbox.push(OutputView::Publish(after.live.last()))
            &&& after.numbers == ledger.numbers.drop_first()
            &&& after.times == ledger.times
        }),
{
    let after = ledger.published(kind);
    assert(after.live.drop_last() =~= ledger.live);
    assert(after.numbers =~= ledger.numbers.drop_first());
}

/// A run opens with its request, in which the wired tools stand in for those of
/// the base where there are any, and with the prefix it keeps; the record
/// carries the run's own attributes and the prefix's hash.
pub proof fn runs_open_with_what_they_are_given(
    wiring: AgentLoopView,
    base: ChatRequestView,
    numbers: Seq<u64>,
    times: Seq<u64>,
    key: Seq<char>,
)
    requires
        numbers.len() >= 2,
        times.len() >= 1,
    ensures
        ({
            let begun = run::started(wiring, base, numbers, times);
            let event = begun.ledger.log[0];
            &&& begun.ledger.log.len() == 1
            &&& begun.messages == base.messages
            &&& begun.base.messages == base.messages
            &&& begun.base.max_output_tokens == base.max_output_tokens
            &&& begun.base.sampling == base.sampling
            &&& begun.base.tool_choice == base.tool_choice
            &&& begun.base.parallel_tools == base.parallel_tools
            &&& begun.base.output == base.output
            &&& begun.base.reasoning == base.reasoning
            &&& begun.base.cache == base.cache
            &&& begun.base.extra == base.extra
            &&& wiring.tools.len() == 0 ==> begun.base.tools == base.tools
            &&& wiring.tools.len() > 0 ==> begun.base.tools.len() == wiring.tools.len()
            &&& forall|i: int|
                0 <= i < wiring.tools.len() ==> begun.base.tools[i] == (
                #[trigger] wiring.tools[i]).spec
            &&& begun.turn == 0
            &&& begun.run_start_ms == times[0]
            &&& begun.todos.len() == 0 && begun.counts.len() == 0
            &&& begun.root == "s"@ + text::decimal(numbers[0] as nat)
            &&& event.span_id == begun.root
            &&& event.parent_span_id is None
            &&& event.seq == numbers[1]
            &&& event.time_unix_ms == times[0]
            &&& event.trace_id == wiring.trace_id
            &&& event.error is None && event.status == Status::Success
            &&& event.kind matches EventKindView::Command(
                CommandView::StartRun { base: opened, prefix: Some(record) },
            ) && opened == begun.base && record.system == wiring.prefix.text && record.hash
                == wiring.prefix.hash && record.instructions == wiring.prefix.instructions
            &&& pairs::lookup(event.attributes, key) == (if key == "selfevol.prefix_hash"@ {
                Some(ValueView::String(wiring.prefix.hash))
            } else {
                pairs::lookup(wiring.run_attributes, key)
            })
        }),
{
    pairs::lookup_after_put(
        wiring.run_attributes,
        "selfevol.prefix_hash"@,
        ValueView::String(wiring.prefix.hash),
        key,
    );
}

/// Applied steers speak as the user, each with its own text and in order, and
/// each is recorded.
pub proof fn steers_speak_as_the_user(
    run: RunView,
    steers: Seq<CommandView>,
    command_id: Seq<char>,
    said: Seq<char>,
    mode: crate::contract::event::SteerMode,
    turn: usize,
)
    ensures
        ({
            let steer = CommandView::Steer { command_id, text: said, mode };
            let before = run.steered(steers, turn);
            let after = run.steered(steers.push(steer), turn);
            &&& run.steered(Seq::empty(), turn) == run
            &&& after.messages == before.messages.push(history_laws::saying(Role::User, said))
            &&& after.ledger.log.drop_last() == before.ledger.log
            &&& after.ledger.log.last().kind == EventKindView::Command(steer)
            &&& after.todos == before.todos && after.counts == before.counts && after.inbox
                == before.inbox && after.turn == before.turn
        }),
{
    let steer = CommandView::Steer { command_id, text: said, mode };
    let before = run.steered(steers, turn);
    let after = run.steered(steers.push(steer), turn);
    assert(steers.push(steer).drop_last() =~= steers);
    assert(after.ledger.log.drop_last() =~= before.ledger.log);
}

/// A run crosses into its next turn unless its turns are used up or an
/// interrupt is pending: then it ends there, with the turns it has completed
/// and with the reason.
pub proof fn boundaries_open_or_end(run: RunView)
    requires
        run.turn < u32::MAX,
        run.wiring.max_turns <= u32::MAX,
    ensures
        ({
            let after = run.boundary_crossed();
            let last = after.ledger.log.last();
            &&& run.turn >= run.wiring.max_turns ==> {
                &&& run.boundary() == BoundaryView::Ended(
                    AgentErrorView::TurnLimit(run.wiring.max_turns),
                )
                &&& last.kind == (EventKindView::RunFinished {
                    turns: run.wiring.max_turns as u32,
                })
                &&& last.error is Some && last.error->0.kind == "turn_limit"@
                &&& last.error->0.message == "assistant turn limit ("@ + text::decimal(
                    run.wiring.max_turns as nat,
                ) + ") exceeded"@
            }
            &&& run.turn < run.wiring.max_turns && run.inbox.interrupt is Some ==> {
                &&& run.boundary() == BoundaryView::Ended(AgentErrorView::Interrupted)
                &&& after.inbox.interrupt is None
                &&& last.kind == (EventKindView::RunFinished { turns: run.turn as u32 })
                &&& last.error is Some && last.error->0.kind == "interrupted"@
                &&& after.ledger.log[after.ledger.log.len() - 2].kind == EventKindView::Command(
                    run.inbox.interrupt->0,
                )
            }
            &&& run.turn < run.wiring.max_turns && run.inbox.interrupt is None ==> {
                &&& run.boundary() is Open
                &&& after.turn == run.turn + 1
            }
            &&& run.boundary() is Open <==> run.turn < run.wiring.max_turns && run.inbox.interrupt
                is None
        }),
{
    if run.turn < run.wiring.max_turns && run.inbox.interrupt is None {
        let turn = (run.turn + 1) as usize;
        let next = RunView { turn, ..run };
        let rest = InboxView {
            steers: inbox::staying(run.inbox.steers, false),
            ..run.inbox
        };
        steering_keeps_the_turn(
            RunView { inbox: rest, ..next },
            inbox::applying(run.inbox.steers, false),
            turn,
        );
    }
}

proof fn steering_keeps_the_turn(run: RunView, steers: Seq<CommandView>, turn: usize)
    ensures
        run.steered(steers, turn).turn == run.turn,
        run.steered(steers, turn).inbox == run.inbox,
    decreases steers.len(),
{
    if steers.len() > 0 {
        steering_keeps_the_turn(run, steers.drop_last(), turn);
    }
}

/// A request says what the run says: every message of the history that was not
/// folded goes out as it is, and all but the messages is as the run started
/// with.
pub proof fn requests_say_what_was_said(
    run: RunView,
    git: Option<GitStatusView>,
    offset_minutes: i32,
    i: int,
)
    requires
        0 <= i < run.messages.len(),
        forall|k: int|
            0 <= k < run.fold.folded.len() ==> (#[trigger] run.fold.folded[k]).msg_index != i,
    ensures
        ({
            let request = run.request(git, offset_minutes);
            &&& request.messages[i + 1] == run.messages[i]
            &&& request.messages[0] == history_laws::saying(Role::System, run.wiring.prefix.text)
            &&& request.messages.last() == history_laws::saying(
                Role::User,
                run.trailer(git, offset_minutes),
            )
            &&& request.messages.len() == run.messages.len() + 2
            &&& request.tools == run.base.tools
            &&& request.tool_choice == run.base.tool_choice
            &&& request.max_output_tokens == run.base.max_output_tokens
            &&& request.sampling == run.base.sampling
            &&& request.reasoning == run.base.reasoning
            &&& request.output == run.base.output
            &&& request.parallel_tools == run.base.parallel_tools
            &&& request.cache == run.base.cache
            &&& request.extra == run.base.extra
        }),
{
    unfolded(run.fold.folded, i);
}

proof fn unfolded(folded: Seq<fold::FoldedMessageView>, i: int)
    requires
        forall|k: int| 0 <= k < folded.len() ==> (#[trigger] folded[k]).msg_index != i,
    ensures
        fold::stand_in(folded, i) is None,
    decreases folded.len(),
{
    if folded.len() > 0 {
        let before = folded.drop_last();
        assert(folded[folded.len() - 1] == folded.last());
        assert forall|k: int| 0 <= k < before.len() implies (#[trigger] before[k]).msg_index
            != i by {
            assert(before[k] == folded[k]);
        }
        unfolded(before, i);
    }
}

/// Before a request goes out it is recorded with the trailer it carries, the
/// assembler starts afresh, and nothing is being stopped.
pub proof fn requests_are_recorded_with_their_trailer(
    run: RunView,
    git: Option<GitStatusView>,
    offset_minutes: i32,
)
    ensures
        ({
            let after = run.requested(git, offset_minutes);
            let event = after.ledger.log.last();
            &&& after.ledger.log.drop_last() == run.ledger.log
            &&& event.kind == (EventKindView::LlmRequest {
                trailer: Some(run.trailer(git, offset_minutes)),
            })
            &&& event.error is None
            &&& event.span_id == run.turn_span
            &&& event.parent_span_id == Some(run.root)
            &&& run.turn <= u32::MAX ==> event::turn_of(event) == Some(run.turn as u32)
            &&& after.messages == run.messages
            &&& after.stopping is None
            &&& after.assembler == assembler::assembled(Seq::empty())
        }),
{
    let after = run.requested(git, offset_minutes);
    assert(after.ledger.log.drop_last() =~= run.ledger.log);
    if run.turn <= u32::MAX {
        marks_are_read_back(after.ledger.log.last(), run.turn);
    }
}

/// A chunk is published with its turn as it came, and assembled onto what came
/// before it.
pub proof fn chunks_are_published_and_assembled(
    run: RunView,
    chunks: Seq<StreamChunkView>,
    chunk: StreamChunkView,
)
    requires
        run.assembler == assembler::assembled(chunks),
        run.turn <= u32::MAX,
    ensures
        ({
            let after = run.chunk_pushed(chunk);
            &&& after.assembler == assembler::assembled(chunks.push(chunk))
            &&& after.ledger.live.last().kind == (LiveKindView::AssistantDelta {
                turn: run.turn as u32,
                chunk,
            })
            &&& after.ledger.log == run.ledger.log
            &&& after.messages == run.messages
        }),
{
    assert(chunks.push(chunk).drop_last() =~= chunks);
}

/// Whether a turn's end is recorded: the response with all that was assembled,
/// on the turn's span.
pub open spec fn records_the_turn(
    run: RunView,
    event: EventView,
    error: Option<EventErrorView>,
) -> bool {
    let turn = assembler::finished_turn(run.assembler);
    &&& event.kind == (EventKindView::LlmResponse {
        message: turn.message,
        usage: turn.usage,
        finish: turn.finish,
        outcome: turn.outcome,
        warnings: turn.warnings,
    })
    &&& event.error == error
    &&& event.span_id == run.turn_span
    &&& event.parent_span_id == Some(run.root)
    &&& event::turn_of(event) == Some(run.turn as u32)
}

/// The end of a stream records the turn as far as it came, as an answer of the
/// history too. A break, an interrupt and an empty turn end the run, with one
/// and the same error on the turn and on the terminal record and with the turns
/// completed before; else the run goes on with the calls of the message, and
/// the reported input is what the next request is estimated by.
pub proof fn streams_end_in_a_recorded_turn(run: RunView, error: Option<ModelErrorView>)
    requires
        1 <= run.turn <= u32::MAX,
    ensures
        ({
            let turn = assembler::finished_turn(run.assembler);
            let after = run.stream_closed(error);
            let log = after.ledger.log;
            let n = log.len();
            &&& after.messages == run.messages.push(turn.message)
            &&& error is None && run.stopping is None && turn.outcome != TurnOutcome::Empty ==> {
                &&& n == run.ledger.log.len() + 1
                &&& records_the_turn(run, log[n - 1], None)
                &&& turn.usage matches Some(usage) ==> after.fold.last_input == Some(usage.input)
                &&& turn.usage is None ==> after.fold.last_input == run.fold.last_input
                &&& run.turn_end(error) matches TurnEndView::Done { turn: done, calls } && done
                    == turn && calls == crate::contract::message::calls_in(turn.message.content)
            }
            &&& error is Some || run.stopping is Some || turn.outcome == TurnOutcome::Empty ==> {
                &&& log[n - 1].kind == (EventKindView::RunFinished {
                    turns: (run.turn - 1) as u32,
                })
                &&& log[n - 1].error is Some
                &&& records_the_turn(run, log[n - 2], log[n - 1].error)
                &&& run.turn_end(error) is Failed
            }
            &&& error matches Some(broke) ==> {
                &&& log[n - 1].error == Some(failure::model_detail(broke))
                &&& run.turn_end(error) == TurnEndView::Failed(AgentErrorView::Provider(broke))
            }
            &&& error is None && run.stopping is Some ==> {
                &&& log[n - 1].error is Some && log[n - 1].error->0.kind == "interrupted"@
                &&& log[n - 3].kind == EventKindView::Command(run.stopping->0)
                &&& run.turn_end(error) == TurnEndView::Failed(AgentErrorView::Interrupted)
            }
            &&& error is None && run.stopping is None && turn.outcome == TurnOutcome::Empty ==> {
                &&& log[n - 1].error is Some && log[n - 1].error->0.kind == "empty_turn"@
                &&& run.turn_end(error) == TurnEndView::Failed(
                    AgentErrorView::EmptyTurn { finish: turn.finish },
                )
            }
        }),
{
    let after = run.stream_closed(error).ledger.log;
    let n = after.len();
    let turn = assembler::finished_turn(run.assembler);
    if error is None && run.stopping is None && turn.outcome != TurnOutcome::Empty {
        marks_are_read_back(after[n - 1], run.turn);
    } else {
        marks_are_read_back(after[n - 2], run.turn);
    }
}

/// The turn that an event is marked with and no other attribute is read back.
proof fn marks_are_read_back(marked: EventView, turn: usize)
    requires
        marked.attributes == pairs::put(
            Seq::<(Seq<char>, ValueView)>::empty(),
            "selfevol.turn"@,
            json::unsigned_value(turn as u64),
        ),
        turn <= u32::MAX,
    ensures
        event::turn_of(marked) == Some(turn as u32),
{
    pairs::lookup_after_put(
        Seq::<(Seq<char>, ValueView)>::empty(),
        "selfevol.turn"@,
        json::unsigned_value(turn as u64),
        "selfevol.turn"@,
    );
}

/// A provider that refuses the call ends the run with its error and the turns
/// completed before; nothing is said.
pub proof fn refusals_end_the_run(run: RunView, error: ModelErrorView)
    requires
        1 <= run.turn <= u32::MAX,
    ensures
        ({
            let after = run.refused(error);
            let last = after.ledger.log.last();
            &&& after.ledger.log.drop_last() == run.ledger.log
            &&& last.kind == (EventKindView::RunFinished { turns: (run.turn - 1) as u32 })
            &&& last.error == Some(failure::model_detail(error))
            &&& after.messages == run.messages
        }),
{
    assert(run.refused(error).ledger.log.drop_last() =~= run.ledger.log);
}

/// At its finish line a run goes on exactly where a steer waits and no interrupt
/// is pending; else it ends in success with the turns it took.
pub proof fn finish_lines_end_in_success(run: RunView)
    requires
        run.turn < u32::MAX,
        inbox::tidy(run.inbox),
    ensures
        run.goes_on() <==> run.inbox.interrupt is None && run.inbox.steers.len() > 0,
        !run.goes_on() ==> {
            let after = run.finish_line_crossed();
            let last = after.ledger.log.last();
            &&& last.kind == (EventKindView::RunFinished { turns: run.turn as u32 })
            &&& last.error is None
            &&& last.status == Status::Success
            &&& after.messages == run.messages
        },
{
    let steers = run.inbox.steers;
    crate::runtime::agent::inbox_laws::finish_lines_take_every_steer(steers);
    if !run.goes_on() && run.inbox.interrupt is None {
        assert(steers =~= Seq::empty());
    }
}

/// Injected files speak as the user, one message each and in order, and each is
/// recorded with its path and content.
pub proof fn injections_speak_as_the_user(
    run: RunView,
    files: Seq<InstructionFileView>,
    file: InstructionFileView,
)
    ensures
        run.injected(Seq::empty()) == run,
        ({
            let before = run.injected(files);
            let after = run.injected(files.push(file));
            &&& after.messages == before.messages.push(
                history_laws::saying(Role::User, context::injected_text(file.path, file.content)),
            )
            &&& after.ledger.log.drop_last() == before.ledger.log
            &&& after.ledger.log.last().kind == (EventKindView::InstructionInjected {
                path: file.path,
                content: file.content,
            })
            &&& run.turn <= u32::MAX ==> event::turn_of(after.ledger.log.last()) == Some(
                run.turn as u32,
            )
        }),
{
    let before = run.injected(files);
    let after = run.injected(files.push(file));
    assert(files.push(file).drop_last() =~= files);
    assert(after.ledger.log.drop_last() =~= before.ledger.log);
    injecting_keeps_the_turn(run, files);
    if run.turn <= u32::MAX {
        marks_are_read_back(after.ledger.log.last(), run.turn);
    }
}

proof fn injecting_keeps_the_turn(run: RunView, files: Seq<InstructionFileView>)
    ensures
        run.injected(files).turn == run.turn,
        run.injected(files).root == run.root,
    decreases files.len(),
{
    if files.len() > 0 {
        injecting_keeps_the_turn(run, files.drop_last());
    }
}

/// The start of a call is recorded on a span of its own, with the whole call.
pub proof fn call_starts_are_recorded(run: RunView, call: ToolCallView)
    ensures
        ({
            let after = run.call_started(call);
            let event = after.ledger.log.last();
            &&& after.ledger.log.drop_last() == run.ledger.log
            &&& event.kind == (EventKindView::ToolCall { call })
            &&& event.span_id == "s"@ + text::decimal(run.ledger.numbers[0] as nat)
            &&& event.parent_span_id == Some(run.root)
            &&& event.error is None
            &&& run.turn <= u32::MAX ==> event::turn_of(event) == Some(run.turn as u32)
            &&& after.messages == run.messages
        }),
{
    assert(run.call_started(call).ledger.log.drop_last() =~= run.ledger.log);
    if run.turn <= u32::MAX {
        marks_are_read_back(run.call_started(call).ledger.log.last(), run.turn);
    }
}

/// What the given steers say, each as the user.
pub open spec fn spoken(steers: Seq<CommandView>) -> Seq<MessageView>
    decreases steers.len(),
{
    if steers.len() == 0 {
        Seq::empty()
    } else {
        match steers.last() {
            CommandView::Steer { text, .. } => spoken(steers.drop_last()).push(
                history_laws::saying(Role::User, text),
            ),
            _ => spoken(steers.drop_last()),
        }
    }
}

proof fn steering_speaks(run: RunView, steers: Seq<CommandView>, turn: usize)
    ensures
        run.steered(steers, turn).messages == run.messages + spoken(steers),
    decreases steers.len(),
{
    if steers.len() == 0 {
        assert(run.messages + spoken(steers) =~= run.messages);
    } else {
        steering_speaks(run, steers.drop_last(), turn);
        assert(run.steered(steers, turn).messages =~= run.messages + spoken(steers));
    }
}

/// At an open boundary the steers to inject are said, in order, and are no
/// longer waiting; the queued ones wait on. Where a run would finish, all that
/// wait are said, and the run goes on without a terminal record.
pub proof fn steers_take_effect_in_their_place(run: RunView)
    ensures
        run.turn < run.wiring.max_turns && run.inbox.interrupt is None ==> {
            let after = run.boundary_crossed();
            &&& after.messages == run.messages + spoken(inbox::applying(run.inbox.steers, false))
            &&& after.inbox.steers == inbox::staying(run.inbox.steers, false)
            &&& after.inbox.resolves == run.inbox.resolves
        },
        run.goes_on() ==> {
            let after = run.finish_line_crossed();
            &&& after.messages == run.messages + spoken(run.inbox.steers)
            &&& after.inbox.steers.len() == 0
            &&& after.turn == run.turn
        },
{
    let steers = run.inbox.steers;
    if run.turn < run.wiring.max_turns && run.inbox.interrupt is None {
        let turn = (run.turn + 1) as usize;
        let rest = InboxView { steers: inbox::staying(steers, false), ..run.inbox };
        let from = RunView { inbox: rest, turn, ..run };
        steering_speaks(from, inbox::applying(steers, false), turn);
        steering_keeps_the_turn(from, inbox::applying(steers, false), turn);
    }
    if run.goes_on() {
        let turn = (run.turn + 1) as usize;
        crate::runtime::agent::inbox_laws::finish_lines_take_every_steer(steers);
        let looked = RunView { inbox: InboxView { interrupt: None, ..run.inbox }, ..run };
        let rest = InboxView { steers: inbox::staying(steers, true), ..looked.inbox };
        let from = RunView { inbox: rest, ..looked };
        steering_speaks(from, steers, turn);
        steering_keeps_the_turn(from, steers, turn);
    }
}

/// An interrupted dispatch records the interrupt and ends the run as
/// interrupted, with the turn it was in.
pub proof fn interrupted_dispatches_end_the_run(batch: Batch, now: u64)
    requires
        batch.next(now) is Interrupted,
        batch.admission(now).batch.settled().run.turn <= u32::MAX,
    ensures
        ({
            let settled = batch.admission(now).batch.settled();
            let log = batch.advanced(now).run.ledger.log;
            let n = log.len();
            &&& n == settled.run.ledger.log.len() + 2
            &&& log[n - 2].kind == EventKindView::Command(settled.d.interrupt->0)
            &&& log[n - 1].kind == (EventKindView::RunFinished { turns: settled.run.turn as u32 })
            &&& log[n - 1].error is Some && log[n - 1].error->0.kind == "interrupted"@
        }),
{
}

/// Every trailer tells the run's own facts: its working directory, its start,
/// its counters and its todo list, with the repository and the clock as probed.
pub proof fn trailers_tell_the_run(run: RunView, git: Option<GitStatusView>, offset_minutes: i32)
    ensures
        run.trailer(git, offset_minutes) == trailer::trailer_text(
            run.wiring.cwd,
            git,
            Some(
                TrailerTime {
                    now_ms: run.ledger.times[0],
                    run_start_ms: run.run_start_ms,
                    offset_seconds: trailer::clock_offset(offset_minutes),
                },
            ),
            run.counts,
            run.todos,
        ),
{
}

/// Numbers are accepted exactly where they carry on the ascending numbers at
/// hand, and are then drawn behind those; readings are replaced by fresh ones,
/// and nothing that was recorded changes.
pub proof fn supplies_carry_on(ledger: LedgerView, numbers: Seq<u64>, times: Seq<u64>)
    requires
        ledger::ascending(ledger.numbers, ledger.floor),
    ensures
        ledger.follows(numbers) <==> ledger::ascending(ledger.numbers + numbers, ledger.floor),
        ({
            let after = ledger.supplied(numbers, times);
            &&& after.numbers == ledger.numbers + numbers
            &&& after.times == times
            &&& after.log == ledger.log && after.live == ledger.live && after.outbox
                == ledger.outbox && after.floor == ledger.floor && after.trace_id
                == ledger.trace_id
        }),
{
    let all = ledger.numbers + numbers;
    let own = ledger.numbers.len() as int;
    if ledger.follows(numbers) {
        assert forall|i: int, j: int| 0 <= i < j < all.len() implies (#[trigger] all[i]) < (
        #[trigger] all[j]) by {
            if i < own {
                assert(all[i] == ledger.numbers[i]);
                if j < own {
                    assert(all[j] == ledger.numbers[j]);
                } else {
                    assert(all[j] == numbers[j - own]);
                    assert(ledger.numbers[i] <= ledger.numbers[own - 1]);
                }
            } else {
                assert(all[i] == numbers[i - own]);
                assert(all[j] == numbers[j - own]);
            }
        }
        assert forall|i: int| 0 <= i < all.len() implies ledger.floor <= #[trigger] all[i] by {
            if i < own {
                assert(all[i] == ledger.numbers[i]);
            } else {
                assert(all[i] == numbers[i - own]);
                if own > 0 {
                    assert(ledger.floor <= ledger.numbers[own - 1]);
                }
            }
        }
    }
    if ledger::ascending(all, ledger.floor) {
        assert forall|i: int, j: int| 0 <= i < j < numbers.len() implies (
        #[trigger] numbers[i]) < (#[trigger] numbers[j]) by {
            assert(all[own + i] == numbers[i]);
            assert(all[own + j] == numbers[j]);
        }
        assert forall|i: int| 0 <= i < numbers.len() implies (if own > 0 {
            (ledger.numbers.last() + 1) as nat
        } else {
            ledger.floor
        }) <= #[trigger] numbers[i] by {
            assert(all[own + i] == numbers[i]);
            if own > 0 {
                assert(all[own - 1] == ledger.numbers[own - 1]);
            }
        }
    }
}

/// A turn is shown as its number, and as the largest number that can be shown
/// where it is beyond that.
pub proof fn turns_are_shown_as_numbers(turn: usize)
    ensures
        turn <= u32::MAX ==> ledger::shown_turn(turn) == turn,
        turn > u32::MAX ==> ledger::shown_turn(turn) == u32::MAX,
{
}

/// Between two chunks a pending interrupt is taken out of the inbox and stops
/// the stream; without one nothing is stopped.
pub proof fn interrupts_stop_the_stream(run: RunView)
    ensures
        ({
            let after = run.interrupt_checked();
            &&& after.stopping == run.inbox.interrupt
            &&& after.inbox.interrupt is None
            &&& after.inbox.steers == run.inbox.steers && after.inbox.resolves
                == run.inbox.resolves
            &&& after.messages == run.messages && after.ledger == run.ledger && after.assembler
                == run.assembler
        }),
{
}

proof fn steering_marks(run: RunView, steers: Seq<CommandView>, turn: usize, k: int)
    requires
        turn <= u32::MAX,
        run.ledger.log.len() <= k < run.steered(steers, turn).ledger.log.len(),
    ensures
        event::turn_of(run.steered(steers, turn).ledger.log[k]) == Some(turn as u32),
        run.steered(steers, turn).ledger.log[k].parent_span_id == Some(run.root),
    decreases steers.len(),
{
    if steers.len() > 0 {
        let before = run.steered(steers.drop_last(), turn);
        let after = run.steered(steers, turn);
        steering_keeps_the_root(run, steers.drop_last(), turn);
        if k < before.ledger.log.len() {
            steering_marks(run, steers.drop_last(), turn, k);
            assert(after.ledger.log[k] == before.ledger.log[k]);
        } else {
            marks_are_read_back(after.ledger.log[k], turn);
        }
    }
}

proof fn steering_keeps_the_root(run: RunView, steers: Seq<CommandView>, turn: usize)
    ensures
        run.steered(steers, turn).root == run.root,
    decreases steers.len(),
{
    if steers.len() > 0 {
        steering_keeps_the_root(run, steers.drop_last(), turn);
    }
}

/// Steers are recorded under the turn that they take effect in, which is the
/// next one, at a boundary and at the finish line alike; the new turn has a span
/// of its own.
pub proof fn steers_are_recorded_under_the_next_turn(run: RunView, k: int)
    requires
        run.turn < u32::MAX,
    ensures
        run.turn < run.wiring.max_turns && run.inbox.interrupt is None && run.ledger.log.len() <= k
            < run.boundary_crossed().ledger.log.len() ==> event::turn_of(
            run.boundary_crossed().ledger.log[k],
        ) == Some((run.turn + 1) as u32),
        run.turn < run.wiring.max_turns && run.inbox.interrupt is None ==> {
            let after = run.boundary_crossed();
            after.turn_span == "s"@ + text::decimal((after.ledger.floor - 1) as nat)
        },
        run.goes_on() && run.ledger.log.len() <= k < run.finish_line_crossed().ledger.log.len()
            ==> event::turn_of(run.finish_line_crossed().ledger.log[k]) == Some(
            (run.turn + 1) as u32,
        ),
{
    let steers = run.inbox.steers;
    let turn = (run.turn + 1) as usize;
    if run.turn < run.wiring.max_turns && run.inbox.interrupt is None {
        let rest = InboxView { steers: inbox::staying(steers, false), ..run.inbox };
        let from = RunView { inbox: rest, turn, ..run };
        if run.ledger.log.len() <= k < run.boundary_crossed().ledger.log.len() {
            steering_marks(from, inbox::applying(steers, false), turn, k);
        }
    }
    if run.goes_on() {
        let looked = RunView { inbox: InboxView { interrupt: None, ..run.inbox }, ..run };
        let rest = InboxView { steers: inbox::staying(steers, true), ..looked.inbox };
        let from = RunView { inbox: rest, ..looked };
        if run.ledger.log.len() <= k < run.finish_line_crossed().ledger.log.len() {
            steering_marks(from, inbox::applying(steers, true), turn, k);
        }
    }
}

/// A call's start and its result are recorded on one span: the span of the start
/// stays with the call until it is done, and the result is recorded on it.
pub proof fn calls_keep_their_span(
    batch: Batch,
    p: int,
    decision: ApprovalView,
    outcome: ToolOutcomeView,
)
    requires
        0 <= p < batch.d.slots.len(),
        batch.d.slots.len() == batch.d.calls.len(),
    ensures
        ({
            let after = batch.admitted(p, decision);
            let span = after.run.ledger.log.last().span_id;
            &&& after.run.ledger.log.last().kind == (EventKindView::ToolCall {
                call: batch.d.calls[p],
            })
            &&& decision is Approved ==> after.d.slots[p] == (SlotView::Running { span })
            &&& decision is Rejected ==> after.d.slots[p] is Done && after.d.slots[p]->Done_span
                == span && after.d.completed == batch.d.completed.push(p as usize)
            &&& decision is Approved ==> after.d.completed == batch.d.completed
        }),
        batch.d.slots[p] matches SlotView::Running { span } ==> batch.completed(p, outcome).slots[p]
            == (SlotView::Done { span, outcome }),
{
}

/// The result of the next call in order is recorded next, on the call's own
/// span and under its own id.
pub proof fn results_are_recorded_on_the_span_of_the_call(
    batch: Batch,
    span: Seq<char>,
    outcome: ToolOutcomeView,
)
    requires
        batch.d.flushed < batch.d.calls.len(),
        batch.d.slots[batch.d.flushed as int] == (SlotView::Done { span, outcome }),
    ensures
        ({
            let before = batch.run.ledger.log;
            let log = batch.flushed().run.ledger.log;
            let event = log[before.len() as int];
            &&& before.len() < log.len()
            &&& event.kind == (EventKindView::ToolResult {
                call_id: batch.d.calls[batch.d.flushed as int].id,
                result: outcome.result,
            })
            &&& event.span_id == span
            &&& event.error == outcome.error
        }),
{
    let next = batch.recorded(span, outcome);
    let at = batch.run.ledger.log.len() as int;
    growth::flushing_carries_on(next);
    let log = next.flushed().run.ledger.log;
    assert(next.run.ledger.log == log.subrange(0, next.run.ledger.log.len() as int));
    assert(log[at] == next.run.ledger.log[at]);
}

/// A batch is asked about, drained and closed under the run's own root and turn.
pub proof fn approvals_belong_to_their_turn(
    run: RunView,
    calls: Seq<ToolCallView>,
    d: DispatchView,
    timed_out: bool,
    now: u64,
)
    ensures
        ({
            let opened = dispatch::opened(run, calls, now);
            let asked = gate::opened(run.wiring.tools, calls, run.turn, now, run.ledger);
            opened.d.gate == asked.0 && opened.run.ledger == asked.1
        }),
        ({
            let drained = (Batch { run, d }).drained(now);
            let after = gate::drained(
                GateRun { gate: d.gate, inbox: run.inbox, ledger: run.ledger },
                run.root,
                run.turn,
                now,
            );
            &&& drained.d.gate == after.gate
            &&& drained.run.ledger == after.ledger
            &&& drained.run.inbox == after.inbox
            &&& drained.d.slots == d.slots && drained.d.calls == d.calls
        }),
        run.gate_denied(d.gate, timed_out).ledger == gate::denied_unanswered(
            d.gate,
            run.ledger,
            timed_out,
            run.root,
            run.turn,
        ).1,
{
}

} // verus!
