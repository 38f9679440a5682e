//! What becomes of received commands, in terms of their kinds and ids.
use crate::contract::event;
use crate::contract::event::{CommandView, SteerMode};
use crate::runtime::agent::inbox;
use crate::runtime::agent::inbox::InboxView;
use vstd::prelude::*;

verus! {

/// A command that was not received before waits behind those of its kind, and
/// its id is remembered; the other kinds are left alone. A start of a run in
/// mid-run is dropped.
pub proof fn commands_wait_in_order_of_receipt(inbox: InboxView, command: CommandView)
    requires
        event::id_of(command) matches Some(id) ==> !inbox.seen.contains(id),
    ensures
        ({
            let after = inbox::noted(inbox, command);
            &&& command is Steer ==> after.steers == inbox.steers.push(command) && after.resolves
                == inbox.resolves && after.interrupt == inbox.interrupt
            &&& command is ResolveApproval || command is ResolveApprovalCall ==> after.resolves
                == inbox.resolves.push(command) && after.steers == inbox.steers
                && after.interrupt == inbox.interrupt
            &&& command is Interrupt ==> after.steers == inbox.steers && after.resolves
                == inbox.resolves && after.interrupt == (match inbox.interrupt {
                Some(first) => Some(first),
                None => Some(command),
            })
            &&& command is StartRun ==> after == inbox
            &&& forall|id: Seq<char>|
                #[trigger] after.seen.contains(id) <==> inbox.seen.contains(id) || event::id_of(
                    command,
                ) == Some(id)
        }),
{
}

/// Every command but a start has the id that its client gave it.
pub proof fn commands_are_known_by_their_id(command: CommandView)
    ensures
        match command {
            CommandView::StartRun { .. } => event::id_of(command) is None,
            CommandView::ResolveApproval { command_id, .. } => event::id_of(command) == Some(
                command_id,
            ),
            CommandView::ResolveApprovalCall { command_id, .. } => event::id_of(command) == Some(
                command_id,
            ),
            CommandView::Steer { command_id, .. } => event::id_of(command) == Some(command_id),
            CommandView::Interrupt { command_id } => event::id_of(command) == Some(command_id),
        },
{
}

/// Steers are taken one by one and in order: of two rows those of the one and
/// then those of the other. At a boundary a steer to inject is taken and a
/// queued one stays; where the run would finish, every steer is taken.
pub proof fn steers_are_taken_one_by_one(
    a: Seq<CommandView>,
    b: Seq<CommandView>,
    command_id: Seq<char>,
    said: Seq<char>,
    mode: SteerMode,
    at_finish: bool,
)
    ensures
        inbox::applying(a + b, at_finish) == inbox::applying(a, at_finish) + inbox::applying(
            b,
            at_finish,
        ),
        inbox::staying(a + b, at_finish) == inbox::staying(a, at_finish) + inbox::staying(
            b,
            at_finish,
        ),
        ({
            let steer = CommandView::Steer { command_id, text: said, mode };
            let taken = inbox::applying(seq![steer], at_finish);
            let left = inbox::staying(seq![steer], at_finish);
            &&& at_finish || mode == SteerMode::Inject ==> taken == seq![steer] && left.len() == 0
            &&& !at_finish && mode != SteerMode::Inject ==> taken.len() == 0 && left == seq![steer]
        }),
    decreases b.len(),
{
    let steer = CommandView::Steer { command_id, text: said, mode };
    reveal_with_fuel(inbox::applying, 2);
    reveal_with_fuel(inbox::staying, 2);
    assert(seq![steer].drop_last() =~= Seq::empty());
    assert(Seq::<CommandView>::empty().push(steer) =~= seq![steer]);
    if b.len() == 0 {
        assert(a + b =~= a);
        assert(inbox::applying(a, at_finish) + inbox::applying(b, at_finish) =~= inbox::applying(
            a,
            at_finish,
        ));
        assert(inbox::staying(a, at_finish) + inbox::staying(b, at_finish) =~= inbox::staying(
            a,
            at_finish,
        ));
    } else {
        steers_are_taken_one_by_one(a, b.drop_last(), command_id, said, mode, at_finish);
        assert((a + b).drop_last() =~= a + b.drop_last());
        assert((a + b).last() == b.last());
        assert(inbox::applying(a + b, at_finish) =~= inbox::applying(a, at_finish)
            + inbox::applying(b, at_finish));
        assert(inbox::staying(a + b, at_finish) =~= inbox::staying(a, at_finish) + inbox::staying(
            b,
            at_finish,
        ));
    }
}

/// Where a run would finish, every waiting steer is taken, in order.
pub proof fn finish_lines_take_every_steer(steers: Seq<CommandView>)
    ensures
        inbox::applying(steers, true) == steers,
        inbox::staying(steers, true).len() == 0,
    decreases steers.len(),
{
    if steers.len() > 0 {
        finish_lines_take_every_steer(steers.drop_last());
        assert(steers.drop_last().push(steers.last()) =~= steers);
    } else {
        assert(inbox::applying(steers, true) =~= steers);
    }
}

} // verus!
