//! Client-command intake: classification on receipt, idempotent retry by the
//! client's command id, and consumption at the defined application points.
use crate::contract::event;
use crate::contract::event::{Command, CommandView, SteerMode};
use crate::text;
use vstd::hash_set::StringHashSet;
use vstd::prelude::*;

verus! {

/// Commands received ahead of their application point.
pub struct Inbox {
    resolves: Vec<Command>,
    steers: Vec<Command>,
    interrupt: Option<Command>,
    seen: StringHashSet,
}

/// What an [`Inbox`] holds.
#[verifier::ext_equal]
pub struct InboxView {
    /// Resolves awaiting their gate, in receipt order.
    pub resolves: Seq<CommandView>,
    /// Steers not yet applied, in receipt order.
    pub steers: Seq<CommandView>,
    /// The first pending interrupt.
    pub interrupt: Option<CommandView>,
    /// The command ids seen so far.
    pub seen: Set<Seq<char>>,
}

impl View for Inbox {
    type V = InboxView;

    closed spec fn view(&self) -> InboxView {
        InboxView {
            resolves: self.resolves.deep_view(),
            steers: self.steers.deep_view(),
            interrupt: self.interrupt.deep_view(),
            seen: self.seen@,
        }
    }
}

/// The inbox after a command with an id not seen before.
pub open spec fn classified(inbox: InboxView, command: CommandView) -> InboxView {
    match command {
        CommandView::ResolveApproval { .. } => InboxView {
            resolves: inbox.resolves.push(command),
            ..inbox
        },
        CommandView::ResolveApprovalCall { .. } => InboxView {
            resolves: inbox.resolves.push(command),
            ..inbox
        },
        CommandView::Steer { .. } => InboxView { steers: inbox.steers.push(command), ..inbox },
        CommandView::Interrupt { .. } => InboxView {
            interrupt: if inbox.interrupt is Some {
                inbox.interrupt
            } else {
                Some(command)
            },
            ..inbox
        },
        CommandView::StartRun { .. } => inbox,
    }
}

/// The inbox after a command was received. A retried one, known by its id,
/// changes nothing; a `start_run` in mid-run is ignored.
pub open spec fn noted(inbox: InboxView, command: CommandView) -> InboxView {
    match event::id_of(command) {
        Some(id) => if inbox.seen.contains(id) {
            inbox
        } else {
            classified(InboxView { seen: inbox.seen.insert(id), ..inbox }, command)
        },
        None => classified(inbox, command),
    }
}

/// Each command waits in the place of its kind.
pub open spec fn tidy(inbox: InboxView) -> bool {
    &&& inbox.interrupt matches Some(command) ==> command is Interrupt
    &&& forall|i: int| 0 <= i < inbox.steers.len() ==> (#[trigger] inbox.steers[i]) is Steer
    &&& forall|i: int|
        0 <= i < inbox.resolves.len() ==> (#[trigger] inbox.resolves[i]) is ResolveApproval
            || inbox.resolves[i] is ResolveApprovalCall
}

proof fn staying_is_tidy(steers: Seq<CommandView>, include_queued: bool)
    requires
        forall|i: int| 0 <= i < steers.len() ==> (#[trigger] steers[i]) is Steer,
    ensures
        forall|i: int|
            0 <= i < staying(steers, include_queued).len() ==> (#[trigger] staying(
                steers,
                include_queued,
            )[i]) is Steer,
        forall|i: int|
            0 <= i < applying(steers, include_queued).len() ==> (#[trigger] applying(
                steers,
                include_queued,
            )[i]) is Steer,
    decreases steers.len(),
{
    if steers.len() > 0 {
        staying_is_tidy(steers.drop_last(), include_queued);
        assert(steers[steers.len() - 1] is Steer);
    }
}

/// A retried submission applies exactly once, whatever it carries.
pub proof fn retried_commands_change_nothing(
    inbox: InboxView,
    command: CommandView,
    retry: CommandView,
)
    requires
        event::id_of(command) is Some,
        event::id_of(retry) == event::id_of(command),
    ensures
        noted(noted(inbox, command), retry) == noted(inbox, command),
{
}

/// The first pending interrupt stays.
pub proof fn first_interrupt_wins(inbox: InboxView, command: CommandView)
    requires
        inbox.interrupt is Some,
    ensures
        noted(inbox, command).interrupt == inbox.interrupt,
{
}

/// Whether a command resolves (part of) the given approval request.
pub open spec fn resolves_request(command: CommandView, request: Seq<char>) -> bool {
    match command {
        CommandView::ResolveApproval { request_id, .. } => request_id == request,
        CommandView::ResolveApprovalCall { request_id, .. } => request_id == request,
        _ => false,
    }
}

/// The position of the first resolve of `request`, or the length.
pub open spec fn first_resolve(resolves: Seq<CommandView>, request: Seq<char>) -> int
    decreases resolves.len(),
{
    if resolves.len() == 0 || resolves_request(resolves[0], request) {
        0
    } else {
        1 + first_resolve(resolves.drop_first(), request)
    }
}

proof fn first_resolve_is(resolves: Seq<CommandView>, request: Seq<char>, at: int)
    requires
        0 <= at <= resolves.len(),
        forall|j: int| 0 <= j < at ==> !resolves_request(#[trigger] resolves[j], request),
        at < resolves.len() ==> resolves_request(resolves[at], request),
    ensures
        first_resolve(resolves, request) == at,
    decreases resolves.len(),
{
    if at > 0 {
        let rest = resolves.drop_first();
        assert(!resolves_request(resolves[0], request));
        assert forall|j: int| 0 <= j < at - 1 implies !resolves_request(
            #[trigger] rest[j],
            request,
        ) by {
            assert(rest[j] == resolves[j + 1]);
        }
        first_resolve_is(rest, request, at - 1);
    }
}

/// Whether a steer applies at this point: inject steers at any boundary,
/// queued ones only where the run would otherwise finish.
pub open spec fn steer_applies(command: CommandView, include_queued: bool) -> bool {
    include_queued || (command matches CommandView::Steer { mode, .. } && mode
        == SteerMode::Inject)
}

/// The steers that apply, in receipt order.
pub open spec fn applying(steers: Seq<CommandView>, include_queued: bool) -> Seq<CommandView>
    decreases steers.len(),
{
    if steers.len() == 0 {
        Seq::empty()
    } else {
        let before = applying(steers.drop_last(), include_queued);
        if steer_applies(steers.last(), include_queued) {
            before.push(steers.last())
        } else {
            before
        }
    }
}

/// The steers that stay buffered, in receipt order.
pub open spec fn staying(steers: Seq<CommandView>, include_queued: bool) -> Seq<CommandView>
    decreases steers.len(),
{
    if steers.len() == 0 {
        Seq::empty()
    } else {
        let before = staying(steers.drop_last(), include_queued);
        if steer_applies(steers.last(), include_queued) {
            before
        } else {
            before.push(steers.last())
        }
    }
}

/// No steer is lost or doubled: each is applied or stays.
pub proof fn steers_are_partitioned(steers: Seq<CommandView>, include_queued: bool)
    ensures
        applying(steers, include_queued).to_multiset().add(
            staying(steers, include_queued).to_multiset(),
        ) == steers.to_multiset(),
        applying(steers, include_queued).len() + staying(steers, include_queued).len()
            == steers.len(),
    decreases steers.len(),
{
    broadcast use vstd::multiset::group_multiset_axioms;
    broadcast use vstd::seq_lib::group_to_multiset_ensures;

    if steers.len() > 0 {
        let rest = steers.drop_last();
        steers_are_partitioned(rest, include_queued);
        assert(rest.push(steers.last()) =~= steers);
        assert(applying(steers, include_queued).to_multiset().add(
            staying(steers, include_queued).to_multiset(),
        ) =~= steers.to_multiset());
    } else {
        assert(steers =~= Seq::empty());
        assert(steers.to_multiset().add(steers.to_multiset()) =~= steers.to_multiset());
    }
}

impl Inbox {
    pub fn new() -> (r: Inbox)
        ensures
            r@ == (InboxView {
                resolves: Seq::empty(),
                steers: Seq::empty(),
                interrupt: None,
                seen: Set::empty(),
            }),
            tidy(r@),
    {
        let r = Inbox {
            resolves: Vec::new(),
            steers: Vec::new(),
            interrupt: None,
            seen: StringHashSet::new(),
        };
        assert(r@.resolves =~= Seq::empty());
        assert(r@.steers =~= Seq::empty());
        r
    }

    /// Classifies one received command, deduplicated by its id.
    pub fn note(&mut self, command: Command)
        ensures
            final(self)@ == noted(old(self)@, command@),
            tidy(old(self)@) ==> tidy(final(self)@),
    {
        let ghost start = self@;
        let fresh = match command.command_id() {
            Some(id) => self.seen.insert(id.to_owned()),
            None => true,
        };
        if !fresh {
            assert(self@.seen =~= start.seen);
            return;
        }
        let ghost view = command@;
        match command {
            Command::ResolveApproval { .. } => {
                let ghost before = self.resolves.deep_view();
                self.resolves.push(command);
                assert(self.resolves.deep_view() =~= before.push(view));
            },
            Command::ResolveApprovalCall { .. } => {
                let ghost before = self.resolves.deep_view();
                self.resolves.push(command);
                assert(self.resolves.deep_view() =~= before.push(view));
            },
            Command::Steer { .. } => {
                let ghost before = self.steers.deep_view();
                self.steers.push(command);
                assert(self.steers.deep_view() =~= before.push(view));
            },
            Command::Interrupt { .. } => {
                if self.interrupt.is_none() {
                    self.interrupt = Some(command);
                }
            },
            Command::StartRun { .. } => {},
        }
        assert(self@ =~= noted(start, view));
    }

    /// The pending interrupt, taken once.
    pub fn take_interrupt(&mut self) -> (r: Option<Command>)
        ensures
            r.deep_view() == old(self)@.interrupt,
            final(self)@ == (InboxView { interrupt: None, ..old(self)@ }),
            tidy(old(self)@) ==> tidy(final(self)@),
    {
        self.interrupt.take()
    }

    /// The first resolve naming `request`, taken out of the inbox once.
    pub fn take_resolve(&mut self, request: &str) -> (r: Option<Command>)
        ensures
            ({
                let resolves = old(self)@.resolves;
                let at = first_resolve(resolves, request@);
                if 0 <= at < resolves.len() {
                    &&& r.deep_view() == Some(resolves[at])
                    &&& resolves_request(resolves[at], request@)
                    &&& final(self)@ == (InboxView { resolves: resolves.remove(at), ..old(self)@ })
                } else {
                    r is None && final(self)@ == old(self)@
                }
            }),
            r is Some ==> final(self)@.resolves.len() + 1 == old(self)@.resolves.len(),
            tidy(old(self)@) ==> tidy(final(self)@),
    {
        let ghost all = self.resolves.deep_view();
        let mut i: usize = 0;
        while i < self.resolves.len()
            invariant
                i <= self.resolves.len(),
                all == self.resolves.deep_view(),
                self@ == old(self)@,
                forall|j: int| 0 <= j < i ==> !resolves_request(#[trigger] all[j], request@),
            decreases self.resolves.len() - i,
        {
            assert(all[i as int] == self.resolves[i as int]@);
            let named = match &self.resolves[i] {
                Command::ResolveApproval { request_id, .. } => text::same(
                    request_id.as_str(),
                    request,
                ),
                Command::ResolveApprovalCall { request_id, .. } => text::same(
                    request_id.as_str(),
                    request,
                ),
                _ => false,
            };
            if named {
                proof {
                    first_resolve_is(all, request@, i as int);
                }
                let command = self.resolves.remove(i);
                assert(self.resolves.deep_view() =~= all.remove(i as int));
                return Some(command);
            }
            i += 1;
        }
        proof {
            first_resolve_is(all, request@, all.len() as int);
        }
        None
    }

    /// The buffered steers that apply at this point, taken out of the inbox.
    pub fn take_steers(&mut self, include_queued: bool) -> (r: Vec<Command>)
        ensures
            r.deep_view() == applying(old(self)@.steers, include_queued),
            final(self)@ == (InboxView {
                steers: staying(old(self)@.steers, include_queued),
                ..old(self)@
            }),
            tidy(old(self)@) ==> tidy(final(self)@),
    {
        let ghost all = self.steers.deep_view();
        let mut apply: Vec<Command> = Vec::new();
        let mut keep: Vec<Command> = Vec::new();
        let mut i: usize = 0;
        while i < self.steers.len()
            invariant
                i <= self.steers.len(),
                all == self.steers.deep_view(),
                self@ == old(self)@,
                apply.deep_view() == applying(all.take(i as int), include_queued),
                keep.deep_view() == staying(all.take(i as int), include_queued),
            decreases self.steers.len() - i,
        {
            assert(all.take(i as int + 1).drop_last() =~= all.take(i as int));
            assert(all.take(i as int + 1).last() == self.steers[i as int]@);
            let command = self.steers[i].clone();
            let now = match &command {
                Command::Steer { mode, .. } => *mode == SteerMode::Inject,
                _ => false,
            };
            if include_queued || now {
                let ghost before = apply.deep_view();
                apply.push(command);
                assert(apply.deep_view() =~= before.push(all[i as int]));
            } else {
                let ghost before = keep.deep_view();
                keep.push(command);
                assert(keep.deep_view() =~= before.push(all[i as int]));
            }
            i += 1;
        }
        assert(all.take(i as int) =~= all);
        proof {
            if tidy(old(self)@) {
                staying_is_tidy(all, include_queued);
            }
        }
        self.steers = keep;
        apply
    }

    /// How many resolves wait in the inbox.
    pub fn resolve_count(&self) -> (r: usize)
        ensures
            r == self@.resolves.len(),
    {
        self.resolves.len()
    }

    /// How many steers wait in the inbox.
    pub fn steer_count(&self) -> (r: usize)
        ensures
            r == self@.steers.len(),
    {
        self.steers.len()
    }
}

} // verus!
