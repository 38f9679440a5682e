//! Event plumbing: minting, recording and publishing.
use crate::contract::attrs;
use crate::contract::event;
use crate::contract::event::{
    Command, CommandView, Event, EventError, EventErrorView, EventKind, EventKindView, EventView,
};
use crate::contract::live::{LiveItem, LiveItemView, LiveKind, LiveKindView};
use crate::json;
use crate::json::Value;
use crate::text;
use std::collections::VecDeque;
use vstd::prelude::*;

verus! {

/// One effect for the wiring to perform, in order. A failed append ends the
/// run before anything behind it is performed.
#[derive(Debug, PartialEq, Eq)]
pub enum Output {
    /// Append the event to the trajectory log.
    Append(Event),
    /// Publish the item to the live stream.
    Publish(LiveItem),
}

/// What a [`Output`] holds.
#[verifier::ext_equal]
pub enum OutputView {
    Append(EventView),
    Publish(LiveItemView),
}

impl View for Output {
    type V = OutputView;

    open spec fn view(&self) -> OutputView {
        match *self {
            Output::Append(inner) => OutputView::Append(inner@),
            Output::Publish(inner) => OutputView::Publish(inner@),
        }
    }
}

impl DeepView for Output {
    type V = OutputView;

    open spec fn deep_view(&self) -> OutputView {
        self@
    }
}

impl Clone for Output {
    fn clone(&self) -> (r: Self)
        ensures
            r@ == self@,
    {
        match self {
            Output::Append(inner) => Output::Append(inner.clone()),
            Output::Publish(inner) => Output::Publish(inner.clone()),
        }
    }
}

/// What a [`Ledger`] holds, with everything it has recorded and published.
#[verifier::ext_equal]
pub struct LedgerView {
    pub trace_id: Seq<char>,
    /// Every number from here on is free.
    pub floor: nat,
    /// The numbers at hand; event ids, spans and live positions draw from one
    /// sequence.
    pub numbers: Seq<u64>,
    /// The readings of the clock at hand, one for each event to come.
    pub times: Seq<u64>,
    /// The effects not handed out yet.
    pub outbox: Seq<OutputView>,
    /// Every event recorded so far.
    pub log: Seq<EventView>,
    /// Every item published so far.
    pub live: Seq<LiveItemView>,
}

/// Makes ids of the numbers it is given, records events and publishes live
/// items. An event is appended first and published second.
pub struct Ledger {
    trace_id: String,
    last: Option<u64>,
    numbers: VecDeque<u64>,
    times: VecDeque<u64>,
    outbox: Vec<Output>,
    log: Ghost<Seq<EventView>>,
    live: Ghost<Seq<LiveItemView>>,
}

impl View for Ledger {
    type V = LedgerView;

    closed spec fn view(&self) -> LedgerView {
        LedgerView {
            trace_id: self.trace_id@,
            floor: floor_above(self.last),
            numbers: self.numbers@,
            times: self.times@,
            outbox: self.outbox.deep_view(),
            log: self.log@,
            live: self.live@,
        }
    }
}

/// The first number above `last`.
pub open spec fn floor_above(last: Option<u64>) -> nat {
    match last {
        Some(n) => (n + 1) as nat,
        None => 0,
    }
}

/// Ascending numbers, none below `floor`.
pub open spec fn ascending(numbers: Seq<u64>, floor: nat) -> bool {
    &&& forall|i: int| 0 <= i < numbers.len() ==> floor <= #[trigger] numbers[i]
    &&& forall|i: int, j: int|
        0 <= i < j < numbers.len() ==> (#[trigger] numbers[i]) < (#[trigger] numbers[j])
}

/// The event id with number `n`.
pub open spec fn event_id(n: nat) -> Seq<char> {
    "e"@ + text::decimal(n)
}

/// The span id with number `n`.
pub open spec fn span_id(n: nat) -> Seq<char> {
    "s"@ + text::decimal(n)
}

/// The approval-request id with number `n`.
pub open spec fn request_id(n: nat) -> Seq<char> {
    "ap"@ + text::decimal(n)
}

/// `turn` as it is shown on the live stream.
pub open spec fn shown_turn(turn: usize) -> u32 {
    if turn <= u32::MAX {
        turn as u32
    } else {
        u32::MAX
    }
}

/// `turn` as it is shown on the live stream.
pub fn live_turn(turn: usize) -> (r: u32)
    ensures
        r == shown_turn(turn),
{
    if turn <= u32::MAX as usize {
        turn as u32
    } else {
        u32::MAX
    }
}

impl LedgerView {
    /// How many events can be recorded with what is at hand.
    pub open spec fn left(self) -> nat {
        if self.numbers.len() <= self.times.len() {
            self.numbers.len()
        } else {
            self.times.len()
        }
    }

    /// Whether `n` numbers and `n` readings are at hand.
    pub open spec fn room(self, n: nat) -> bool {
        n <= self.left()
    }

    /// The number drawn next.
    pub open spec fn next_id(self) -> nat {
        self.numbers[0] as nat
    }

    /// After one number was drawn.
    pub open spec fn minted(self) -> LedgerView {
        LedgerView {
            floor: self.next_id() + 1,
            numbers: self.numbers.subrange(1, self.numbers.len() as int),
            ..self
        }
    }

    /// After one reading was taken.
    pub open spec fn timed(self) -> LedgerView {
        LedgerView { times: self.times.subrange(1, self.times.len() as int), ..self }
    }

    /// After the number and the reading of an event were taken.
    pub open spec fn stamped(self) -> LedgerView {
        self.minted().timed()
    }

    /// With more numbers at hand, and with fresh readings.
    pub open spec fn supplied(self, numbers: Seq<u64>, times: Seq<u64>) -> LedgerView {
        LedgerView { numbers: self.numbers + numbers, times, ..self }
    }

    /// Whether these numbers may follow those at hand.
    pub open spec fn follows(self, numbers: Seq<u64>) -> bool {
        ascending(
            numbers,
            if self.numbers.len() > 0 {
                (self.numbers.last() + 1) as nat
            } else {
                self.floor
            },
        )
    }

    /// The event minted next.
    pub open spec fn envelope(
        self,
        span: Seq<char>,
        parent: Option<Seq<char>>,
        kind: EventKindView,
    ) -> EventView {
        event::plain_event(
            self.numbers[0],
            event_id(self.next_id()),
            self.trace_id,
            span,
            parent,
            self.times[0],
            kind,
        )
    }

    /// The event of a turn minted next: off the run root, with the turn as an
    /// attribute.
    pub open spec fn turn_envelope(
        self,
        span: Seq<char>,
        root: Seq<char>,
        turn: usize,
        kind: EventKindView,
    ) -> EventView {
        event::attributed(
            self.envelope(span, Some(root), kind),
            attrs::TURN@,
            json::unsigned_value(turn as u64),
        )
    }

    /// After `event` was recorded and republished.
    pub open spec fn emitted(self, event: EventView) -> LedgerView {
        let item = LiveItemView {
            seq: event.seq,
            trace_id: event.trace_id,
            kind: LiveKindView::Recorded { event },
        };
        LedgerView {
            outbox: self.outbox.push(OutputView::Append(event)).push(OutputView::Publish(item)),
            log: self.log.push(event),
            live: self.live.push(item),
            ..self
        }
    }

    /// After an ephemeral item was published.
    pub open spec fn published(self, kind: LiveKindView) -> LedgerView {
        let item = LiveItemView {
            seq: self.numbers[0],
            trace_id: self.trace_id,
            kind,
        };
        LedgerView {
            outbox: self.outbox.push(OutputView::Publish(item)),
            live: self.live.push(item),
            ..self.minted()
        }
    }

    /// After a turn's event was minted and recorded, failed where `error`
    /// says so.
    pub open spec fn turn_recorded(
        self,
        span: Seq<char>,
        root: Seq<char>,
        turn: usize,
        kind: EventKindView,
        error: Option<EventErrorView>,
    ) -> LedgerView {
        let event = self.turn_envelope(span, root, turn, kind);
        self.stamped().emitted(
            match error {
                Some(error) => event::failed(event, error),
                None => event,
            },
        )
    }

    /// After a client command was recorded on a span of its own.
    pub open spec fn command_recorded(
        self,
        command: CommandView,
        root: Seq<char>,
        turn: usize,
    ) -> LedgerView {
        self.minted().turn_recorded(
            span_id(self.next_id()),
            root,
            turn,
            EventKindView::Command(command),
            None,
        )
    }

    /// After the terminal record.
    pub open spec fn finished(
        self,
        root: Seq<char>,
        turns: usize,
        error: Option<EventErrorView>,
    ) -> LedgerView {
        let event = self.envelope(
            root,
            None,
            EventKindView::RunFinished { turns: shown_turn(turns) },
        );
        self.stamped().emitted(
            match error {
                Some(error) => event::failed(event, error),
                None => event,
            },
        )
    }

    /// One sequence numbers everything: numbers are drawn in order and never
    /// twice, the failure detail is there exactly when the status says so,
    /// and the events on the live stream are those of the log.
    pub open spec fn sound(self) -> bool {
        &&& ascending(self.numbers, self.floor)
        &&& forall|i: int|
            0 <= i < self.log.len() ==> {
                &&& (#[trigger] self.log[i]).seq < self.floor
                &&& self.log[i].id == event_id(self.log[i].seq as nat)
                &&& self.log[i].trace_id == self.trace_id
                &&& event::status_agrees(self.log[i])
            }
        &&& forall|i: int, j: int|
            0 <= i < j < self.log.len() ==> (#[trigger] self.log[i]).seq < (
            #[trigger] self.log[j]).seq
        &&& forall|i: int|
            0 <= i < self.live.len() ==> (#[trigger] self.live[i]).seq < self.floor
        &&& forall|i: int, j: int|
            0 <= i < j < self.live.len() ==> (#[trigger] self.live[i]).seq < (
            #[trigger] self.live[j]).seq
        &&& recorded(self.live) == self.log
        &&& append_comes_first(self.outbox)
    }
}

/// The events republished on a live stream, in order.
pub open spec fn recorded(live: Seq<LiveItemView>) -> Seq<EventView>
    decreases live.len(),
{
    if live.len() == 0 {
        Seq::empty()
    } else {
        match live.last().kind {
            LiveKindView::Recorded { event } => recorded(live.drop_last()).push(event),
            _ => recorded(live.drop_last()),
        }
    }
}

/// A republished event stands right behind its append.
pub open spec fn append_comes_first(outbox: Seq<OutputView>) -> bool {
    forall|k: int|
        0 <= k < outbox.len() ==> match #[trigger] outbox[k] {
            OutputView::Publish(item) => match item.kind {
                LiveKindView::Recorded { event } => k > 0 && outbox[k - 1] == OutputView::Append(
                    event,
                ),
                _ => true,
            },
            _ => true,
        }
}

/// Recording an event with the number just minted keeps the ledger sound.
pub proof fn emitting_is_sound(ledger: LedgerView, event: EventView)
    requires
        ledger.sound(),
        ledger.room(1),
        event.seq == ledger.next_id(),
        event.id == event_id(ledger.next_id()),
        event.trace_id == ledger.trace_id,
        event::status_agrees(event),
    ensures
        ledger.stamped().emitted(event).sound(),
{
    let after = ledger.stamped().emitted(event);
    assert(after.live.drop_last() =~= ledger.live);
    let n = ledger.outbox.len();
    assert forall|k: int| 0 <= k < after.outbox.len() implies match #[trigger] after.outbox[k] {
        OutputView::Publish(item) => match item.kind {
            LiveKindView::Recorded { event } => k > 0 && after.outbox[k - 1]
                == OutputView::Append(event),
            _ => true,
        },
        _ => true,
    } by {
        if k < n {
            assert(after.outbox[k] == ledger.outbox[k]);
            if k > 0 {
                assert(after.outbox[k - 1] == ledger.outbox[k - 1]);
            }
        }
    }
}

/// Publishing an ephemeral item keeps the ledger sound.
pub proof fn publishing_is_sound(ledger: LedgerView, kind: LiveKindView)
    requires
        ledger.sound(),
        ledger.room(1),
        !(kind is Recorded),
    ensures
        ledger.published(kind).sound(),
{
    let after = ledger.published(kind);
    assert(after.live.drop_last() =~= ledger.live);
    let n = ledger.outbox.len();
    assert forall|k: int| 0 <= k < after.outbox.len() implies match #[trigger] after.outbox[k] {
        OutputView::Publish(item) => match item.kind {
            LiveKindView::Recorded { event } => k > 0 && after.outbox[k - 1]
                == OutputView::Append(event),
            _ => true,
        },
        _ => true,
    } by {
        if k < n {
            assert(after.outbox[k] == ledger.outbox[k]);
            if k > 0 {
                assert(after.outbox[k - 1] == ledger.outbox[k - 1]);
            }
        }
    }
}

/// The id minted next was never given to an event.
pub proof fn ids_are_fresh(ledger: LedgerView, k: int)
    requires
        ledger.sound(),
        ledger.room(1),
        0 <= k < ledger.log.len(),
    ensures
        ledger.log[k].id != event_id(ledger.next_id()),
{
    if ledger.log[k].id == event_id(ledger.next_id()) {
        let a = text::decimal(ledger.log[k].seq as nat);
        let b = text::decimal(ledger.next_id());
        assert(a =~= ("e"@ + a).skip("e"@.len() as int));
        assert(b =~= ("e"@ + b).skip("e"@.len() as int));
        text::decimal_is_injective(ledger.log[k].seq as nat, ledger.next_id());
    }
}

/// No two events of a log share an id.
pub proof fn ids_are_distinct(ledger: LedgerView, i: int, j: int)
    requires
        ledger.sound(),
        0 <= i < j < ledger.log.len(),
    ensures
        ledger.log[i].id != ledger.log[j].id,
{
    if ledger.log[i].id == ledger.log[j].id {
        let a = text::decimal(ledger.log[i].seq as nat);
        let b = text::decimal(ledger.log[j].seq as nat);
        assert(a =~= ("e"@ + a).skip("e"@.len() as int));
        assert(b =~= ("e"@ + b).skip("e"@.len() as int));
        text::decimal_is_injective(ledger.log[i].seq as nat, ledger.log[j].seq as nat);
    }
}

impl Ledger {
    pub fn new(trace_id: &str) -> (r: Ledger)
        ensures
            r@ == (LedgerView {
                trace_id: trace_id@,
                floor: 0,
                numbers: Seq::empty(),
                times: Seq::empty(),
                outbox: Seq::empty(),
                log: Seq::empty(),
                live: Seq::empty(),
            }),
            r@.sound(),
    {
        let outbox: Vec<Output> = Vec::new();
        assert(outbox.deep_view() =~= Seq::empty());
        let r = Ledger {
            trace_id: trace_id.to_owned(),
            last: None,
            numbers: VecDeque::new(),
            times: VecDeque::new(),
            outbox,
            log: Ghost(Seq::empty()),
            live: Ghost(Seq::empty()),
        };
        assert(r@.numbers =~= Seq::empty());
        assert(r@.times =~= Seq::empty());
        r
    }

    /// Whether `n` numbers and `n` readings are at hand.
    pub fn has_room(&self, n: u128) -> (r: bool)
        ensures
            r == self@.room(n as nat),
    {
        n <= self.numbers.len() as u128 && n <= self.times.len() as u128
    }

    /// How many numbers are at hand.
    pub fn numbers_left(&self) -> (r: usize)
        ensures
            r == self@.numbers.len(),
    {
        self.numbers.len()
    }

    /// Whether these numbers may follow those at hand.
    pub fn accepts(&self, numbers: &Vec<u64>) -> (r: bool)
        ensures
            r == self@.follows(numbers@),
    {
        let mut last: Option<u64> = if self.numbers.len() > 0 {
            Some(self.numbers[self.numbers.len() - 1])
        } else {
            self.last
        };
        let ghost floor = floor_above(last);
        let mut i: usize = 0;
        while i < numbers.len()
            invariant
                i <= numbers.len(),
                floor <= floor_above(last),
                i == 0 ==> floor_above(last) == floor,
                i > 0 ==> last == Some(numbers[i - 1]),
                forall|a: int| 0 <= a < i ==> floor <= #[trigger] numbers[a] < floor_above(last),
                forall|a: int, b: int|
                    0 <= a < b < i ==> (#[trigger] numbers[a]) < (#[trigger] numbers[b]),
                self@.follows(numbers@) == ascending(numbers@, floor),
            decreases numbers.len() - i,
        {
            let n: u64 = numbers[i];
            if let Some(earlier) = last {
                if n <= earlier {
                    return false;
                }
            }
            last = Some(n);
            i += 1;
        }
        true
    }

    /// Takes in numbers drawn from the sequence, and fresh readings of the
    /// clock in place of those left over.
    pub fn supply(&mut self, numbers: Vec<u64>, times: Vec<u64>)
        requires
            old(self)@.follows(numbers@),
        ensures
            final(self)@ == old(self)@.supplied(numbers@, times@),
            old(self)@.sound() ==> final(self)@.sound(),
    {
        let ghost before = self@;
        let mut i: usize = 0;
        while i < numbers.len()
            invariant
                i <= numbers.len(),
                self@ == (LedgerView {
                    numbers: before.numbers + numbers@.take(i as int),
                    ..before
                }),
            decreases numbers.len() - i,
        {
            self.numbers.push_back(numbers[i]);
            i += 1;
            assert(self@.numbers =~= before.numbers + numbers@.take(i as int));
        }
        assert(numbers@.take(i as int) =~= numbers@);
        let mut readings: VecDeque<u64> = VecDeque::new();
        let mut i: usize = 0;
        while i < times.len()
            invariant
                i <= times.len(),
                readings@ == times@.take(i as int),
            decreases times.len() - i,
        {
            readings.push_back(times[i]);
            i += 1;
            assert(readings@ =~= times@.take(i as int));
        }
        assert(times@.take(i as int) =~= times@);
        self.times = readings;
    }

    /// Hands out the effects to perform.
    pub fn take_outputs(&mut self) -> (r: Vec<Output>)
        ensures
            r.deep_view() == old(self)@.outbox,
            final(self)@ == (LedgerView { outbox: Seq::empty(), ..old(self)@ }),
            old(self)@.sound() ==> final(self)@.sound(),
    {
        let mut out: Vec<Output> = Vec::new();
        out.append(&mut self.outbox);
        assert(self.outbox.deep_view() =~= Seq::empty());
        assert(out.deep_view() =~= old(self).outbox.deep_view());
        out
    }

    fn mint(&mut self) -> (r: u64)
        requires
            old(self)@.numbers.len() > 0,
        ensures
            r == old(self)@.next_id(),
            final(self)@ == old(self)@.minted(),
    {
        match self.numbers.pop_front() {
            Some(n) => {
                self.last = Some(n);
                n
            },
            None => 0,
        }
    }

    /// Takes the next reading of the clock.
    pub fn take_time(&mut self) -> (r: u64)
        requires
            old(self)@.times.len() > 0,
        ensures
            r == old(self)@.times[0],
            final(self)@ == old(self)@.timed(),
            old(self)@.sound() ==> final(self)@.sound(),
    {
        match self.times.pop_front() {
            Some(time) => time,
            None => 0,
        }
    }

    /// A new span id.
    pub fn next_span(&mut self) -> (r: String)
        requires
            old(self)@.room(1),
        ensures
            r@ == span_id(old(self)@.next_id()),
            final(self)@ == old(self)@.minted(),
            old(self)@.sound() ==> final(self)@.sound(),
    {
        let n: u64 = self.mint();
        text::prefixed("s", text::decimal_of(n).as_str())
    }

    /// A new approval-request id.
    pub fn next_request(&mut self) -> (r: String)
        requires
            old(self)@.room(1),
        ensures
            r@ == request_id(old(self)@.next_id()),
            final(self)@ == old(self)@.minted(),
            old(self)@.sound() ==> final(self)@.sound(),
    {
        let n: u64 = self.mint();
        text::prefixed("ap", text::decimal_of(n).as_str())
    }

    /// A new event. The id and the position come from one number, so that the
    /// log identity and the live position never disagree.
    pub fn envelope(
        &mut self,
        span: &str,
        parent: Option<&str>,
        kind: EventKind,
    ) -> (r: Event)
        requires
            old(self)@.room(1),
        ensures
            r@ == old(self)@.envelope(
                span@,
                match parent {
                    Some(parent) => Some(parent@),
                    None => None,
                },
                kind@,
            ),
            final(self)@ == old(self)@.stamped(),
    {
        let time: u64 = self.take_time();
        let seq: u64 = self.mint();
        let parent_id = match parent {
            Some(parent) => Some(parent.to_owned()),
            None => None,
        };
        Event::new(
            seq,
            text::prefixed("e", text::decimal_of(seq).as_str()),
            self.trace_id.clone(),
            span.to_owned(),
            parent_id,
            time,
            kind,
        )
    }

    /// A new event of a turn.
    pub fn turn_event(
        &mut self,
        span: &str,
        root: &str,
        turn: usize,
        kind: EventKind,
    ) -> (r: Event)
        requires
            old(self)@.room(1),
        ensures
            r@ == old(self)@.turn_envelope(span@, root@, turn, kind@),
            final(self)@ == old(self)@.stamped(),
    {
        self.envelope(span, Some(root), kind).with_attribute(
            attrs::TURN,
            Value::unsigned(turn as u64),
        )
    }

    /// Records an event: appended first, republished second.
    pub fn emit(&mut self, event: Event)
        ensures
            final(self)@ == old(self)@.emitted(event@),
    {
        let copy = event.clone();
        let item = LiveItem {
            seq: event.seq,
            trace_id: event.trace_id.clone(),
            kind: LiveKind::Recorded { event: Box::new(copy) },
        };
        let ghost before = self.outbox.deep_view();
        let ghost event_view = event@;
        let ghost item_view = item@;
        self.outbox.push(Output::Append(event));
        assert(self.outbox.deep_view() =~= before.push(OutputView::Append(event_view)));
        let ghost middle = self.outbox.deep_view();
        self.outbox.push(Output::Publish(item));
        assert(self.outbox.deep_view() =~= middle.push(OutputView::Publish(item_view)));
        proof {
            self.log@ = self.log@.push(event_view);
            self.live@ = self.live@.push(item_view);
        }
    }

    /// Publishes one ephemeral item, numbered like the events.
    pub fn publish(&mut self, kind: LiveKind)
        requires
            old(self)@.room(1),
            !(kind@ is Recorded),
        ensures
            final(self)@ == old(self)@.published(kind@),
            old(self)@.sound() ==> final(self)@.sound(),
    {
        proof {
            if self@.sound() {
                publishing_is_sound(self@, kind@);
            }
        }
        let seq: u64 = self.mint();
        let item = LiveItem { seq, trace_id: self.trace_id.clone(), kind };
        let ghost before = self.outbox.deep_view();
        let ghost item_view = item@;
        self.outbox.push(Output::Publish(item));
        assert(self.outbox.deep_view() =~= before.push(OutputView::Publish(item_view)));
        proof {
            self.live@ = self.live@.push(item_view);
        }
    }

    /// Records a turn's event, failed where `error` says so.
    pub fn record(
        &mut self,
        span: &str,
        root: &str,
        turn: usize,
        kind: EventKind,
        error: Option<EventError>,
    )
        requires
            old(self)@.room(1),
        ensures
            final(self)@ == old(self)@.turn_recorded(
                span@,
                root@,
                turn,
                kind@,
                error.deep_view(),
            ),
            old(self)@.sound() ==> final(self)@.sound(),
    {
        let ghost before = self@;
        let event = self.turn_event(span, root, turn, kind);
        let event = match error {
            Some(error) => event.errored(error),
            None => event,
        };
        proof {
            if before.sound() {
                emitting_is_sound(before, event@);
            }
        }
        self.emit(event);
    }

    /// Records a client command, off the run root and stamped with the turn
    /// it takes effect in.
    pub fn record_command(&mut self, command: Command, root: &str, turn: usize)
        requires
            old(self)@.room(2),
        ensures
            final(self)@ == old(self)@.command_recorded(command@, root@, turn),
            old(self)@.sound() ==> final(self)@.sound(),
    {
        let span = self.next_span();
        self.record(span.as_str(), root, turn, EventKind::Command(command), None);
    }

    /// The terminal record: `turns` counts completed assistant turns.
    pub fn finish_with(&mut self, root: &str, turns: usize, error: Option<EventError>)
        requires
            old(self)@.room(1),
        ensures
            final(self)@ == old(self)@.finished(root@, turns, error.deep_view()),
            old(self)@.sound() ==> final(self)@.sound(),
    {
        let ghost before = self@;
        let event = self.envelope(
            root,
            None,
            EventKind::RunFinished { turns: live_turn(turns) },
        );
        let event = match error {
            Some(error) => event.errored(error),
            None => event,
        };
        proof {
            if before.sound() {
                emitting_is_sound(before, event@);
            }
        }
        self.emit(event);
    }
}

} // verus!
