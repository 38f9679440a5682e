//! The fold machinery: old, bulky tool results leave the requests to come and
//! stay in the history.
use crate::contract::event::{EstimateSource, EventKindView, FoldedRef, FoldedRefView};
use crate::contract::message;
use crate::contract::message::{ContentPart, ContentPartView, Message, MessageView};
use crate::copies::{clone_option, clone_vec};
use crate::runtime::context;
use crate::runtime::wire;
use crate::text;
use vstd::prelude::*;

verus! {

/// When tool results are folded out of the requests to come.
#[derive(Debug, Clone, Copy, PartialEq, Eq, Structural)]
pub struct FoldPolicy {
    /// Results of this many latest turns stay verbatim.
    pub recent_turns: usize,
    /// Smaller results stay verbatim.
    pub min_bytes: usize,
    /// The growth, in tokens, after which the next fold is due at the latest.
    pub growth_max_tokens: u64,
    /// The share of the context, in percent, from which a fold is due at
    /// every boundary.
    pub ceiling_percent: u64,
}

/// The policy of an unconfigured run.
pub open spec fn default_policy() -> FoldPolicy {
    FoldPolicy {
        recent_turns: 3,
        min_bytes: 2_048,
        growth_max_tokens: 100_000,
        ceiling_percent: 80,
    }
}

impl Default for FoldPolicy {
    fn default() -> (r: FoldPolicy)
        ensures
            r == default_policy(),
    {
        FoldPolicy {
            recent_turns: 3,
            min_bytes: 2_048,
            growth_max_tokens: 100_000,
            ceiling_percent: 80,
        }
    }
}

/// One tool result's coordinates: its place in the history, its turn and its
/// event.
#[derive(Debug, PartialEq, Eq)]
pub struct ResultTrack {
    pub msg_index: usize,
    pub turn: usize,
    pub event_id: String,
    pub call_id: String,
}

/// What a [`ResultTrack`] holds.
#[verifier::ext_equal]
pub struct ResultTrackView {
    pub msg_index: usize,
    pub turn: usize,
    pub event_id: Seq<char>,
    pub call_id: Seq<char>,
}

impl View for ResultTrack {
    type V = ResultTrackView;

    open spec fn view(&self) -> ResultTrackView {
        ResultTrackView {
            msg_index: self.msg_index,
            turn: self.turn,
            event_id: self.event_id@,
            call_id: self.call_id@,
        }
    }
}

impl DeepView for ResultTrack {
    type V = ResultTrackView;

    open spec fn deep_view(&self) -> ResultTrackView {
        self@
    }
}

impl Clone for ResultTrack {
    fn clone(&self) -> (r: Self)
        ensures
            r@ == self@,
    {
        ResultTrack {
            msg_index: self.msg_index,
            turn: self.turn,
            event_id: self.event_id.clone(),
            call_id: self.call_id.clone(),
        }
    }
}

/// A message that stands in for a folded one.
#[derive(Debug, PartialEq, Eq)]
pub struct FoldedMessage {
    pub msg_index: usize,
    pub message: Message,
}

/// What a [`FoldedMessage`] holds.
#[verifier::ext_equal]
pub struct FoldedMessageView {
    pub msg_index: usize,
    pub message: MessageView,
}

impl View for FoldedMessage {
    type V = FoldedMessageView;

    open spec fn view(&self) -> FoldedMessageView {
        FoldedMessageView {
            msg_index: self.msg_index,
            message: self.message@,
        }
    }
}

impl DeepView for FoldedMessage {
    type V = FoldedMessageView;

    open spec fn deep_view(&self) -> FoldedMessageView {
        self@
    }
}

impl Clone for FoldedMessage {
    fn clone(&self) -> (r: Self)
        ensures
            r@ == self@,
    {
        FoldedMessage {
            msg_index: self.msg_index,
            message: self.message.clone(),
        }
    }
}

/// One result to spill: where it stands, and the artifact to write.
#[derive(Debug, PartialEq, Eq)]
pub struct FoldOrder {
    pub msg_index: usize,
    pub event_id: String,
    pub call_id: String,
    pub name: String,
    pub content: String,
}

/// What a [`FoldOrder`] holds.
#[verifier::ext_equal]
pub struct FoldOrderView {
    pub msg_index: usize,
    pub event_id: Seq<char>,
    pub call_id: Seq<char>,
    pub name: Seq<char>,
    pub content: Seq<char>,
}

impl View for FoldOrder {
    type V = FoldOrderView;

    open spec fn view(&self) -> FoldOrderView {
        FoldOrderView {
            msg_index: self.msg_index,
            event_id: self.event_id@,
            call_id: self.call_id@,
            name: self.name@,
            content: self.content@,
        }
    }
}

impl DeepView for FoldOrder {
    type V = FoldOrderView;

    open spec fn deep_view(&self) -> FoldOrderView {
        self@
    }
}

impl Clone for FoldOrder {
    fn clone(&self) -> (r: Self)
        ensures
            r@ == self@,
    {
        FoldOrder {
            msg_index: self.msg_index,
            event_id: self.event_id.clone(),
            call_id: self.call_id.clone(),
            name: self.name.clone(),
            content: self.content.clone(),
        }
    }
}

/// A fold that is due: the artifacts to write before it is recorded.
#[derive(Debug, PartialEq, Eq)]
pub struct FoldPlan {
    pub orders: Vec<FoldOrder>,
    pub estimate: u64,
    pub estimator: EstimateSource,
}

/// What a [`FoldPlan`] holds.
#[verifier::ext_equal]
pub struct FoldPlanView {
    pub orders: Seq<FoldOrderView>,
    pub estimate: u64,
    pub estimator: EstimateSource,
}

impl View for FoldPlan {
    type V = FoldPlanView;

    open spec fn view(&self) -> FoldPlanView {
        FoldPlanView {
            orders: self.orders.deep_view(),
            estimate: self.estimate,
            estimator: self.estimator,
        }
    }
}

impl DeepView for FoldPlan {
    type V = FoldPlanView;

    open spec fn deep_view(&self) -> FoldPlanView {
        self@
    }
}

impl Clone for FoldPlan {
    fn clone(&self) -> (r: Self)
        ensures
            r@ == self@,
    {
        FoldPlan {
            orders: clone_vec(&self.orders),
            estimate: self.estimate,
            estimator: self.estimator,
        }
    }
}

/// What the fold machinery remembers between boundaries.
#[derive(Debug, PartialEq, Eq)]
pub struct FoldState {
    /// Every tool result, in history order.
    pub tracks: Vec<ResultTrack>,
    /// The substitutions made so far.
    pub folded: Vec<FoldedMessage>,
    /// The estimate that growth is measured from.
    pub baseline: u64,
    /// The input tokens that the provider reported last.
    pub last_input: Option<u64>,
}

/// What a [`FoldState`] holds.
#[verifier::ext_equal]
pub struct FoldStateView {
    pub tracks: Seq<ResultTrackView>,
    pub folded: Seq<FoldedMessageView>,
    pub baseline: u64,
    pub last_input: Option<u64>,
}

impl View for FoldState {
    type V = FoldStateView;

    open spec fn view(&self) -> FoldStateView {
        FoldStateView {
            tracks: self.tracks.deep_view(),
            folded: self.folded.deep_view(),
            baseline: self.baseline,
            last_input: self.last_input,
        }
    }
}

impl DeepView for FoldState {
    type V = FoldStateView;

    open spec fn deep_view(&self) -> FoldStateView {
        self@
    }
}

impl Clone for FoldState {
    fn clone(&self) -> (r: Self)
        ensures
            r@ == self@,
    {
        FoldState {
            tracks: clone_vec(&self.tracks),
            folded: clone_vec(&self.folded),
            baseline: self.baseline,
            last_input: self.last_input,
        }
    }
}

/// The message that stands in for the one at `index`.
pub open spec fn stand_in(folded: Seq<FoldedMessageView>, index: int) -> Option<MessageView>
    decreases folded.len(),
{
    if folded.len() == 0 {
        None
    } else if folded.last().msg_index == index {
        Some(folded.last().message)
    } else {
        stand_in(folded.drop_last(), index)
    }
}

/// The history as it is sent: folded messages replaced by their stand-ins.
pub open spec fn sent_history(
    messages: Seq<MessageView>,
    folded: Seq<FoldedMessageView>,
) -> Seq<MessageView> {
    Seq::new(
        messages.len(),
        |i: int|
            match stand_in(folded, i) {
                Some(message) => message,
                None => messages[i],
            },
    )
}

/// The bytes of all messages on the wire.
pub open spec fn total_bytes(messages: Seq<MessageView>) -> nat
    decreases messages.len(),
{
    if messages.len() == 0 {
        0
    } else {
        total_bytes(messages.drop_last()) + wire::message_bytes(messages.last())
    }
}

/// `n` as a `u64`, at most the largest.
pub open spec fn clamped(n: nat) -> u64 {
    if n <= u64::MAX {
        n as u64
    } else {
        u64::MAX
    }
}

/// What the upcoming request weighs: the provider's last count where there is
/// one, else four bytes to a token.
pub open spec fn estimated(
    state: FoldStateView,
    messages: Seq<MessageView>,
    prefix_bytes: nat,
) -> (u64, EstimateSource) {
    match state.last_input {
        Some(tokens) => (tokens, EstimateSource::Provider),
        None => (
            clamped((prefix_bytes + total_bytes(sent_history(messages, state.folded))) / 4),
            EstimateSource::Chars4,
        ),
    }
}

/// Whether a fold is due: enough growth since the last one, or too close to
/// the context's end.
pub open spec fn fold_is_due(
    estimate: u64,
    baseline: u64,
    max_context: u32,
    policy: FoldPolicy,
) -> bool {
    let growth = if estimate >= baseline {
        estimate - baseline
    } else {
        0
    };
    let delta = if policy.growth_max_tokens <= max_context / 10 {
        policy.growth_max_tokens as int
    } else {
        max_context as int / 10
    };
    growth >= delta || estimate >= max_context * policy.ceiling_percent / 100
}

/// Whether a result may be folded: out of the recent turns, not folded yet,
/// and large enough.
pub open spec fn foldable(
    track: ResultTrackView,
    state: FoldStateView,
    messages: Seq<MessageView>,
    policy: FoldPolicy,
    turn: usize,
) -> bool {
    &&& track.turn + policy.recent_turns < turn
    &&& stand_in(state.folded, track.msg_index as int) is None
    &&& context::bytes_of(message::body_text(messages[track.msg_index as int].content)).len()
        >= policy.min_bytes
}

/// The artifact of a result.
pub open spec fn order_for(track: ResultTrackView, messages: Seq<MessageView>) -> FoldOrderView {
    FoldOrderView {
        msg_index: track.msg_index,
        event_id: track.event_id,
        call_id: track.call_id,
        name: "m"@ + text::decimal(track.msg_index as nat) + ".txt"@,
        content: message::body_text(messages[track.msg_index as int].content),
    }
}

/// The orders for the foldable results among `tracks`.
pub open spec fn orders_for(
    tracks: Seq<ResultTrackView>,
    state: FoldStateView,
    messages: Seq<MessageView>,
    policy: FoldPolicy,
    turn: usize,
) -> Seq<FoldOrderView>
    decreases tracks.len(),
{
    if tracks.len() == 0 {
        Seq::empty()
    } else {
        let before = orders_for(tracks.drop_last(), state, messages, policy, turn);
        if foldable(tracks.last(), state, messages, policy, turn) {
            before.push(order_for(tracks.last(), messages))
        } else {
            before
        }
    }
}

/// The fold that is due at this boundary, if there is one.
pub open spec fn planned(
    state: FoldStateView,
    messages: Seq<MessageView>,
    prefix_bytes: nat,
    max_context: u32,
    policy: FoldPolicy,
    turn: usize,
) -> Option<FoldPlanView> {
    let (estimate, estimator) = estimated(state, messages, prefix_bytes);
    let orders = orders_for(state.tracks, state, messages, policy, turn);
    if fold_is_due(estimate, state.baseline, max_context, policy) && orders.len() > 0 {
        Some(FoldPlanView { orders, estimate, estimator })
    } else {
        None
    }
}

/// The reference to a spilled result.
pub open spec fn ref_for(order: FoldOrderView, spill: Seq<char>) -> FoldedRefView {
    FoldedRefView {
        event_id: order.event_id,
        call_id: order.call_id,
        spill,
        original_bytes: clamped(context::bytes_of(order.content).len()),
    }
}

/// The references of a plan's results.
pub open spec fn refs_for(orders: Seq<FoldOrderView>, spills: Seq<Seq<char>>) -> Seq<
    FoldedRefView,
> {
    Seq::new(orders.len(), |i: int| ref_for(orders[i], spills[i]))
}

/// How many characters of a folded result stay visible at each end.
pub const GLIMPSE_CHARS: usize = 512;

/// What stays visible of a folded result: its two ends.
pub open spec fn glimpse(body: Seq<char>) -> Seq<char> {
    if body.len() <= 2 * GLIMPSE_CHARS {
        body
    } else {
        body.take(GLIMPSE_CHARS as int) + "\n...\n"@ + body.skip(body.len() - GLIMPSE_CHARS)
    }
}

/// The text of a stand-in: the reference, and a glimpse of what it stands
/// for.
pub open spec fn placeholder_text(body: Seq<char>, folded: FoldedRefView) -> Seq<char> {
    "[COMPRESSED: tool result of "@ + text::decimal(folded.original_bytes as nat)
        + " bytes folded out of the conversation; full text in "@ + folded.spill + "]\n"@
        + glimpse(body)
}

/// The stand-in for a folded message: its place and call stay, its text is
/// the reference with a glimpse of the original.
pub open spec fn placeholder(message: MessageView, folded: FoldedRefView) -> MessageView {
    MessageView {
        content: seq![
            ContentPartView::Text {
                text: placeholder_text(message::body_text(message.content), folded),
            },
        ],
        ..message
    }
}

/// The stand-ins that a plan makes.
pub open spec fn stand_ins(
    messages: Seq<MessageView>,
    orders: Seq<FoldOrderView>,
    spills: Seq<Seq<char>>,
) -> Seq<FoldedMessageView> {
    Seq::new(
        orders.len(),
        |i: int|
            FoldedMessageView {
                msg_index: orders[i].msg_index,
                message: placeholder(
                    messages[orders[i].msg_index as int],
                    ref_for(orders[i], spills[i]),
                ),
            },
    )
}

/// The bytes that stand-ins save.
pub open spec fn saved_bytes(messages: Seq<MessageView>, made: Seq<FoldedMessageView>) -> nat
    decreases made.len(),
{
    if made.len() == 0 {
        0
    } else {
        let before = wire::message_bytes(messages[made.last().msg_index as int]);
        let after = wire::message_bytes(made.last().message);
        saved_bytes(messages, made.drop_last()) + (if before >= after {
            (before - after) as nat
        } else {
            0
        })
    }
}

/// The state after a fold: growth is measured from what the estimate came
/// down to.
pub open spec fn folded_state(
    state: FoldStateView,
    messages: Seq<MessageView>,
    plan: FoldPlanView,
    spills: Seq<Seq<char>>,
) -> FoldStateView {
    let made = stand_ins(messages, plan.orders, spills);
    let saved = clamped(saved_bytes(messages, made) / 4);
    FoldStateView {
        folded: state.folded + made,
        baseline: if plan.estimate >= saved {
            (plan.estimate - saved) as u64
        } else {
            0
        },
        ..state
    }
}

/// The directive that records a fold.
pub open spec fn directive(plan: FoldPlanView, spills: Seq<Seq<char>>) -> EventKindView {
    EventKindView::Fold {
        folded: refs_for(plan.orders, spills),
        estimate: plan.estimate,
        estimator: plan.estimator,
    }
}

/// Every track and every stand-in names a message of the history.
pub open spec fn within(state: FoldStateView, len: nat) -> bool {
    &&& forall|i: int| 0 <= i < state.tracks.len() ==> (#[trigger] state.tracks[i]).msg_index < len
    &&& forall|i: int| 0 <= i < state.folded.len() ==> (#[trigger] state.folded[i]).msg_index < len
}

/// Every order names a message of the history.
pub open spec fn plan_within(plan: FoldPlanView, len: nat) -> bool {
    forall|i: int| 0 <= i < plan.orders.len() ==> (#[trigger] plan.orders[i]).msg_index < len
}

impl FoldState {
    pub fn new() -> (r: FoldState)
        ensures
            r@ == (FoldStateView {
                tracks: Seq::empty(),
                folded: Seq::empty(),
                baseline: 0,
                last_input: None,
            }),
    {
        let r = FoldState { tracks: Vec::new(), folded: Vec::new(), baseline: 0, last_input: None };
        assert(r@.tracks =~= Seq::empty());
        assert(r@.folded =~= Seq::empty());
        r
    }

    /// The position of the stand-in for the message at `index`.
    fn find(&self, index: usize) -> (r: Option<usize>)
        ensures
            match r {
                Some(at) => at < self.folded.len() && stand_in(self@.folded, index as int) == Some(
                    self.folded[at as int].message@,
                ),
                None => stand_in(self@.folded, index as int) is None,
            },
    {
        let ghost all = self.folded.deep_view();
        let mut n: usize = self.folded.len();
        assert(all.take(n as int) =~= all);
        while n > 0
            invariant
                n <= self.folded.len(),
                all == self.folded.deep_view(),
                stand_in(all, index as int) == stand_in(all.take(n as int), index as int),
            decreases n,
        {
            assert(all.take(n as int).last() == self.folded[n - 1]@);
            assert(all.take(n as int).drop_last() =~= all.take(n - 1));
            if self.folded[n - 1].msg_index == index {
                return Some(n - 1);
            }
            n -= 1;
        }
        None
    }

    /// The message as it is sent.
    pub fn sent(&self, messages: &Vec<Message>, index: usize) -> (r: Message)
        requires
            index < messages.len(),
        ensures
            r@ == sent_history(messages.deep_view(), self@.folded)[index as int],
    {
        assert(messages.deep_view()[index as int] == messages[index as int]@);
        match self.find(index) {
            Some(at) => self.folded[at].message.clone(),
            None => messages[index].clone(),
        }
    }

    /// What the upcoming request weighs.
    pub fn estimate_tokens(&self, messages: &Vec<Message>, prefix_bytes: usize) -> (r: (
        u64,
        EstimateSource,
    ))
        ensures
            r == estimated(self@, messages.deep_view(), prefix_bytes as nat),
    {
        if let Some(tokens) = self.last_input {
            return (tokens, EstimateSource::Provider);
        }
        let ghost sent = sent_history(messages.deep_view(), self@.folded);
        let mut bytes: u128 = prefix_bytes as u128;
        let mut i: usize = 0;
        while i < messages.len()
            invariant
                i <= messages.len(),
                sent == sent_history(messages.deep_view(), self@.folded),
                bytes == prefix_bytes + total_bytes(sent.take(i as int)),
                bytes <= prefix_bytes + i * (usize::MAX as int),
            decreases messages.len() - i,
        {
            let message = self.sent(messages, i);
            let size: usize = wire::message_size(&message);
            assert(prefix_bytes + i * (usize::MAX as int) + size <= prefix_bytes + (i + 1) * (
            usize::MAX as int)) by (nonlinear_arith)
                requires
                    size <= usize::MAX,
            ;
            assert(prefix_bytes + (i + 1) * (usize::MAX as int) <= u128::MAX) by (nonlinear_arith)
                requires
                    prefix_bytes <= usize::MAX,
                    i < usize::MAX,
                    usize::MAX <= 0xffff_ffff_ffff_ffff,
            ;
            bytes = bytes + size as u128;
            i += 1;
            assert(sent.take(i as int).drop_last() =~= sent.take(i as int - 1));
        }
        assert(sent.take(i as int) =~= sent);
        (clamp(bytes / 4), EstimateSource::Chars4)
    }

    /// The fold that is due at this boundary, if there is one.
    pub fn plan(
        &self,
        messages: &Vec<Message>,
        prefix_bytes: usize,
        max_context: u32,
        policy: &FoldPolicy,
        turn: usize,
    ) -> (r: Option<FoldPlan>)
        requires
            within(self@, messages.len() as nat),
        ensures
            r.deep_view() == planned(
                self@,
                messages.deep_view(),
                prefix_bytes as nat,
                max_context,
                *policy,
                turn,
            ),
            r matches Some(plan) ==> plan_within(plan@, messages.len() as nat),
    {
        let (estimate, estimator) = self.estimate_tokens(messages, prefix_bytes);
        if !is_due(estimate, self.baseline, max_context, policy) {
            return None;
        }
        let ghost history = messages.deep_view();
        let ghost tracks = self.tracks.deep_view();
        let mut orders: Vec<FoldOrder> = Vec::new();
        let mut i: usize = 0;
        while i < self.tracks.len()
            invariant
                i <= self.tracks.len(),
                history == messages.deep_view(),
                tracks == self.tracks.deep_view(),
                within(self@, messages.len() as nat),
                orders.deep_view() == orders_for(
                    tracks.take(i as int),
                    self@,
                    history,
                    *policy,
                    turn,
                ),
                forall|j: int|
                    0 <= j < orders.deep_view().len() ==> (
                    #[trigger] orders.deep_view()[j]).msg_index < messages.len(),
            decreases self.tracks.len() - i,
        {
            let ghost now = tracks.take(i as int + 1);
            assert(now.drop_last() =~= tracks.take(i as int));
            assert(now.last() == self.tracks[i as int]@);
            let index: usize = self.tracks[i].msg_index;
            assert(self@.tracks[i as int].msg_index < messages.len());
            assert(history[index as int] == messages[index as int]@);
            let body = messages[index].text_body();
            let recent = turn <= policy.recent_turns || self.tracks[i].turn >= turn
                - policy.recent_turns;
            if !recent && self.find(index).is_none() && context::byte_count(body.as_str())
                >= policy.min_bytes {
                let ghost before = orders.deep_view();
                let mut name = text::prefixed("m", text::decimal_of(index as u64).as_str());
                name.append(".txt");
                let order = FoldOrder {
                    msg_index: index,
                    event_id: self.tracks[i].event_id.clone(),
                    call_id: self.tracks[i].call_id.clone(),
                    name,
                    content: body,
                };
                assert(order@ =~= order_for(tracks[i as int], history));
                orders.push(order);
                assert(orders.deep_view() =~= before.push(order@));
            }
            i += 1;
        }
        assert(tracks.take(i as int) =~= tracks);
        assert(orders.deep_view().len() == orders.len());
        if orders.len() == 0 {
            return None;
        }
        Some(FoldPlan { orders, estimate, estimator })
    }

    /// Applies a fold whose artifacts were written: later requests carry the
    /// stand-ins. Returns the references for the directive.
    pub fn apply(
        &mut self,
        messages: &Vec<Message>,
        plan: &FoldPlan,
        spills: &Vec<String>,
    ) -> (r: Vec<FoldedRef>)
        requires
            plan_within(plan@, messages.len() as nat),
            spills.len() == plan.orders.len(),
            within(old(self)@, messages.len() as nat),
        ensures
            r.deep_view() == refs_for(plan@.orders, spills.deep_view()),
            final(self)@ == folded_state(
                old(self)@,
                messages.deep_view(),
                plan@,
                spills.deep_view(),
            ),
            within(final(self)@, messages.len() as nat),
    {
        let ghost start = self@;
        let ghost history = messages.deep_view();
        let ghost written = spills.deep_view();
        let ghost orders = plan@.orders;
        let ghost made = stand_ins(history, orders, written);
        let ghost all_refs = refs_for(orders, written);
        let mut refs: Vec<FoldedRef> = Vec::new();
        let mut saved: u128 = 0;
        let mut i: usize = 0;
        assert(start.folded + made.take(0) =~= start.folded);
        while i < plan.orders.len()
            invariant
                i <= plan.orders.len(),
                spills.len() == plan.orders.len(),
                plan_within(plan@, messages.len() as nat),
                within(start, messages.len() as nat),
                history == messages.deep_view(),
                written == spills.deep_view(),
                orders == plan@.orders,
                made == stand_ins(history, orders, written),
                all_refs == refs_for(orders, written),
                refs.len() == i,
                refs.deep_view() == all_refs.take(i as int),
                self@ == (FoldStateView { folded: start.folded + made.take(i as int), ..start }),
                saved == saved_bytes(history, made.take(i as int)),
                saved <= i * (usize::MAX as int),
            decreases plan.orders.len() - i,
        {
            let index: usize = plan.orders[i].msg_index;
            assert(orders[i as int] == plan.orders[i as int]@);
            assert(orders[i as int].msg_index < messages.len());
            assert(history[index as int] == messages[index as int]@);
            assert(written[i as int] == spills[i as int]@);
            let fold_ref = FoldedRef {
                event_id: plan.orders[i].event_id.clone(),
                call_id: plan.orders[i].call_id.clone(),
                spill: spills[i].clone(),
                original_bytes: clamp(
                    context::byte_count(plan.orders[i].content.as_str()) as u128,
                ),
            };
            assert(fold_ref@ =~= all_refs[i as int]);
            let stand_in_message = fold_placeholder_message(&messages[index], &fold_ref);
            let before: usize = wire::message_size(&messages[index]);
            let after: usize = wire::message_size(&stand_in_message);
            let less: usize = before.saturating_sub(after);
            assert(i * (usize::MAX as int) + less <= (i + 1) * (usize::MAX as int))
                by (nonlinear_arith)
                requires
                    less <= usize::MAX,
            ;
            assert((i + 1) * (usize::MAX as int) <= u128::MAX) by (nonlinear_arith)
                requires
                    i < usize::MAX,
                    usize::MAX <= 0xffff_ffff_ffff_ffff,
            ;
            saved = saved + less as u128;
            let entry = FoldedMessage { msg_index: index, message: stand_in_message };
            assert(entry@ =~= made[i as int]);
            let ghost earlier = self.folded.deep_view();
            self.folded.push(entry);
            assert(self.folded.deep_view() =~= earlier.push(made[i as int]));
            refs.push(fold_ref);
            i += 1;
            assert(refs.deep_view() =~= all_refs.take(i as int));
            assert(made.take(i as int).drop_last() =~= made.take(i as int - 1));
            assert(made.take(i as int).last() == made[i as int - 1]);
            assert(self.folded.deep_view() =~= start.folded + made.take(i as int));
        }
        assert(made.take(i as int) =~= made);
        assert(all_refs.take(i as int) =~= all_refs);
        self.baseline = plan.estimate.saturating_sub(clamp(saved / 4));
        assert(self@ =~= folded_state(start, history, plan@, written));
        assert forall|j: int| 0 <= j < self@.folded.len() implies (
        #[trigger] self@.folded[j]).msg_index < messages.len() by {
            if j < start.folded.len() {
                assert(self@.folded[j] == start.folded[j]);
            } else {
                let k = j - start.folded.len();
                assert(self@.folded[j] == made[k]);
                assert(orders[k].msg_index < messages.len());
            }
        }
        refs
    }
}

/// `n` as a `u64`, at most the largest.
fn clamp(n: u128) -> (r: u64)
    ensures
        r == clamped(n as nat),
{
    if n <= u64::MAX as u128 {
        n as u64
    } else {
        u64::MAX
    }
}

/// Whether a fold is due.
fn is_due(estimate: u64, baseline: u64, max_context: u32, policy: &FoldPolicy) -> (r: bool)
    ensures
        r == fold_is_due(estimate, baseline, max_context, *policy),
{
    let growth: u64 = estimate.saturating_sub(baseline);
    let tenth: u64 = (max_context / 10) as u64;
    let delta: u64 = if policy.growth_max_tokens <= tenth {
        policy.growth_max_tokens
    } else {
        tenth
    };
    assert(max_context * policy.ceiling_percent <= u128::MAX) by (nonlinear_arith)
        requires
            max_context <= 0xffff_ffff,
            policy.ceiling_percent <= 0xffff_ffff_ffff_ffff,
    ;
    let ceiling: u128 = (max_context as u128) * (policy.ceiling_percent as u128) / 100;
    growth >= delta || estimate as u128 >= ceiling
}

/// What stays visible of a folded result.
fn glimpse_of(body: &str) -> (r: String)
    ensures
        r@ == glimpse(body@),
{
    let chars = text::chars_of(body);
    if chars.len() <= 2 * GLIMPSE_CHARS {
        return body.to_owned();
    }
    let mut out = text::string_of(&chars, 0, GLIMPSE_CHARS);
    let tail = text::string_of(&chars, chars.len() - GLIMPSE_CHARS, chars.len());
    out.append("\n...\n");
    out.append(tail.as_str());
    assert(chars@.subrange(chars.len() - GLIMPSE_CHARS, chars.len() as int) =~= chars@.skip(
        chars.len() - GLIMPSE_CHARS,
    ));
    out
}

/// The stand-in for a folded message.
pub fn fold_placeholder_message(message: &Message, fold_ref: &FoldedRef) -> (r: Message)
    ensures
        r@ == placeholder(message@, fold_ref@),
{
    let mut text = text::prefixed(
        "[COMPRESSED: tool result of ",
        text::decimal_of(fold_ref.original_bytes).as_str(),
    );
    text.append(" bytes folded out of the conversation; full text in ");
    text.append(fold_ref.spill.as_str());
    text.append("]\n");
    let body = message.text_body();
    text.append(glimpse_of(body.as_str()).as_str());
    let mut content: Vec<ContentPart> = Vec::new();
    content.push(ContentPart::Text { text });
    let r = Message {
        role: message.role,
        content,
        tool_call_id: message.tool_call_id.clone(),
        is_error: message.is_error,
        opaque: clone_option(&message.opaque),
    };
    assert(r@ =~= placeholder(message@, fold_ref@));
    r
}

pub(crate) proof fn orders_come_from_tracks(
    tracks: Seq<ResultTrackView>,
    state: FoldStateView,
    messages: Seq<MessageView>,
    policy: FoldPolicy,
    turn: usize,
    i: int,
) -> (k: int)
    requires
        0 <= i < orders_for(tracks, state, messages, policy, turn).len(),
    ensures
        0 <= k < tracks.len(),
        foldable(tracks[k], state, messages, policy, turn),
        orders_for(tracks, state, messages, policy, turn)[i] == order_for(tracks[k], messages),
    decreases tracks.len(),
{
    let rest = tracks.drop_last();
    let before = orders_for(rest, state, messages, policy, turn);
    if i < before.len() {
        let k = orders_come_from_tracks(rest, state, messages, policy, turn, i);
        assert(rest[k] == tracks[k]);
        k
    } else {
        tracks.len() - 1
    }
}

/// What a fold takes: only tool results out of the recent turns, large enough,
/// and not folded before.
pub proof fn folds_take_only_old_bulky_results(
    state: FoldStateView,
    messages: Seq<MessageView>,
    prefix_bytes: nat,
    max_context: u32,
    policy: FoldPolicy,
    turn: usize,
    i: int,
) -> (k: int)
    requires
        planned(state, messages, prefix_bytes, max_context, policy, turn) is Some,
        0 <= i < planned(
            state,
            messages,
            prefix_bytes,
            max_context,
            policy,
            turn,
        ).unwrap().orders.len(),
    ensures
        ({
            let order = planned(
                state,
                messages,
                prefix_bytes,
                max_context,
                policy,
                turn,
            ).unwrap().orders[i];
            &&& 0 <= k < state.tracks.len()
            &&& state.tracks[k].msg_index == order.msg_index
            &&& state.tracks[k].turn + policy.recent_turns < turn
            &&& stand_in(state.folded, order.msg_index as int) is None
            &&& context::bytes_of(order.content).len() >= policy.min_bytes
            &&& order.content == message::body_text(messages[order.msg_index as int].content)
        }),
{
    orders_come_from_tracks(state.tracks, state, messages, policy, turn, i)
}

pub(crate) proof fn stand_in_of_sum(a: Seq<FoldedMessageView>, b: Seq<FoldedMessageView>, index: int)
    ensures
        stand_in(a + b, index) == (match stand_in(b, index) {
            Some(message) => Some(message),
            None => stand_in(a, index),
        }),
    decreases b.len(),
{
    if b.len() == 0 {
        assert(a + b =~= a);
    } else {
        assert((a + b).drop_last() =~= a + b.drop_last());
        assert((a + b).last() == b.last());
        stand_in_of_sum(a, b.drop_last(), index);
    }
}

proof fn no_stand_in(made: Seq<FoldedMessageView>, index: int)
    requires
        forall|i: int| 0 <= i < made.len() ==> (#[trigger] made[i]).msg_index != index,
    ensures
        stand_in(made, index) is None,
    decreases made.len(),
{
    if made.len() > 0 {
        assert(made[made.len() - 1].msg_index != index);
        let rest = made.drop_last();
        assert forall|i: int| 0 <= i < rest.len() implies (#[trigger] rest[i]).msg_index
            != index by {
            assert(rest[i] == made[i]);
        }
        no_stand_in(rest, index);
    }
}

/// A fold changes only how its own results are sent: every other message goes
/// out as before.
pub proof fn folds_leave_other_messages(
    state: FoldStateView,
    messages: Seq<MessageView>,
    plan: FoldPlanView,
    spills: Seq<Seq<char>>,
    index: int,
)
    requires
        0 <= index < messages.len(),
        forall|i: int| 0 <= i < plan.orders.len() ==> (#[trigger] plan.orders[i]).msg_index != index,
    ensures
        sent_history(messages, folded_state(state, messages, plan, spills).folded)[index]
            == sent_history(messages, state.folded)[index],
{
    let made = stand_ins(messages, plan.orders, spills);
    assert forall|i: int| 0 <= i < made.len() implies (#[trigger] made[i]).msg_index != index by {
        assert(plan.orders[i].msg_index != index);
    }
    no_stand_in(made, index);
    stand_in_of_sum(state.folded, made, index);
}

proof fn stand_in_is_there(made: Seq<FoldedMessageView>, i: int)
    requires
        0 <= i < made.len(),
    ensures
        stand_in(made, made[i].msg_index as int) is Some,
    decreases made.len(),
{
    if i < made.len() - 1 {
        assert(made.drop_last()[i] == made[i]);
        stand_in_is_there(made.drop_last(), i);
    }
}

/// A result is folded at most once: whatever is folded after a fold, no later
/// plan takes one of its results again.
pub proof fn folds_do_not_repeat(
    state: FoldStateView,
    messages: Seq<MessageView>,
    plan: FoldPlanView,
    spills: Seq<Seq<char>>,
    i: int,
    later: FoldStateView,
    grown: Seq<MessageView>,
    prefix_bytes: nat,
    max_context: u32,
    policy: FoldPolicy,
    turn: usize,
    j: int,
)
    requires
        0 <= i < plan.orders.len(),
        folded_state(state, messages, plan, spills).folded.is_prefix_of(later.folded),
        planned(later, grown, prefix_bytes, max_context, policy, turn) is Some,
        0 <= j < planned(
            later,
            grown,
            prefix_bytes,
            max_context,
            policy,
            turn,
        ).unwrap().orders.len(),
    ensures
        planned(
            later,
            grown,
            prefix_bytes,
            max_context,
            policy,
            turn,
        ).unwrap().orders[j].msg_index != plan.orders[i].msg_index,
{
    let taken = folded_state(state, messages, plan, spills).folded;
    let at = state.folded.len() + i;
    let index = plan.orders[i].msg_index;
    assert(taken[at].msg_index == index);
    assert(later.folded.subrange(0, taken.len() as int)[at] == later.folded[at]);
    stand_in_is_there(later.folded, at);
    let k = folds_take_only_old_bulky_results(
        later,
        grown,
        prefix_bytes,
        max_context,
        policy,
        turn,
        j,
    );
}

/// Folding is periodic: below the ceiling nothing is folded until the request
/// has grown by the agreed amount since the last fold.
pub proof fn folds_wait_for_growth(
    state: FoldStateView,
    messages: Seq<MessageView>,
    prefix_bytes: nat,
    max_context: u32,
    policy: FoldPolicy,
    turn: usize,
)
    requires
        ({
            let estimate = estimated(state, messages, prefix_bytes).0;
            let growth = if estimate >= state.baseline {
                estimate - state.baseline
            } else {
                0
            };
            &&& growth < policy.growth_max_tokens
            &&& growth < max_context / 10
            &&& estimate < max_context * policy.ceiling_percent / 100
        }),
    ensures
        planned(state, messages, prefix_bytes, max_context, policy, turn) is None,
{
}

} // verus!
