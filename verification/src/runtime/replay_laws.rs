//! What a scripted provider plays back, in terms of its scripts.
use crate::contract::error::ModelErrorView;
use crate::contract::request::ChatRequestView;
use crate::contract::stream::StreamChunkView;
use crate::contract::testing::QueuedResponseView;
use crate::runtime::replay;
use crate::runtime::replay::{Items, ReplayProviderView, ScriptView};
use vstd::prelude::*;

verus! {

/// Scripts are played in order, one for each call that is taken: a stream item
/// by item, a failure as the call's failure. Without a script left the call
/// fails as exhausted; a request for tools that are not declared is refused and
/// leaves the scripts alone.
pub proof fn scripts_are_played_in_order(
    provider: ReplayProviderView,
    first: ScriptView,
    rest: Seq<ScriptView>,
    request: ChatRequestView,
)
    ensures
        ({
            let (left, outcome) = replay::replayed(provider, request);
            let taken = request.tools.len() == 0 || provider.capabilities.tools;
            &&& taken && provider.scripts == seq![first] + rest ==> left == rest && match first {
                ScriptView::Streams(items) => outcome == Ok::<Items, ModelErrorView>(items),
                ScriptView::Fails(error) => outcome == Err::<Items, ModelErrorView>(error),
            }
            &&& taken && provider.scripts.len() == 0 ==> left == provider.scripts && outcome
                == Err::<Items, ModelErrorView>(
                ModelErrorView::Protocol("replay script exhausted"@),
            )
            &&& !taken ==> left == provider.scripts && outcome matches Err(
                ModelErrorView::CapabilityMismatch(_),
            )
        }),
{
    if provider.scripts == seq![first] + rest {
        assert((seq![first] + rest).drop_first() =~= rest);
    }
}

/// A queued response is played as it is queued: its chunks in order, and a
/// stream error behind them; a call error is the call's failure.
pub proof fn queued_responses_are_played(
    chunks: Seq<StreamChunkView>,
    error: ModelErrorView,
    k: int,
)
    requires
        0 <= k < chunks.len(),
    ensures
        replay::script_of(QueuedResponseView::CallError(error)) == ScriptView::Fails(error),
        replay::script_of(QueuedResponseView::Chunks(chunks)) matches ScriptView::Streams(items)
            && items.len() == chunks.len() && items[k] == Ok::<StreamChunkView, ModelErrorView>(
            chunks[k],
        ),
        replay::script_of(
            QueuedResponseView::StreamError { chunks, error },
        ) matches ScriptView::Streams(items) && items.len() == chunks.len() + 1 && items[k] == Ok::<
            StreamChunkView,
            ModelErrorView,
        >(chunks[k]) && items.last() == Err::<StreamChunkView, ModelErrorView>(error),
{
}

} // verus!
