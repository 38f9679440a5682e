//! A provider that replays scripts.
use crate::contract::capabilities::{
    CacheSupport, Capabilities, CapabilitiesView, SoSupport, Support,
};
use crate::contract::error::{ModelError, ModelErrorView};
use crate::contract::request::{ChatRequest, ChatRequestView};
use crate::contract::stream::{StreamChunk, StreamChunkView};
use crate::contract::testing::{QueuedResponse, QueuedResponseView};
use crate::copies;
use vstd::prelude::*;

verus! {

/// A stream's items as a script has them.
pub type Items = Seq<Result<StreamChunkView, ModelErrorView>>;

/// The script of one call.
enum Script {
    /// The call fails.
    Fails(ModelError),
    /// The call streams these items.
    Streams(Vec<Result<StreamChunk, ModelError>>),
}

/// What the script of one call holds.
#[verifier::ext_equal]
pub enum ScriptView {
    Fails(ModelErrorView),
    Streams(Items),
}

/// What the items of a stream hold.
pub open spec fn items_of(items: Seq<Result<StreamChunk, ModelError>>) -> Items {
    items.map_values(|item: Result<StreamChunk, ModelError>| copies::held(item))
}

impl DeepView for Script {
    type V = ScriptView;

    closed spec fn deep_view(&self) -> ScriptView {
        match *self {
            Script::Fails(error) => ScriptView::Fails(error@),
            Script::Streams(items) => ScriptView::Streams(items_of(items@)),
        }
    }
}

/// A provider whose calls are scripted: each call takes the next script.
pub struct ReplayProvider {
    capabilities: Capabilities,
    scripts: Vec<Script>,
}

/// What a [`ReplayProvider`] holds.
#[verifier::ext_equal]
pub struct ReplayProviderView {
    pub capabilities: CapabilitiesView,
    pub scripts: Seq<ScriptView>,
}

impl View for ReplayProvider {
    type V = ReplayProviderView;

    closed spec fn view(&self) -> ReplayProviderView {
        ReplayProviderView {
            capabilities: self.capabilities@,
            scripts: self.scripts.deep_view(),
        }
    }
}

/// What a replaying provider declares that it can do.
pub open spec fn replay_capabilities() -> CapabilitiesView {
    CapabilitiesView {
        tools: true,
        parallel_tools: Support::Yes,
        structured_output: SoSupport::NativeStrict,
        reasoning: None,
        prompt_cache: CacheSupport::Automatic,
        logprobs: false,
        max_context: 128_000,
        max_output: 8_000,
        opaque_echo: Seq::empty(),
    }
}

/// Chunks as items without an error.
pub open spec fn all_ok(chunks: Seq<StreamChunkView>) -> Items {
    chunks.map_values(|chunk: StreamChunkView| Ok::<StreamChunkView, ModelErrorView>(chunk))
}

/// The script that a queued response comes to.
pub open spec fn script_of(response: QueuedResponseView) -> ScriptView {
    match response {
        QueuedResponseView::Chunks(chunks) => ScriptView::Streams(all_ok(chunks)),
        QueuedResponseView::CallError(error) => ScriptView::Fails(error),
        QueuedResponseView::StreamError { chunks, error } => ScriptView::Streams(
            all_ok(chunks).push(Err::<StreamChunkView, ModelErrorView>(error)),
        ),
    }
}

/// What a call comes to, and the scripts that are left. A request for tools
/// that are not declared is refused without taking a script.
pub open spec fn replayed(provider: ReplayProviderView, request: ChatRequestView) -> (
    Seq<ScriptView>,
    Result<Items, ModelErrorView>,
) {
    if request.tools.len() > 0 && !provider.capabilities.tools {
        (
            provider.scripts,
            Err(ModelErrorView::CapabilityMismatch("replay does not support tool calling"@)),
        )
    } else if provider.scripts.len() == 0 {
        (provider.scripts, Err(ModelErrorView::Protocol("replay script exhausted"@)))
    } else {
        (
            provider.scripts.drop_first(),
            match provider.scripts[0] {
                ScriptView::Fails(error) => Err(error),
                ScriptView::Streams(items) => Ok(items),
            },
        )
    }
}

impl ReplayProvider {
    /// A provider with the given scripts, in order.
    pub fn new(scripts: Vec<Vec<Result<StreamChunk, ModelError>>>) -> (r: ReplayProvider)
        ensures
            r@ == (ReplayProviderView {
                capabilities: replay_capabilities(),
                scripts: scripts@.map_values(
                    |items: Vec<Result<StreamChunk, ModelError>>|
                        ScriptView::Streams(items_of(items@)),
                ),
            }),
    {
        let ghost all = scripts@.map_values(
            |items: Vec<Result<StreamChunk, ModelError>>| ScriptView::Streams(items_of(items@)),
        );
        let mut left = scripts;
        let mut reversed: Vec<Script> = Vec::new();
        let mut queue: Vec<Script> = Vec::new();
        while left.len() > 0
            invariant
                left@ == scripts@.take(left.len() as int),
                left.len() <= scripts.len(),
                all == scripts@.map_values(
                    |items: Vec<Result<StreamChunk, ModelError>>|
                        ScriptView::Streams(items_of(items@)),
                ),
                reversed.len() == scripts.len() - left.len(),
                forall|k: int|
                    0 <= k < reversed.len() ==> #[trigger] reversed[k].deep_view() == all[all.len()
                        - 1 - k],
            decreases left.len(),
        {
            let ghost last = scripts@[left.len() - 1];
            let items = left.pop().unwrap();
            assert(items == last);
            reversed.push(Script::Streams(items));
            assert(left@ =~= scripts@.take(left.len() as int));
        }
        while reversed.len() > 0
            invariant
                all.len() == reversed.len() + queue.len(),
                forall|k: int|
                    0 <= k < reversed.len() ==> #[trigger] reversed[k].deep_view() == all[all.len()
                        - 1 - k],
                forall|k: int| 0 <= k < queue.len() ==> #[trigger] queue[k].deep_view() == all[k],
            decreases reversed.len(),
        {
            let ghost at = reversed.len() - 1;
            assert(reversed[at].deep_view() == all[queue.len() as int]);
            let script = reversed.pop().unwrap();
            queue.push(script);
        }
        let r = ReplayProvider { capabilities: default_capabilities(), scripts: queue };
        assert(r@.scripts =~= all);
        r
    }

    /// The same provider with another declaration of what it can do.
    pub fn with_capabilities(self, capabilities: Capabilities) -> (r: ReplayProvider)
        ensures
            r@ == (ReplayProviderView { capabilities: capabilities@, ..self@ }),
    {
        ReplayProvider { capabilities, scripts: self.scripts }
    }

    /// A script of chunks without an error.
    pub fn script(chunks: Vec<StreamChunk>) -> (r: Vec<Result<StreamChunk, ModelError>>)
        ensures
            items_of(r@) == all_ok(chunks.deep_view()),
    {
        let ghost expected = all_ok(chunks.deep_view());
        let mut out: Vec<Result<StreamChunk, ModelError>> = Vec::new();
        let mut i: usize = 0;
        while i < chunks.len()
            invariant
                i <= chunks.len(),
                expected == all_ok(chunks.deep_view()),
                out.len() == i,
                items_of(out@) == expected.take(i as int),
            decreases chunks.len() - i,
        {
            let ghost before = items_of(out@);
            let item: Result<StreamChunk, ModelError> = Ok(chunks[i].clone());
            let ghost view = copies::held(item);
            assert(expected[i as int] == view);
            out.push(item);
            i += 1;
            assert(items_of(out@) =~= before.push(view));
            assert(expected.take(i as int) =~= expected.take(i as int - 1).push(view));
        }
        assert(expected.take(i as int) =~= expected);
        out
    }

    /// What the provider declares that it can do.
    pub fn capabilities(&self) -> (r: &Capabilities)
        ensures
            r@ == self@.capabilities,
    {
        &self.capabilities
    }

    /// Scripts the response of a call to come.
    pub fn queue(&mut self, response: QueuedResponse)
        ensures
            final(self)@ == (ReplayProviderView {
                scripts: old(self)@.scripts.push(script_of(response@)),
                ..old(self)@
            }),
    {
        let ghost before = self@.scripts;
        let script = match response {
            QueuedResponse::Chunks(chunks) => Script::Streams(ReplayProvider::script(chunks)),
            QueuedResponse::CallError(error) => Script::Fails(error),
            QueuedResponse::StreamError { chunks, error } => {
                let mut items = ReplayProvider::script(chunks);
                let ghost ok_items = items_of(items@);
                items.push(Err(error));
                assert(items_of(items@) =~= ok_items.push(
                    Err::<StreamChunkView, ModelErrorView>(error@),
                ));
                Script::Streams(items)
            },
        };
        let ghost view = script.deep_view();
        self.scripts.push(script);
        assert(self@.scripts =~= before.push(view));
    }

    /// What a call comes to: the items that it streams, or why it fails.
    pub fn next_stream(&mut self, request: &ChatRequest) -> (r: Result<
        Vec<Result<StreamChunk, ModelError>>,
        ModelError,
    >)
        ensures
            final(self)@ == (ReplayProviderView {
                scripts: replayed(old(self)@, request@).0,
                ..old(self)@
            }),
            match r {
                Ok(items) => replayed(old(self)@, request@).1 == Ok::<Items, ModelErrorView>(
                    items_of(items@),
                ),
                Err(error) => replayed(old(self)@, request@).1 == Err::<Items, ModelErrorView>(
                    error@,
                ),
            },
    {
        let ghost before = self@.scripts;
        assert(request@.tools.len() == request.tools.len());
        assert(before.len() == self.scripts.len());
        if request.tools.len() > 0 && !self.capabilities.tools {
            return Err(
                ModelError::CapabilityMismatch("replay does not support tool calling".to_owned()),
            );
        }
        if self.scripts.len() == 0 {
            return Err(ModelError::Protocol("replay script exhausted".to_owned()));
        }
        assert(before[0] == self.scripts[0].deep_view());
        let script = self.scripts.remove(0);
        assert(self@.scripts =~= before.drop_first());
        match script {
            Script::Fails(error) => Err(error),
            Script::Streams(items) => Ok(items),
        }
    }
}

fn default_capabilities() -> (r: Capabilities)
    ensures
        r@ == replay_capabilities(),
{
    let r = Capabilities {
        tools: true,
        parallel_tools: Support::Yes,
        structured_output: SoSupport::NativeStrict,
        reasoning: None,
        prompt_cache: CacheSupport::Automatic,
        logprobs: false,
        max_context: 128_000,
        max_output: 8_000,
        opaque_echo: Vec::new(),
    };
    assert(r@ =~= replay_capabilities());
    r
}

/// A failed call does not poison the provider: the script after it is streamed
/// as it stands, and a refused request takes no script at all.
pub proof fn failures_do_not_poison(
    provider: ReplayProviderView,
    first: ChatRequestView,
    second: ChatRequestView,
)
    requires
        second.tools.len() == 0 || provider.capabilities.tools,
    ensures
        ({
            let (left, outcome) = replayed(provider, first);
            let then_outcome = replayed(
                ReplayProviderView { scripts: left, ..provider },
                second,
            ).1;
            &&& first.tools.len() > 0 && !provider.capabilities.tools ==> then_outcome == replayed(
                provider,
                second,
            ).1
            &&& (first.tools.len() == 0 || provider.capabilities.tools) && provider.scripts.len()
                >= 2 ==> then_outcome == (match provider.scripts[1] {
                ScriptView::Fails(error) => Err::<Items, ModelErrorView>(error),
                ScriptView::Streams(items) => Ok::<Items, ModelErrorView>(items),
            })
        }),
{
}

} // verus!
