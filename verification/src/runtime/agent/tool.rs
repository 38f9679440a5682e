//! The tool contract: what a tool declares about itself and how a call fails.
use crate::contract::message::{ToolCall, ToolCallView};
use crate::contract::request::{ToolSpec, ToolSpecView};
use crate::text;
use vstd::prelude::*;

verus! {

/// Whether a tool's invocation may overlap with other calls of the same turn.
/// Undeclared tools serialize.
#[derive(Debug, Clone, Copy, PartialEq, Eq, Structural)]
pub enum Concurrency {
    Serial,
    ParallelSafe,
}

/// What a call does, as far as approval is concerned: mutations are presented
/// before they execute; perception is never gated.
#[derive(Debug, Clone, Copy, PartialEq, Eq, Structural)]
pub enum Effect {
    Perception,
    Mutation,
}

/// How a tool invocation failed.
#[derive(Debug, PartialEq, Eq)]
pub struct ToolError {
    pub tool: String,
    pub message: String,
}

/// What a [`ToolError`] holds.
#[verifier::ext_equal]
pub struct ToolErrorView {
    pub tool: Seq<char>,
    pub message: Seq<char>,
}

impl View for ToolError {
    type V = ToolErrorView;

    open spec fn view(&self) -> ToolErrorView {
        ToolErrorView {
            tool: self.tool@,
            message: self.message@,
        }
    }
}

impl DeepView for ToolError {
    type V = ToolErrorView;

    open spec fn deep_view(&self) -> ToolErrorView {
        self@
    }
}

impl Clone for ToolError {
    fn clone(&self) -> (r: Self)
        ensures
            r@ == self@,
    {
        ToolError {
            tool: self.tool.clone(),
            message: self.message.clone(),
        }
    }
}

/// The text of a tool failure.
pub open spec fn tool_error_text(error: ToolErrorView) -> Seq<char> {
    "tool `"@ + error.tool + "` failed: "@ + error.message
}

impl ToolError {
    /// The error for humans.
    pub fn to_text(&self) -> (r: String)
        ensures
            r@ == tool_error_text(self@),
    {
        let mut out = text::prefixed("tool `", self.tool.as_str());
        out.append("` failed: ");
        out.append(self.message.as_str());
        out
    }
}

/// What a wired tool declares about itself.
#[derive(Debug, PartialEq, Eq)]
pub struct ToolDeclaration {
    pub spec: ToolSpec,
    pub concurrency: Concurrency,
    pub effect: Effect,
}

/// What a [`ToolDeclaration`] holds.
#[verifier::ext_equal]
pub struct ToolDeclarationView {
    pub spec: ToolSpecView,
    pub concurrency: Concurrency,
    pub effect: Effect,
}

impl View for ToolDeclaration {
    type V = ToolDeclarationView;

    open spec fn view(&self) -> ToolDeclarationView {
        ToolDeclarationView {
            spec: self.spec@,
            concurrency: self.concurrency,
            effect: self.effect,
        }
    }
}

impl DeepView for ToolDeclaration {
    type V = ToolDeclarationView;

    open spec fn deep_view(&self) -> ToolDeclarationView {
        self@
    }
}

impl Clone for ToolDeclaration {
    fn clone(&self) -> (r: Self)
        ensures
            r@ == self@,
    {
        ToolDeclaration {
            spec: self.spec.clone(),
            concurrency: self.concurrency,
            effect: self.effect,
        }
    }
}

/// The declaration that a name dispatches to: the last one with it.
pub open spec fn declared(
    tools: Seq<ToolDeclarationView>,
    name: Seq<char>,
) -> Option<ToolDeclarationView>
    decreases tools.len(),
{
    if tools.len() == 0 {
        None
    } else if tools.last().spec.name == name {
        Some(tools.last())
    } else {
        declared(tools.drop_last(), name)
    }
}

/// Whether a call needs approval: its tool declares a mutation. An unknown
/// tool cannot mutate and is never gated.
pub open spec fn gated(tools: Seq<ToolDeclarationView>, call: ToolCallView) -> bool {
    match declared(tools, call.name) {
        Some(tool) => tool.effect == Effect::Mutation,
        None => false,
    }
}

/// Whether a call may overlap with others: its tool says so.
pub open spec fn parallel_safe(tools: Seq<ToolDeclarationView>, call: ToolCallView) -> bool {
    match declared(tools, call.name) {
        Some(tool) => tool.concurrency == Concurrency::ParallelSafe,
        None => false,
    }
}

/// The position of the declaration that a name dispatches to.
fn find_tool(tools: &Vec<ToolDeclaration>, name: &str) -> (r: Option<usize>)
    ensures
        match r {
            Some(at) => at < tools.len() && declared(tools.deep_view(), name@) == Some(
                tools[at as int]@,
            ),
            None => declared(tools.deep_view(), name@) is None,
        },
{
    let ghost all = tools.deep_view();
    let mut n: usize = tools.len();
    assert(all.take(n as int) =~= all);
    while n > 0
        invariant
            n <= tools.len(),
            all == tools.deep_view(),
            declared(all, name@) == declared(all.take(n as int), name@),
        decreases n,
    {
        assert(all.take(n as int).last() == tools[n - 1]@);
        assert(all.take(n as int).drop_last() =~= all.take(n - 1));
        if text::same(tools[n - 1].spec.name.as_str(), name) {
            return Some(n - 1);
        }
        n -= 1;
    }
    None
}

/// Whether a call needs approval.
pub fn is_gated(tools: &Vec<ToolDeclaration>, call: &ToolCall) -> (r: bool)
    ensures
        r == gated(tools.deep_view(), call@),
{
    match find_tool(tools, call.name.as_str()) {
        Some(at) => tools[at].effect == Effect::Mutation,
        None => false,
    }
}

/// Whether a call may overlap with others.
pub fn is_parallel_safe(tools: &Vec<ToolDeclaration>, call: &ToolCall) -> (r: bool)
    ensures
        r == parallel_safe(tools.deep_view(), call@),
{
    match find_tool(tools, call.name.as_str()) {
        Some(at) => tools[at].concurrency == Concurrency::ParallelSafe,
        None => false,
    }
}

/// Whether a tool of that name is wired in.
pub fn is_known(tools: &Vec<ToolDeclaration>, name: &str) -> (r: bool)
    ensures
        r == (declared(tools.deep_view(), name@) is Some),
{
    find_tool(tools, name).is_some()
}

} // verus!
