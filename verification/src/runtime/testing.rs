//! Doubles for the ports: deterministic stand-ins with behavior of their own.
use crate::contract::context::InstructionFile;
use crate::contract::event::Clock;
use crate::contract::request::ToolSpec;
use crate::json;
use crate::pairs;
use crate::runtime::agent::fold;
use crate::runtime::agent::fold::FoldPolicy;
use crate::runtime::agent::run::ContextBundle;
use crate::runtime::context;
use crate::runtime::context::FrozenPrefix;
use crate::text;
use vstd::prelude::*;

verus! {

/// A stopped clock: every timestamp is the same fixed instant.
pub struct FixedClock(pub u64);

impl Clock for FixedClock {
    fn now_unix_ms(&self) -> (r: u64)
        ensures
            r == self.0,
    {
        self.0
    }
}

/// Sequential ids: 1, 2, 3 and so on. It holds the last one given.
pub struct SeqIds(pub u64);

impl Default for SeqIds {
    fn default() -> (r: SeqIds)
        ensures
            r.0 == 0,
    {
        SeqIds(0)
    }
}

impl SeqIds {
    /// The next id.
    pub fn next(&mut self) -> (r: u64)
        requires
            old(self).0 < u64::MAX,
        ensures
            r == old(self).0 + 1,
            final(self).0 == r,
    {
        self.0 = self.0 + 1;
        self.0
    }
}

/// Artifacts kept in memory, by name.
pub struct RecordingArtifacts {
    spills: Vec<(String, String)>,
}

impl View for RecordingArtifacts {
    type V = Seq<(Seq<char>, Seq<char>)>;

    closed spec fn view(&self) -> Seq<(Seq<char>, Seq<char>)> {
        self.spills.deep_view()
    }
}

impl Default for RecordingArtifacts {
    fn default() -> (r: RecordingArtifacts)
        ensures
            r@ == Seq::<(Seq<char>, Seq<char>)>::empty(),
    {
        let r = RecordingArtifacts { spills: Vec::new() };
        assert(r@ =~= Seq::empty());
        r
    }
}

impl RecordingArtifacts {
    /// Keeps `content` under `name` and says where it is found.
    pub fn spill(&mut self, name: &str, content: &str) -> (r: String)
        ensures
            r@ == "test-artifacts/"@ + name@,
            final(self)@ == pairs::put(old(self)@, name@, content@),
    {
        json::put_field(&mut self.spills, name, content);
        text::prefixed("test-artifacts/", name)
    }

    /// Everything spilled so far: name and content, in the order of the names.
    pub fn spills(&self) -> (r: &Vec<(String, String)>)
        ensures
            r.deep_view() == self@,
    {
        &self.spills
    }
}

/// A minimal context: a one-word prompt, no instruction files, `/test` as the
/// working directory and the default fold policy.
pub fn test_context() -> (r: ContextBundle)
    ensures
        r.prefix@ == context::frozen("test prompt"@, Seq::empty(), Seq::empty()),
        r.cwd@ == "/test"@,
        r.fold_policy == fold::default_policy(),
{
    let files: Vec<InstructionFile> = Vec::new();
    let specs: Vec<ToolSpec> = Vec::new();
    assert(files.deep_view() =~= Seq::empty());
    assert(specs.deep_view() =~= Seq::empty());
    ContextBundle {
        prefix: FrozenPrefix::assemble("test prompt", &files, &specs),
        cwd: "/test".to_owned(),
        fold_policy: FoldPolicy::default(),
    }
}

} // verus!
