//! Request assembly: the frozen prefix, the injected-instruction text and the
//! per-request status trailer.
use crate::contract::context::{
    InstructionFile, InstructionFileView, PrefixRecord, PrefixRecordView,
};
use crate::contract::message;
use crate::contract::message::{Message, Role};
use crate::contract::request::{ToolSpec, ToolSpecView};
use crate::copies::clone_vec;
use crate::json;
use crate::text;
use vstd::prelude::*;

verus! {

/// The system prompt. It never names an individual tool, and its first line
/// is the identity slot.
pub const SYSTEM_PROMPT: &'static str = "\
You are Cadmus, a coding agent working in a terminal workspace.

Working discipline:
- Verify before you claim done: run the build, tests or checks that prove the change works; never report success on assumption.
- Tool errors are corrections, not failures: read the feedback, adjust, and retry with a better approach.
- Read before you write: understand the existing code and its conventions before changing them; match the style you find.
- Keep changes minimal and scoped to the task; do not refactor what is not broken.
- Never abandon a broken intermediate state: finish the change or revert it, so the workspace is never left worse than you found it.
- When a task is unclear or has multiple valid interpretations, ask instead of guessing.

A status block maintained by code (never by you) ends every request: cwd, git state, tool counters and the task list. Trust it over your own recollection of these facts.";

/// The name of the tool whose calls write the todo list.
pub const TODO_WRITE: &'static str = "todo_write";

/// The bytes of `text`.
pub open spec fn bytes_of(text: Seq<char>) -> Seq<u8> {
    vstd::utf8::encode_utf8(text)
}

/// FNV-1a, 64 bit: `bytes` fed into `hash`.
pub open spec fn fnv(hash: u64, bytes: Seq<u8>) -> u64
    decreases bytes.len(),
{
    if bytes.len() == 0 {
        hash
    } else {
        (fnv(hash, bytes.drop_last()) ^ (bytes.last() as u64)).wrapping_mul(FNV_PRIME)
    }
}

/// The start value of the hash.
pub const FNV_OFFSET: u64 = 0xcbf2_9ce4_8422_2325;

/// The multiplier of the hash.
pub const FNV_PRIME: u64 = 0x0000_0100_0000_01b3;

/// The low `width` hexadecimal digits of `n`.
pub open spec fn hex(n: nat, width: nat) -> Seq<char>
    decreases width,
{
    if width == 0 {
        Seq::empty()
    } else {
        hex(n / 16, (width - 1) as nat).push(json::hex_char(n % 16))
    }
}

/// A tool spec as it is serialized.
pub open spec fn spec_text(spec: ToolSpecView) -> Seq<char> {
    json::object_text(
        seq![
            ("name"@, json::quoted(spec.name)),
            ("description"@, json::quoted(spec.description)),
            ("parameters"@, json::rendered(spec.parameters)),
        ],
    )
}

/// The serialized tool specs fed into `hash`, in order.
pub open spec fn specs_hash(hash: u64, specs: Seq<ToolSpecView>) -> u64
    decreases specs.len(),
{
    if specs.len() == 0 {
        hash
    } else {
        fnv(specs_hash(hash, specs.drop_last()), bytes_of(spec_text(specs.last())))
    }
}

/// The change-detection key over the system text and the tool specs.
pub open spec fn prefix_key(text: Seq<char>, specs: Seq<ToolSpecView>) -> Seq<char> {
    hex(specs_hash(fnv(FNV_OFFSET, bytes_of(text)), specs) as nat, 16)
}

/// One instruction file's section of the system text.
pub open spec fn section(file: InstructionFileView) -> Seq<char> {
    "\n## "@ + file.path + "\n\n"@ + text::trimmed(file.content) + "\n"@
}

/// The sections of all files, in order.
pub open spec fn sections(files: Seq<InstructionFileView>) -> Seq<char>
    decreases files.len(),
{
    if files.len() == 0 {
        Seq::empty()
    } else {
        sections(files.drop_last()) + section(files.last())
    }
}

/// The heading above the instruction sections.
pub const INSTRUCTIONS_HEADING: &'static str = "\n\n# Workspace instructions\n\nInstruction files applying to this workspace, in precedence order: a file nearer the edited path wins on conflict, and the user's explicit prompt wins over everything.\n";

/// The assembled system text.
pub open spec fn system_text(prompt: Seq<char>, files: Seq<InstructionFileView>) -> Seq<char> {
    if files.len() == 0 {
        prompt
    } else {
        prompt + INSTRUCTIONS_HEADING@ + sections(files)
    }
}

/// The frozen prefix: assembled once per run from the system prompt, the
/// instruction chain and the tool specs, then byte-stable for the whole run.
pub struct FrozenPrefix {
    text: String,
    hash: String,
    instructions: Vec<InstructionFile>,
}

/// What a [`FrozenPrefix`] holds.
#[verifier::ext_equal]
pub struct FrozenPrefixView {
    pub text: Seq<char>,
    pub hash: Seq<char>,
    pub instructions: Seq<InstructionFileView>,
}

impl View for FrozenPrefix {
    type V = FrozenPrefixView;

    closed spec fn view(&self) -> FrozenPrefixView {
        FrozenPrefixView {
            text: self.text@,
            hash: self.hash@,
            instructions: self.instructions.deep_view(),
        }
    }
}

impl Clone for FrozenPrefix {
    fn clone(&self) -> (r: Self)
        ensures
            r@ == self@,
    {
        FrozenPrefix {
            text: self.text.clone(),
            hash: self.hash.clone(),
            instructions: clone_vec(&self.instructions),
        }
    }
}

/// The prefix of the given prompt, files and specs.
pub open spec fn frozen(
    prompt: Seq<char>,
    files: Seq<InstructionFileView>,
    specs: Seq<ToolSpecView>,
) -> FrozenPrefixView {
    FrozenPrefixView {
        text: system_text(prompt, files),
        hash: prefix_key(system_text(prompt, files), specs),
        instructions: files,
    }
}

/// The record of a prefix on the start-run command.
pub open spec fn prefix_record(prefix: FrozenPrefixView) -> PrefixRecordView {
    PrefixRecordView {
        hash: prefix.hash,
        system: prefix.text,
        instructions: prefix.instructions,
        skills: Seq::empty(),
    }
}

impl FrozenPrefix {
    /// Assembles the prefix and its hash. The specs enter the hash (a tool
    /// schema change is a prefix change) but not the system text.
    pub fn assemble(
        system_prompt: &str,
        instructions: &Vec<InstructionFile>,
        specs: &Vec<ToolSpec>,
    ) -> (r: FrozenPrefix)
        ensures
            r@ == frozen(system_prompt@, instructions.deep_view(), specs.deep_view()),
    {
        let ghost files = instructions.deep_view();
        let mut text = system_prompt.to_owned();
        if instructions.len() > 0 {
            text.append(INSTRUCTIONS_HEADING);
            let ghost head = text@;
            let mut i: usize = 0;
            assert(text@ =~= head + sections(files.take(0)));
            while i < instructions.len()
                invariant
                    i <= instructions.len(),
                    files == instructions.deep_view(),
                    text@ == head + sections(files.take(i as int)),
                decreases instructions.len() - i,
            {
                let ghost before = text@;
                text.append("\n## ");
                text.append(instructions[i].path.as_str());
                text.append("\n\n");
                text.append(text::trim(instructions[i].content.as_str()).as_str());
                text.append("\n");
                assert(files[i as int] == instructions[i as int]@);
                assert(text@ =~= before + section(files[i as int]));
                i += 1;
                assert(files.take(i as int).drop_last() =~= files.take(i as int - 1));
                assert(files.take(i as int).last() == files[i as int - 1]);
                assert(text@ =~= head + sections(files.take(i as int)));
            }
            assert(files.take(i as int) =~= files);
        }
        assert(text@ =~= system_text(system_prompt@, files));
        let hash = prefix_hash(text.as_str(), specs);
        FrozenPrefix { text, hash, instructions: clone_vec(instructions) }
    }

    /// The system message prepended to every request.
    pub fn message(&self) -> (r: Message)
        ensures
            r@ == message::text_message(Role::System, self@.text),
    {
        Message::system(self.text.as_str())
    }

    /// The comparability key.
    pub fn hash(&self) -> (r: &str)
        ensures
            r@ == self@.hash,
    {
        self.hash.as_str()
    }

    /// The record embedded in the start-run command.
    pub fn record(&self) -> (r: PrefixRecord)
        ensures
            r@ == prefix_record(self@),
    {
        let r = PrefixRecord {
            hash: self.hash.clone(),
            system: self.text.clone(),
            instructions: clone_vec(&self.instructions),
            skills: Vec::new(),
        };
        assert(r@ =~= prefix_record(self@));
        r
    }

    /// The number of bytes of the system text.
    pub fn byte_len(&self) -> (r: usize)
        ensures
            r == bytes_of(self@.text).len(),
    {
        byte_count(self.text.as_str())
    }
}

/// The number of bytes of `text`.
pub fn byte_count(text: &str) -> (r: usize)
    ensures
        r == bytes_of(text@).len(),
{
    text.as_bytes().len()
}

/// `bytes` fed into `hash`.
fn feed(hash: u64, bytes: &[u8]) -> (r: u64)
    ensures
        r == fnv(hash, bytes@),
{
    let mut out: u64 = hash;
    let mut i: usize = 0;
    while i < bytes.len()
        invariant
            i <= bytes.len(),
            out == fnv(hash, bytes@.take(i as int)),
        decreases bytes.len() - i,
    {
        out = (out ^ (bytes[i] as u64)).wrapping_mul(FNV_PRIME);
        i += 1;
        assert(bytes@.take(i as int).drop_last() =~= bytes@.take(i as int - 1));
    }
    assert(bytes@.take(i as int) =~= bytes@);
    out
}

/// The low `width` hexadecimal digits of `n`.
fn hex_digits(n: u64, width: usize) -> (r: String)
    ensures
        r@ == hex(n as nat, width as nat),
    decreases width,
{
    if width == 0 {
        String::new()
    } else {
        let mut out = hex_digits(n / 16, width - 1);
        let d: u8 = (n % 16) as u8;
        if d < 10 {
            out.push((48u8 + d) as char);
        } else {
            out.push((87u8 + d) as char);
        }
        out
    }
}

/// A tool spec as it is serialized.
pub fn spec_json(spec: &ToolSpec) -> (r: String)
    ensures
        r@ == spec_text(spec@),
{
    let mut fields: Vec<(String, String)> = Vec::new();
    fields.push(("name".to_owned(), json::quote(spec.name.as_str())));
    fields.push(("description".to_owned(), json::quote(spec.description.as_str())));
    fields.push(("parameters".to_owned(), spec.parameters.render()));
    assert(fields.deep_view() =~= seq![
        ("name"@, json::quoted(spec@.name)),
        ("description"@, json::quoted(spec@.description)),
        ("parameters"@, json::rendered(spec@.parameters)),
    ]);
    json::render_object(&fields)
}

/// The change-detection key over the system text and the tool specs.
pub fn prefix_hash(text: &str, specs: &Vec<ToolSpec>) -> (r: String)
    ensures
        r@ == prefix_key(text@, specs.deep_view()),
{
    let ghost all = specs.deep_view();
    let start: u64 = feed(FNV_OFFSET, text.as_bytes());
    let mut hash: u64 = start;
    let mut i: usize = 0;
    while i < specs.len()
        invariant
            i <= specs.len(),
            all == specs.deep_view(),
            hash == specs_hash(start, all.take(i as int)),
        decreases specs.len() - i,
    {
        let line = spec_json(&specs[i]);
        hash = feed(hash, line.as_str().as_bytes());
        assert(all[i as int] == specs[i as int]@);
        i += 1;
        assert(all.take(i as int).drop_last() =~= all.take(i as int - 1));
    }
    assert(all.take(i as int) =~= all);
    hex_digits(hash, 16)
}

/// The user-message text of one nested instruction injection.
pub open spec fn injected_text(path: Seq<char>, content: Seq<char>) -> Seq<char> {
    "Entered a new subtree; its instruction file now applies (nearest-file precedence):\n\n## "@
        + path + "\n\n"@ + text::trimmed(content)
}

/// The user-message text of one nested instruction injection: one function,
/// so that the live history and the replayed one hold the same bytes.
pub fn format_injected(file: &InstructionFile) -> (r: String)
    ensures
        r@ == injected_text(file@.path, file@.content),
{
    let mut out =
        "Entered a new subtree; its instruction file now applies (nearest-file precedence):\n\n## ".to_owned();
    out.append(file.path.as_str());
    out.append("\n\n");
    out.append(text::trim(file.content.as_str()).as_str());
    out
}

} // verus!
