//! What the model is told about the run, in terms of the run's facts.
use crate::contract::context::{InstructionFileView, TodoItemView, TodoStatus};
use crate::contract::request::ToolSpecView;
use crate::json;
use crate::runtime::context;
use crate::runtime::trailer;
use crate::runtime::trailer::{GitStatusView, ToolCountView, TrailerTime};
use crate::text;
use vstd::prelude::*;

verus! {

/// Whether `n` is how often the tool `name` was counted.
pub open spec fn tallies(counts: Seq<ToolCountView>, name: Seq<char>, n: int) -> bool {
    ||| exists|i: int|
        0 <= i < counts.len() && (#[trigger] counts[i]).name == name && counts[i].count == n
    ||| n == 0 && forall|i: int| 0 <= i < counts.len() ==> (#[trigger] counts[i]).name != name
}

/// One more execution of a tool adds one to its own counter, a new one
/// included, and leaves every other counter as it is.
pub proof fn executions_are_counted_by_name(
    counts: Seq<ToolCountView>,
    name: Seq<char>,
    other: Seq<char>,
    n: int,
)
    requires
        trailer::in_name_order(counts),
        forall|i: int| 0 <= i < counts.len() ==> (#[trigger] counts[i]).count < usize::MAX,
        tallies(counts, other, n),
    ensures
        tallies(
            trailer::counted(counts, name),
            other,
            if other == name {
                n + 1
            } else {
                n
            },
        ),
{
    let at = trailer::counter_slot(counts, name);
    trailer::counter_slot_bounds(counts, name);
    let after = trailer::counted(counts, name);
    let known = at < counts.len() && counts[at].name == name;
    if exists|i: int|
        0 <= i < counts.len() && (#[trigger] counts[i]).name == other && counts[i].count == n {
        let i = choose|i: int|
            0 <= i < counts.len() && (#[trigger] counts[i]).name == other && counts[i].count == n;
        if other == name {
            text::precedes_is_total(name, name);
            if i < at {
                assert(text::precedes(counts[i].name, name));
            }
            if i > at {
                assert(text::precedes(counts[at].name, counts[i].name));
                assert(!text::precedes(counts[at].name, name));
            }
            assert(i == at);
            assert(after[at].name == name && after[at].count == n + 1);
        } else if known {
            assert(i != at);
            assert(after[i] == counts[i]);
        } else if i < at {
            assert(after[i] == counts[i]);
        } else {
            assert(after[i + 1] == counts[i]);
        }
    } else {
        if other == name {
            if known {
                assert(counts[at].name == name);
            }
            assert(after[at].name == name && after[at].count == 1);
        } else {
            assert forall|i: int| 0 <= i < after.len() implies (#[trigger] after[i]).name
                != other by {
                if known {
                    if i != at {
                        assert(after[i] == counts[i]);
                    }
                } else if i < at {
                    assert(after[i] == counts[i]);
                } else if i > at {
                    assert(after[i] == counts[i - 1]);
                }
            }
        }
    }
}

/// A trailer is built up line by line: the working directory always, a git line
/// where there is a repository, clean exactly where nothing is dirty.
pub proof fn trailers_tell_place_and_repository(cwd: Seq<char>, git: GitStatusView)
    ensures
        ({
            let none = Seq::<ToolCountView>::empty();
            let idle = Seq::<TodoItemView>::empty();
            let bare = trailer::trailer_text(cwd, None, None, none, idle);
            &&& bare == "[cadmus status]\ncwd: "@ + cwd + "\n"@
            &&& git.dirty_count == 0 ==> trailer::trailer_text(cwd, Some(git), None, none, idle)
                == bare + ("git: "@ + git.branch + ", clean\n"@)
            &&& git.dirty_count != 0 ==> trailer::trailer_text(cwd, Some(git), None, none, idle)
                == bare + ("git: "@ + git.branch + ", dirty("@ + text::decimal(
                git.dirty_count as nat,
            ) + ")\n"@)
        }),
{
    let none = Seq::<ToolCountView>::empty();
    let idle = Seq::<TodoItemView>::empty();
    let bare = trailer::trailer_text(cwd, None, None, none, idle);
    assert(bare =~= "[cadmus status]\ncwd: "@ + cwd + "\n"@);
    assert(trailer::trailer_text(cwd, Some(git), None, none, idle) =~= bare + trailer::git_line(
        Some(git),
    ));
}

/// The time line tells the shown time and the whole seconds since the run
/// began; a clock that went back counts no seconds, and a time that cannot be
/// shown leaves the line out.
pub proof fn trailers_tell_the_time(
    cwd: Seq<char>,
    git: Option<GitStatusView>,
    time: TrailerTime,
    shown: Seq<char>,
)
    ensures
        ({
            let none = Seq::<ToolCountView>::empty();
            let idle = Seq::<TodoItemView>::empty();
            let before = trailer::trailer_text(cwd, git, None, none, idle);
            let after = trailer::trailer_text(cwd, git, Some(time), none, idle);
            let elapsed = trailer::elapsed_seconds(time);
            let told = trailer::rfc3339((time.now_ms / 1000) as i64, time.offset_seconds);
            &&& told == Some(shown) ==> after == before + ("time: "@ + shown + " (run elapsed "@
                + text::decimal(elapsed) + "s)\n"@)
            &&& told is None ==> after == before
            &&& time.now_ms >= time.run_start_ms ==> elapsed * 1000 <= time.now_ms
                - time.run_start_ms < (elapsed + 1) * 1000
            &&& time.now_ms < time.run_start_ms ==> elapsed == 0
        }),
{
    let none = Seq::<ToolCountView>::empty();
    let idle = Seq::<TodoItemView>::empty();
    let before = trailer::trailer_text(cwd, git, None, none, idle);
    assert(trailer::trailer_text(cwd, git, Some(time), none, idle) =~= before
        + trailer::time_line(Some(time)));
}

/// The tools line lists every counter in order: the first behind the word that
/// opens the line, each further one behind a comma.
pub proof fn trailers_list_every_counter(
    cwd: Seq<char>,
    git: Option<GitStatusView>,
    time: Option<TrailerTime>,
    counts: Seq<ToolCountView>,
    more: ToolCountView,
)
    ensures
        ({
            let idle = Seq::<TodoItemView>::empty();
            let before = trailer::trailer_text(cwd, git, time, counts, idle);
            let after = trailer::trailer_text(cwd, git, time, counts.push(more), idle);
            let shown = more.name + ": "@ + text::decimal(more.count as nat) + "\n"@;
            &&& counts.len() == 0 ==> after == before + ("tools: "@ + shown)
            &&& counts.len() > 0 ==> {
                &&& before.last() == '\n'
                &&& after == before.drop_last() + (", "@ + shown)
            }
        }),
{
    reveal_strlit("\n");
    let idle = Seq::<TodoItemView>::empty();
    let before = trailer::trailer_text(cwd, git, time, counts, idle);
    let longer = counts.push(more);
    let after = trailer::trailer_text(cwd, git, time, longer, idle);
    let shown = more.name + ": "@ + text::decimal(more.count as nat) + "\n"@;
    assert(longer.drop_last() =~= counts);
    assert(longer.last() == more);
    if counts.len() == 0 {
        assert(trailer::count_list(longer) =~= more.name + ": "@ + text::decimal(
            more.count as nat,
        ));
        assert(after =~= before + ("tools: "@ + shown));
    } else {
        let listed = "tools: "@ + trailer::count_list(counts);
        assert(trailer::tools_line(counts) =~= listed.push('\n'));
        assert(trailer::count_list(longer) =~= trailer::count_list(counts) + ", "@ + more.name
            + ": "@ + text::decimal(more.count as nat));
        assert(trailer::tools_line(longer) =~= listed + (", "@ + shown));
        let head = "[cadmus status]\ncwd: "@ + cwd + "\n"@ + trailer::git_line(git)
            + trailer::time_line(time);
        assert(before =~= head + listed.push('\n'));
        assert(before.drop_last() =~= head + listed);
        assert(after =~= head + (listed + (", "@ + shown)));
        assert(after =~= before.drop_last() + (", "@ + shown));
    }
}

/// The box of a todo item.
pub open spec fn boxed(status: TodoStatus) -> Seq<char> {
    if status == TodoStatus::Completed {
        "[x]"@
    } else if status == TodoStatus::InProgress {
        "[>]"@
    } else {
        "[ ]"@
    }
}

/// The todo list ends the trailer, one line for every item in order with its
/// box and its trimmed text; an empty list leaves no heading.
pub proof fn trailers_list_every_todo(
    cwd: Seq<char>,
    git: Option<GitStatusView>,
    time: Option<TrailerTime>,
    counts: Seq<ToolCountView>,
    todos: Seq<TodoItemView>,
    more: TodoItemView,
)
    ensures
        trailer::trailer_text(cwd, git, time, counts, todos.push(more)) == trailer::trailer_text(
            cwd,
            git,
            time,
            counts,
            todos,
        ) + (if todos.len() == 0 {
            "todo:\n"@
        } else {
            Seq::empty()
        }) + ("  "@ + boxed(more.status) + " "@ + text::trimmed(more.content) + "\n"@),
{
    let longer = todos.push(more);
    assert(longer.drop_last() =~= todos);
    assert(longer.last() == more);
    let line = "  "@ + boxed(more.status) + " "@ + text::trimmed(more.content) + "\n"@;
    assert(trailer::todo_line(more) == line);
    if todos.len() == 0 {
        assert(trailer::todo_lines(todos) == Seq::<char>::empty());
        assert(trailer::todo_lines(longer) == trailer::todo_lines(todos) + line);
        assert(trailer::todo_lines(longer) =~= line);
        assert(trailer::todo_block(longer) =~= "todo:\n"@ + line);
    } else {
        assert(trailer::todo_block(longer) =~= trailer::todo_block(todos) + line);
    }
    assert(trailer::trailer_text(cwd, git, time, counts, longer) =~= trailer::trailer_text(
        cwd,
        git,
        time,
        counts,
        todos,
    ) + (if todos.len() == 0 {
        "todo:\n"@
    } else {
        Seq::empty()
    }) + line);
}

/// A clock's offset in minutes is its offset in seconds where a place can have
/// it, and none otherwise.
pub proof fn clocks_are_read_in_seconds(minutes: i32)
    ensures
        -1559 <= minutes <= 1559 ==> trailer::clock_offset(minutes) == 60 * minutes,
        !(-1559 <= minutes <= 1559) ==> trailer::clock_offset(minutes) == 0,
{
}

/// The system text is the prompt alone where there are no instruction files;
/// each file adds, in order, its path and its trimmed content, the first of
/// them behind a heading.
pub proof fn instructions_follow_the_prompt(
    prompt: Seq<char>,
    files: Seq<InstructionFileView>,
    more: InstructionFileView,
    specs: Seq<ToolSpecView>,
)
    ensures
        context::frozen(prompt, Seq::empty(), specs).text == prompt,
        context::frozen(prompt, files.push(more), specs).text == context::frozen(
            prompt,
            files,
            specs,
        ).text + (if files.len() == 0 {
            context::INSTRUCTIONS_HEADING@
        } else {
            Seq::empty()
        }) + ("\n## "@ + more.path + "\n\n"@ + text::trimmed(more.content) + "\n"@),
        context::frozen(prompt, files, specs).instructions == files,
        context::prefix_record(context::frozen(prompt, files, specs)).system == context::frozen(
            prompt,
            files,
            specs,
        ).text,
        context::prefix_record(context::frozen(prompt, files, specs)).hash == context::frozen(
            prompt,
            files,
            specs,
        ).hash,
        context::prefix_record(context::frozen(prompt, files, specs)).instructions == files,
{
    let longer = files.push(more);
    let added = "\n## "@ + more.path + "\n\n"@ + text::trimmed(more.content) + "\n"@;
    assert(longer.drop_last() =~= files);
    assert(longer.last() == more);
    if files.len() == 0 {
        assert(context::sections(files) == Seq::<char>::empty());
        assert(context::sections(longer) == context::sections(files) + context::section(more));
        assert(context::sections(longer) =~= added);
    }
    assert(context::system_text(prompt, longer) =~= context::system_text(prompt, files) + (
    if files.len() == 0 {
        context::INSTRUCTIONS_HEADING@
    } else {
        Seq::empty()
    }) + added);
}

/// An injected instruction file is told with its path and its trimmed content.
pub proof fn injections_name_their_file(path: Seq<char>, content: Seq<char>)
    ensures
        context::injected_text(path, content)
            == "Entered a new subtree; its instruction file now applies (nearest-file precedence):\n\n## "@
            + path + "\n\n"@ + text::trimmed(content),
{
}

/// The hash is fed byte by byte, so that what is fed in two parts is fed as one;
/// a byte enters before the multiplication.
pub proof fn hashes_are_fed_byte_by_byte(hash: u64, a: Seq<u8>, b: Seq<u8>, byte: u8)
    ensures
        context::fnv(hash, Seq::empty()) == hash,
        context::fnv(hash, seq![byte]) == (hash ^ (byte as u64)).wrapping_mul(0x0000_0100_0000_01b3),
        context::fnv(hash, a + b) == context::fnv(context::fnv(hash, a), b),
    decreases b.len(),
{
    reveal_with_fuel(context::fnv, 2);
    assert(seq![byte].drop_last() =~= Seq::empty());
    if b.len() == 0 {
        assert(a + b =~= a);
    } else {
        assert((a + b).drop_last() =~= a + b.drop_last());
        assert((a + b).last() == b.last());
        hashes_are_fed_byte_by_byte(hash, a, b.drop_last(), byte);
    }
}

/// The key of a prefix is taken over the system text and over every tool spec
/// in order: one more spec feeds its name, its description and its schema, as
/// one JSON object, into the hash of the rest.
pub proof fn prefix_keys_cover_text_and_specs(
    text: Seq<char>,
    specs: Seq<ToolSpecView>,
    more: ToolSpecView,
)
    ensures
        context::prefix_key(text, Seq::empty()) == context::hex(
            context::fnv(0xcbf2_9ce4_8422_2325, context::bytes_of(text)) as nat,
            16,
        ),
        context::specs_hash(
            context::fnv(0xcbf2_9ce4_8422_2325, context::bytes_of(text)),
            specs.push(more),
        ) == context::fnv(
            context::specs_hash(
                context::fnv(0xcbf2_9ce4_8422_2325, context::bytes_of(text)),
                specs,
            ),
            context::bytes_of(
                json::object_text(
                    seq![
                        ("name"@, json::quoted(more.name)),
                        ("description"@, json::quoted(more.description)),
                        ("parameters"@, json::rendered(more.parameters)),
                    ],
                ),
            ),
        ),
        context::prefix_key(text, specs).len() == 16,
{
    assert(specs.push(more).drop_last() =~= specs);
    hex_digits_are_counted(
        context::specs_hash(context::fnv(context::FNV_OFFSET, context::bytes_of(text)), specs) as nat,
        16,
    );
}

proof fn hex_digits_are_counted(n: nat, width: nat)
    ensures
        context::hex(n, width).len() == width,
    decreases width,
{
    if width > 0 {
        hex_digits_are_counted(n / 16, (width - 1) as nat);
    }
}

/// A hexadecimal digit is what its character stands for.
pub open spec fn hex_digit_value(c: char) -> int {
    if '0' <= c <= '9' {
        c as int - '0' as int
    } else {
        10 + c as int - 'a' as int
    }
}

/// The digits of a key are lowercase hexadecimal: the last is the number's
/// sixteenth remainder, and those before it are the digits of what is left.
pub proof fn keys_are_lowercase_hexadecimal(n: nat, width: nat, i: int)
    requires
        0 <= i < width,
    ensures
        context::hex(n, width).len() == width,
        hex_digit_value(context::hex(n, width).last()) == n % 16,
        context::hex(n, width).drop_last() == context::hex(n / 16, (width - 1) as nat),
        '0' <= context::hex(n, width)[i] <= '9' || 'a' <= context::hex(n, width)[i] <= 'f',
    decreases width,
{
    hex_digits_are_counted(n, width);
    let before = context::hex(n / 16, (width - 1) as nat);
    assert(context::hex(n, width).drop_last() =~= before);
    if i < width - 1 {
        keys_are_lowercase_hexadecimal(n / 16, (width - 1) as nat, i);
        assert(context::hex(n, width)[i] == before[i]);
    }
}

} // verus!
