//! The status trailer: git state, time, tool counters and the todo list.
use crate::contract::context::{InstructionFile, TodoItem, TodoItemView, TodoStatus};
use crate::contract::message::ToolCall;
use crate::copies::clone_option;
use crate::text;
use vstd::prelude::*;

verus! {

/// How often a tool was executed.
#[derive(Debug, PartialEq, Eq)]
pub struct ToolCount {
    pub name: String,
    pub count: usize,
}

/// What a [`ToolCount`] holds.
#[verifier::ext_equal]
pub struct ToolCountView {
    pub name: Seq<char>,
    pub count: usize,
}

impl View for ToolCount {
    type V = ToolCountView;

    open spec fn view(&self) -> ToolCountView {
        ToolCountView {
            name: self.name@,
            count: self.count,
        }
    }
}

impl DeepView for ToolCount {
    type V = ToolCountView;

    open spec fn deep_view(&self) -> ToolCountView {
        self@
    }
}

impl Clone for ToolCount {
    fn clone(&self) -> (r: Self)
        ensures
            r@ == self@,
    {
        ToolCount {
            name: self.name.clone(),
            count: self.count,
        }
    }
}

/// Git facts in the trailer: bounded scalars only.
#[derive(Debug, PartialEq, Eq)]
pub struct GitStatus {
    pub branch: String,
    pub dirty_count: usize,
}

/// What a [`GitStatus`] holds.
#[verifier::ext_equal]
pub struct GitStatusView {
    pub branch: Seq<char>,
    pub dirty_count: usize,
}

impl View for GitStatus {
    type V = GitStatusView;

    open spec fn view(&self) -> GitStatusView {
        GitStatusView {
            branch: self.branch@,
            dirty_count: self.dirty_count,
        }
    }
}

impl DeepView for GitStatus {
    type V = GitStatusView;

    open spec fn deep_view(&self) -> GitStatusView {
        self@
    }
}

impl Clone for GitStatus {
    fn clone(&self) -> (r: Self)
        ensures
            r@ == self@,
    {
        GitStatus {
            branch: self.branch.clone(),
            dirty_count: self.dirty_count,
        }
    }
}

/// When a request is rendered.
#[derive(Debug, Clone, Copy, PartialEq, Eq, Structural)]
pub struct TrailerTime {
    pub now_ms: u64,
    pub run_start_ms: u64,
    /// Seconds east of UTC.
    pub offset_seconds: i32,
}

/// The trailer's inputs: the run-static cwd, the probed git state, the time,
/// and the folded tool counters and todo list.
pub struct TrailerView<'a> {
    pub cwd: &'a str,
    pub git: Option<GitStatus>,
    /// `None` leaves the time line out.
    pub time: Option<TrailerTime>,
    pub tool_counts: &'a Vec<ToolCount>,
    pub todos: &'a Vec<TodoItem>,
}

/// The first position whose name does not come before `name`.
pub open spec fn counter_slot(counts: Seq<ToolCountView>, name: Seq<char>) -> int
    decreases counts.len(),
{
    if counts.len() == 0 || !text::precedes(counts[0].name, name) {
        0
    } else {
        1 + counter_slot(counts.drop_first(), name)
    }
}

/// The counters after one more execution of `name`; they stay in the order
/// of their names.
pub open spec fn counted(counts: Seq<ToolCountView>, name: Seq<char>) -> Seq<ToolCountView> {
    let at = counter_slot(counts, name);
    if at < counts.len() && counts[at].name == name {
        counts.update(
            at,
            ToolCountView { name, count: (counts[at].count + 1) as usize },
        )
    } else {
        counts.insert(at, ToolCountView { name, count: 1 })
    }
}

/// In the order of the names, each name once.
pub open spec fn in_name_order(counts: Seq<ToolCountView>) -> bool {
    forall|i: int, j: int|
        0 <= i < j < counts.len() ==> text::precedes(
            (#[trigger] counts[i]).name,
            (#[trigger] counts[j]).name,
        )
}

proof fn counter_slot_is(counts: Seq<ToolCountView>, name: Seq<char>, at: int)
    requires
        0 <= at <= counts.len(),
        forall|j: int| 0 <= j < at ==> text::precedes((#[trigger] counts[j]).name, name),
        at < counts.len() ==> !text::precedes(counts[at].name, name),
    ensures
        counter_slot(counts, name) == at,
    decreases counts.len(),
{
    if at > 0 {
        let rest = counts.drop_first();
        assert(text::precedes(counts[0].name, name));
        assert forall|j: int| 0 <= j < at - 1 implies text::precedes((#[trigger] rest[j]).name, name) by {
            assert(rest[j] == counts[j + 1]);
        }
        counter_slot_is(rest, name, at - 1);
    }
}

pub proof fn counter_slot_bounds(counts: Seq<ToolCountView>, name: Seq<char>)
    ensures
        0 <= counter_slot(counts, name) <= counts.len(),
        forall|j: int|
            0 <= j < counter_slot(counts, name) ==> text::precedes((#[trigger] counts[j]).name, name),
        counter_slot(counts, name) < counts.len() ==> !text::precedes(
            counts[counter_slot(counts, name)].name,
            name,
        ),
    decreases counts.len(),
{
    if counts.len() > 0 && text::precedes(counts[0].name, name) {
        let rest = counts.drop_first();
        counter_slot_bounds(rest, name);
        let at = counter_slot(counts, name);
        assert forall|j: int| 0 <= j < at implies text::precedes((#[trigger] counts[j]).name, name) by {
            if j > 0 {
                assert(rest[j - 1] == counts[j]);
            }
        }
        if at < counts.len() {
            assert(rest[at - 1] == counts[at]);
        }
    }
}

/// Counting keeps the counters in name order, with each name once.
pub proof fn counters_stay_in_name_order(counts: Seq<ToolCountView>, name: Seq<char>)
    requires
        in_name_order(counts),
    ensures
        in_name_order(counted(counts, name)),
{
    let at = counter_slot(counts, name);
    counter_slot_bounds(counts, name);
    let after = counted(counts, name);
    if at < counts.len() && counts[at].name == name {
        assert forall|i: int, j: int| 0 <= i < j < after.len() implies text::precedes(
            (#[trigger] after[i]).name,
            (#[trigger] after[j]).name,
        ) by {
            assert(after[i].name == counts[i].name);
            assert(after[j].name == counts[j].name);
        }
    } else {
        if at < counts.len() {
            text::precedes_is_total(counts[at].name, name);
        }
        assert forall|i: int, j: int| 0 <= i < j < after.len() implies text::precedes(
            (#[trigger] after[i]).name,
            (#[trigger] after[j]).name,
        ) by {
            if i < at {
                assert(after[i] == counts[i]);
                if j < at {
                    assert(after[j] == counts[j]);
                } else if j > at {
                    assert(after[j] == counts[j - 1]);
                }
            } else {
                assert(after[j] == counts[j - 1]);
                if i > at {
                    assert(after[i] == counts[i - 1]);
                } else if j - 1 > at {
                    assert(text::precedes(counts[at].name, counts[j - 1].name));
                    text::precedes_is_transitive(name, counts[at].name, counts[j - 1].name);
                }
            }
        }
    }
}

/// Counts one more execution of `name`.
pub fn count_execution(counts: &mut Vec<ToolCount>, name: &str)
    requires
        forall|i: int|
            0 <= i < old(counts).deep_view().len() ==> (#[trigger] old(
                counts,
            ).deep_view()[i]).count < usize::MAX,
    ensures
        final(counts).deep_view() == counted(old(counts).deep_view(), name@),
{
    let ghost before = counts.deep_view();
    let mut at: usize = 0;
    while at < counts.len() && text::comes_before(counts[at].name.as_str(), name)
        invariant
            at <= counts.len(),
            before == counts.deep_view(),
            forall|j: int| 0 <= j < at ==> text::precedes((#[trigger] before[j]).name, name@),
        decreases counts.len() - at,
    {
        assert(before[at as int] == counts[at as int]@);
        at += 1;
    }
    proof {
        if at < counts.len() {
            assert(before[at as int] == counts[at as int]@);
        }
        counter_slot_is(before, name@, at as int);
    }
    if at < counts.len() && text::same(counts[at].name.as_str(), name) {
        let count: usize = counts[at].count + 1;
        let entry = ToolCount { name: name.to_owned(), count };
        counts.set(at, entry);
        assert(counts.deep_view() =~= before.update(at as int, entry@));
    } else {
        let entry = ToolCount { name: name.to_owned(), count: 1 };
        counts.insert(at, entry);
        assert(counts.deep_view() =~= before.insert(at as int, entry@));
    }
}

/// A point in time at an offset, in the format of RFC 3339; `None` where the
/// calendar does not reach.
pub uninterp spec fn rfc3339(seconds: i64, offset_seconds: i32) -> Option<Seq<char>>;

/// `time::OffsetDateTime::from_unix_timestamp`, moved to an offset by
/// `checked_to_offset` and written by `format` with the well-known RFC 3339
/// format. What comes out depends on the two numbers alone and is named
/// [`rfc3339`].
#[verifier::external_body]
fn show_time(seconds: i64, offset_seconds: i32) -> (r: Option<String>)
    ensures
        r.deep_view() == rfc3339(seconds, offset_seconds),
{
    let offset = time::UtcOffset::from_whole_seconds(offset_seconds).ok()?;
    let at = time::OffsetDateTime::from_unix_timestamp(seconds).ok()?;
    at.checked_to_offset(offset)?.format(&time::format_description::well_known::Rfc3339).ok()
}

/// `time::UtcOffset::from_whole_seconds` accepts what is within twenty-five
/// hours, fifty-nine minutes and fifty-nine seconds of UTC.
#[verifier::external_body]
fn is_offset(seconds: i32) -> (r: bool)
    ensures
        r == (-93_599 <= seconds <= 93_599),
{
    time::UtcOffset::from_whole_seconds(seconds).is_ok()
}

/// The offset of a clock in seconds: an offset that no place has is UTC.
pub open spec fn clock_offset(minutes: i32) -> i32 {
    if -93_599 <= minutes * 60 <= 93_599 {
        (minutes * 60) as i32
    } else {
        0
    }
}

/// The offset of a clock in seconds.
pub fn offset_seconds(minutes: i32) -> (r: i32)
    ensures
        r == clock_offset(minutes),
{
    let seconds: i32 = if minutes > i32::MAX / 60 {
        i32::MAX
    } else if minutes < i32::MIN / 60 {
        i32::MIN
    } else {
        minutes * 60
    };
    if is_offset(seconds) {
        seconds
    } else {
        0
    }
}

/// The whole seconds that a run has lasted.
pub open spec fn elapsed_seconds(time: TrailerTime) -> nat {
    if time.now_ms >= time.run_start_ms {
        ((time.now_ms - time.run_start_ms) / 1000) as nat
    } else {
        0
    }
}

/// The time line for a time that is shown as given; none where it cannot be
/// shown.
pub open spec fn shown_line(shown: Option<Seq<char>>, time: TrailerTime) -> Seq<char> {
    match shown {
        Some(shown) => "time: "@ + shown + " (run elapsed "@ + text::decimal(
            elapsed_seconds(time),
        ) + "s)\n"@,
        None => Seq::empty(),
    }
}

/// The time line of a trailer.
pub open spec fn time_line(time: Option<TrailerTime>) -> Seq<char> {
    match time {
        Some(time) => shown_line(
            rfc3339((time.now_ms / 1000) as i64, time.offset_seconds),
            time,
        ),
        None => Seq::empty(),
    }
}

/// The git line of a trailer.
pub open spec fn git_line(git: Option<GitStatusView>) -> Seq<char> {
    match git {
        Some(git) => if git.dirty_count == 0 {
            "git: "@ + git.branch + ", clean\n"@
        } else {
            "git: "@ + git.branch + ", dirty("@ + text::decimal(git.dirty_count as nat) + ")\n"@
        },
        None => Seq::empty(),
    }
}

/// The counters of a trailer, before the line's end.
pub open spec fn count_list(counts: Seq<ToolCountView>) -> Seq<char>
    decreases counts.len(),
{
    if counts.len() == 0 {
        Seq::empty()
    } else {
        count_list(counts.drop_last()) + (if counts.len() > 1 {
            ", "@
        } else {
            Seq::empty()
        }) + counts.last().name + ": "@ + text::decimal(counts.last().count as nat)
    }
}

/// The tools line of a trailer.
pub open spec fn tools_line(counts: Seq<ToolCountView>) -> Seq<char> {
    if counts.len() == 0 {
        Seq::empty()
    } else {
        "tools: "@ + count_list(counts) + "\n"@
    }
}

/// The box in front of a todo item.
pub open spec fn todo_marker(status: TodoStatus) -> Seq<char> {
    match status {
        TodoStatus::Pending => "[ ]"@,
        TodoStatus::InProgress => "[>]"@,
        TodoStatus::Completed => "[x]"@,
    }
}

/// The line of one todo item.
pub open spec fn todo_line(item: TodoItemView) -> Seq<char> {
    "  "@ + todo_marker(item.status) + " "@ + text::trimmed(item.content) + "\n"@
}

/// The lines of all todo items.
pub open spec fn todo_lines(items: Seq<TodoItemView>) -> Seq<char>
    decreases items.len(),
{
    if items.len() == 0 {
        Seq::empty()
    } else {
        todo_lines(items.drop_last()) + todo_line(items.last())
    }
}

/// The todo block of a trailer.
pub open spec fn todo_block(items: Seq<TodoItemView>) -> Seq<char> {
    if items.len() == 0 {
        Seq::empty()
    } else {
        "todo:\n"@ + todo_lines(items)
    }
}

/// The status trailer.
pub open spec fn trailer_text(
    cwd: Seq<char>,
    git: Option<GitStatusView>,
    time: Option<TrailerTime>,
    counts: Seq<ToolCountView>,
    todos: Seq<TodoItemView>,
) -> Seq<char> {
    "[cadmus status]\ncwd: "@ + cwd + "\n"@ + git_line(git) + time_line(time) + tools_line(counts)
        + todo_block(todos)
}

/// The time line for a time that is shown as given.
pub fn render_shown(shown: Option<String>, time: &TrailerTime) -> (r: String)
    ensures
        r@ == shown_line(shown.deep_view(), *time),
{
    match shown {
        Some(shown) => {
            let mut out = text::prefixed("time: ", shown.as_str());
            out.append(" (run elapsed ");
            let elapsed: u64 = time.now_ms.saturating_sub(time.run_start_ms) / 1000;
            out.append(text::decimal_of(elapsed).as_str());
            out.append("s)\n");
            out
        },
        None => String::new(),
    }
}

/// The time line of a trailer.
fn render_time(time: &Option<TrailerTime>) -> (r: String)
    ensures
        r@ == time_line(*time),
{
    match time {
        Some(time) => {
            let seconds: i64 = (time.now_ms / 1000) as i64;
            render_shown(show_time(seconds, time.offset_seconds), time)
        },
        None => String::new(),
    }
}

/// The git line of a trailer.
fn render_git(git: &Option<GitStatus>) -> (r: String)
    ensures
        r@ == git_line(git.deep_view()),
{
    match git {
        Some(git) => {
            let mut out = text::prefixed("git: ", git.branch.as_str());
            if git.dirty_count == 0 {
                out.append(", clean\n");
            } else {
                out.append(", dirty(");
                out.append(text::decimal_of(git.dirty_count as u64).as_str());
                out.append(")\n");
            }
            out
        },
        None => String::new(),
    }
}

/// The tools line of a trailer.
fn render_counts(counts: &Vec<ToolCount>) -> (r: String)
    ensures
        r@ == tools_line(counts.deep_view()),
{
    if counts.len() == 0 {
        return String::new();
    }
    let ghost all = counts.deep_view();
    let mut list = String::new();
    let mut i: usize = 0;
    while i < counts.len()
        invariant
            i <= counts.len(),
            all == counts.deep_view(),
            list@ == count_list(all.take(i as int)),
        decreases counts.len() - i,
    {
        let ghost now = all.take(i as int + 1);
        assert(now.drop_last() =~= all.take(i as int));
        assert(now.last() == counts[i as int]@);
        if i > 0 {
            list.append(", ");
        } else {
            assert(list@ + Seq::<char>::empty() =~= list@);
        }
        list.append(counts[i].name.as_str());
        list.append(": ");
        list.append(text::decimal_of(counts[i].count as u64).as_str());
        i += 1;
    }
    assert(all.take(i as int) =~= all);
    let mut out = text::prefixed("tools: ", list.as_str());
    out.append("\n");
    out
}

/// The todo block of a trailer.
fn render_todos(todos: &Vec<TodoItem>) -> (r: String)
    ensures
        r@ == todo_block(todos.deep_view()),
{
    if todos.len() == 0 {
        return String::new();
    }
    let ghost all = todos.deep_view();
    let mut lines = String::new();
    let mut i: usize = 0;
    while i < todos.len()
        invariant
            i <= todos.len(),
            all == todos.deep_view(),
            lines@ == todo_lines(all.take(i as int)),
        decreases todos.len() - i,
    {
        let marker = match todos[i].status {
            TodoStatus::Pending => "[ ]",
            TodoStatus::InProgress => "[>]",
            TodoStatus::Completed => "[x]",
        };
        let mut line = text::prefixed("  ", marker);
        line.append(" ");
        line.append(text::trim(todos[i].content.as_str()).as_str());
        line.append("\n");
        lines.append(line.as_str());
        i += 1;
        assert(all.take(i as int).drop_last() =~= all.take(i as int - 1));
        assert(all.take(i as int).last() == todos[i as int - 1]@);
    }
    assert(all.take(i as int) =~= all);
    text::prefixed("todo:\n", lines.as_str())
}

/// Renders the status trailer that ends every request and never enters the
/// history.
pub fn render_trailer(view: &TrailerView) -> (r: String)
    ensures
        r@ == trailer_text(
            view.cwd@,
            view.git.deep_view(),
            view.time,
            view.tool_counts.deep_view(),
            view.todos.deep_view(),
        ),
{
    let mut out = text::prefixed("[cadmus status]\ncwd: ", view.cwd);
    out.append("\n");
    out.append(render_git(&view.git).as_str());
    out.append(render_time(&view.time).as_str());
    out.append(render_counts(view.tool_counts).as_str());
    out.append(render_todos(view.todos).as_str());
    out
}

/// The per-turn freshness probe.
pub trait StatusProbe: Send + Sync {
    /// `None` where there is no git work tree: the trailer omits the git
    /// line.
    fn snapshot(&self) -> Option<GitStatus>;
}

/// The no-git probe for hermetic contexts.
pub struct NoProbe;

impl StatusProbe for NoProbe {
    fn snapshot(&self) -> (r: Option<GitStatus>)
        ensures
            r is None,
    {
        None
    }
}

/// A probe with a fixed answer.
pub struct FixedProbe(pub Option<GitStatus>);

impl StatusProbe for FixedProbe {
    fn snapshot(&self) -> (r: Option<GitStatus>)
        ensures
            r.deep_view() == self.0.deep_view(),
    {
        clone_option(&self.0)
    }
}

/// Watches tool calls for newly-entered subtrees that carry their own
/// instruction file.
pub trait InstructionTracker: Send + Sync {
    fn on_calls(&self, calls: &[ToolCall]) -> Vec<InstructionFile>;
}

/// The no-op tracker for hermetic contexts.
pub struct NoInstructions;

impl InstructionTracker for NoInstructions {
    fn on_calls(&self, calls: &[ToolCall]) -> (r: Vec<InstructionFile>)
        ensures
            r.len() == 0,
    {
        Vec::new()
    }
}

} // verus!
