//! The frozen prefix, the trailer and injected instructions.
use cadmus::json::Value;
use cadmus::runtime::context::{format_injected, prefix_hash, spec_json, FrozenPrefix, SYSTEM_PROMPT};
use cadmus::runtime::trailer::{
    count_execution, offset_seconds, render_shown, render_trailer, GitStatus, ToolCount,
    TrailerTime, TrailerView,
};
use cadmus::{ContentPart, InstructionFile, Message, Role, TodoItem, TodoStatus, ToolSpec};

fn file(path: &str, content: &str) -> InstructionFile {
    InstructionFile {
        path: path.into(),
        content: content.into(),
    }
}

fn spec(name: &str) -> ToolSpec {
    ToolSpec {
        name: name.into(),
        description: format!("{name} tool"),
        parameters: Value::parse("{\"type\": \"object\"}").expect("valid JSON"),
    }
}

#[test]
fn prefix_without_instructions_is_the_prompt_alone() {
    let prefix = FrozenPrefix::assemble("PROMPT", &vec![], &vec![spec("read_file")]);
    let Message { role, content, .. } = prefix.message();
    assert_eq!(role, Role::System);
    assert!(matches!(&content[..], [ContentPart::Text { text }] if text == "PROMPT"));
}

#[test]
fn prefix_assembly_is_snapshot_locked() {
    let prefix = FrozenPrefix::assemble(
        SYSTEM_PROMPT,
        &vec![
            file("/home/u/.config/cadmus/AGENTS.md", "global rules\n"),
            file("/repo/AGENTS.md", "project rules"),
        ],
        &vec![spec("read_file"), spec("edit_file")],
    );
    assert_eq!(prefix.hash(), "958ef9aebc18938b");
    assert_eq!(
        prefix.record().system.trim_end(),
        "You are Cadmus, a coding agent working in a terminal workspace.

Working discipline:
- Verify before you claim done: run the build, tests or checks that prove the change works; never report success on assumption.
- Tool errors are corrections, not failures: read the feedback, adjust, and retry with a better approach.
- Read before you write: understand the existing code and its conventions before changing them; match the style you find.
- Keep changes minimal and scoped to the task; do not refactor what is not broken.
- Never abandon a broken intermediate state: finish the change or revert it, so the workspace is never left worse than you found it.
- When a task is unclear or has multiple valid interpretations, ask instead of guessing.

A status block maintained by code (never by you) ends every request: cwd, git state, tool counters and the task list. Trust it over your own recollection of these facts.

# Workspace instructions

Instruction files applying to this workspace, in precedence order: a file nearer the edited path wins on conflict, and the user's explicit prompt wins over everything.

## /home/u/.config/cadmus/AGENTS.md

global rules

## /repo/AGENTS.md

project rules"
    );
    assert_eq!(
        prefix.record().instructions,
        vec![
            file("/home/u/.config/cadmus/AGENTS.md", "global rules\n"),
            file("/repo/AGENTS.md", "project rules"),
        ]
    );
}

#[test]
fn hash_is_sensitive_to_every_prefix_input() {
    let base = FrozenPrefix::assemble("P", &vec![file("/a", "x")], &vec![spec("t")]);
    let prompt_changed = FrozenPrefix::assemble("Q", &vec![file("/a", "x")], &vec![spec("t")]);
    let file_changed = FrozenPrefix::assemble("P", &vec![file("/a", "y")], &vec![spec("t")]);
    let tool_changed = FrozenPrefix::assemble("P", &vec![file("/a", "x")], &vec![spec("u")]);
    assert_ne!(base.hash(), prompt_changed.hash());
    assert_ne!(base.hash(), file_changed.hash());
    assert_ne!(base.hash(), tool_changed.hash());
    // … and stable for identical inputs.
    assert_eq!(
        base.hash(),
        FrozenPrefix::assemble("P", &vec![file("/a", "x")], &vec![spec("t")]).hash()
    );
}

#[test]
fn trailer_render_is_snapshot_locked() {
    let counts = vec![
        ToolCount {
            name: "edit_file".into(),
            count: 1,
        },
        ToolCount {
            name: "read_file".into(),
            count: 3,
        },
    ];
    let todos = vec![
        TodoItem {
            content: "done thing".into(),
            status: TodoStatus::Completed,
            active_form: None,
        },
        TodoItem {
            content: "doing thing".into(),
            status: TodoStatus::InProgress,
            active_form: Some("doing the thing".into()),
        },
        TodoItem {
            content: "pending thing".into(),
            status: TodoStatus::Pending,
            active_form: None,
        },
    ];
    let full = render_trailer(&TrailerView {
        cwd: "/repo",
        git: Some(GitStatus {
            branch: "main".into(),
            dirty_count: 2,
        }),
        time: None,
        tool_counts: &counts,
        todos: &todos,
    });
    assert_eq!(
        full.trim_end(),
        "[cadmus status]
cwd: /repo
git: main, dirty(2)
tools: edit_file: 1, read_file: 3
todo:
  [x] done thing
  [>] doing thing
  [ ] pending thing"
    );

    let minimal = render_trailer(&TrailerView {
        cwd: "/repo",
        git: None,
        time: None,
        tool_counts: &vec![],
        todos: &vec![],
    });
    assert_eq!(minimal.trim_end(), "[cadmus status]\ncwd: /repo");

    let clean = render_trailer(&TrailerView {
        cwd: "/repo",
        git: Some(GitStatus {
            branch: "main".into(),
            dirty_count: 0,
        }),
        time: None,
        tool_counts: &vec![],
        todos: &vec![],
    });
    assert_eq!(
        clean.trim_end(),
        "[cadmus status]\ncwd: /repo\ngit: main, clean"
    );
}

#[test]
fn injected_message_text_is_stable() {
    let text = format_injected(&file("/repo/crates/x/AGENTS.md", "crate rules\n"));
    assert_eq!(
        text.trim_end(),
        "Entered a new subtree; its instruction file now applies (nearest-file precedence):

## /repo/crates/x/AGENTS.md

crate rules"
    );
}

#[test]
fn the_time_line_shows_the_clock_at_its_offset() {
    let rendered = render_trailer(&TrailerView {
        cwd: "/repo",
        git: None,
        time: Some(TrailerTime {
            now_ms: 1_788_393_600_000,
            run_start_ms: 1_788_393_597_500,
            offset_seconds: offset_seconds(480),
        }),
        tool_counts: &vec![],
        todos: &vec![],
    });
    assert!(
        rendered.contains("time: 2026-09-03T08:00:00+08:00 (run elapsed 2s)"),
        "{rendered}"
    );
}

#[test]
fn offsets_that_no_place_has_are_utc() {
    assert_eq!(offset_seconds(480), 28_800);
    assert_eq!(offset_seconds(-210), -12_600);
    assert_eq!(offset_seconds(1_559), 93_540);
    assert_eq!(offset_seconds(1_560), 0);
    assert_eq!(offset_seconds(i32::MAX), 0);
    assert_eq!(offset_seconds(i32::MIN), 0);
}

#[test]
fn a_time_that_cannot_be_shown_leaves_its_line_out() {
    let time = TrailerTime {
        now_ms: 5_000,
        run_start_ms: 9_000,
        offset_seconds: 0,
    };
    assert_eq!(render_shown(None, &time), "");
    assert_eq!(
        render_shown(Some("T".into()), &time),
        "time: T (run elapsed 0s)\n"
    );
    let never = render_trailer(&TrailerView {
        cwd: "/repo",
        git: None,
        time: Some(TrailerTime {
            now_ms: u64::MAX,
            run_start_ms: 0,
            offset_seconds: 0,
        }),
        tool_counts: &vec![],
        todos: &vec![],
    });
    assert!(!never.contains("time:"), "{never}");
}

#[test]
fn counters_stay_in_name_order() {
    let mut counts = vec![];
    for name in ["grep", "edit", "zip", "grep", "edit", "grep"] {
        count_execution(&mut counts, name);
    }
    let shown: Vec<(String, usize)> = counts.into_iter().map(|c| (c.name, c.count)).collect();
    assert_eq!(
        shown,
        [
            ("edit".to_string(), 2),
            ("grep".to_string(), 3),
            ("zip".to_string(), 1)
        ]
    );
}

#[test]
fn tool_specs_enter_the_hash_as_json() {
    assert_eq!(
        spec_json(&spec("a\"b")),
        "{\"name\":\"a\\\"b\",\"description\":\"a\\\"b tool\",\"parameters\":{\"type\":\"object\"}}"
    );
    assert_eq!(prefix_hash("", &vec![]), "cbf29ce484222325");
    assert_eq!(prefix_hash("a", &vec![]), "af63dc4c8601ec8c");
}
