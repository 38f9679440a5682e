//! The frozen-prefix record and the todo-list vocabulary.
use crate::copies::{clone_vec};
use vstd::prelude::*;

verus! {

/// One workspace-instruction file: part of the frozen prefix, or injected
/// mid-run when the agent first touches its subtree.
#[derive(Debug, PartialEq, Eq)]
pub struct InstructionFile {
    /// Absolute path, for provenance only; the content travels inline.
    pub path: String,
    pub content: String,
}

/// What a [`InstructionFile`] holds.
#[verifier::ext_equal]
pub struct InstructionFileView {
    pub path: Seq<char>,
    pub content: Seq<char>,
}

impl View for InstructionFile {
    type V = InstructionFileView;

    open spec fn view(&self) -> InstructionFileView {
        InstructionFileView {
            path: self.path@,
            content: self.content@,
        }
    }
}

impl DeepView for InstructionFile {
    type V = InstructionFileView;

    open spec fn deep_view(&self) -> InstructionFileView {
        self@
    }
}

impl Clone for InstructionFile {
    fn clone(&self) -> (r: Self)
        ensures
            r@ == self@,
    {
        InstructionFile {
            path: self.path.clone(),
            content: self.content.clone(),
        }
    }
}

/// One skill's catalog entry.
#[derive(Debug, PartialEq, Eq)]
pub struct SkillSummary {
    pub name: String,
    pub description: String,
}

/// What a [`SkillSummary`] holds.
#[verifier::ext_equal]
pub struct SkillSummaryView {
    pub name: Seq<char>,
    pub description: Seq<char>,
}

impl View for SkillSummary {
    type V = SkillSummaryView;

    open spec fn view(&self) -> SkillSummaryView {
        SkillSummaryView {
            name: self.name@,
            description: self.description@,
        }
    }
}

impl DeepView for SkillSummary {
    type V = SkillSummaryView;

    open spec fn deep_view(&self) -> SkillSummaryView {
        self@
    }
}

impl Clone for SkillSummary {
    fn clone(&self) -> (r: Self)
        ensures
            r@ == self@,
    {
        SkillSummary {
            name: self.name.clone(),
            description: self.description.clone(),
        }
    }
}

/// The frozen prefix as recorded on the start-run command.
#[derive(Debug, PartialEq, Eq)]
pub struct PrefixRecord {
    /// Change-detection key over the assembled bytes plus the tool specs.
    pub hash: String,
    /// The assembled system-message text, exactly as sent.
    pub system: String,
    pub instructions: Vec<InstructionFile>,
    pub skills: Vec<SkillSummary>,
}

/// What a [`PrefixRecord`] holds.
#[verifier::ext_equal]
pub struct PrefixRecordView {
    pub hash: Seq<char>,
    pub system: Seq<char>,
    pub instructions: Seq<InstructionFileView>,
    pub skills: Seq<SkillSummaryView>,
}

impl View for PrefixRecord {
    type V = PrefixRecordView;

    open spec fn view(&self) -> PrefixRecordView {
        PrefixRecordView {
            hash: self.hash@,
            system: self.system@,
            instructions: self.instructions.deep_view(),
            skills: self.skills.deep_view(),
        }
    }
}

impl DeepView for PrefixRecord {
    type V = PrefixRecordView;

    open spec fn deep_view(&self) -> PrefixRecordView {
        self@
    }
}

impl Clone for PrefixRecord {
    fn clone(&self) -> (r: Self)
        ensures
            r@ == self@,
    {
        PrefixRecord {
            hash: self.hash.clone(),
            system: self.system.clone(),
            instructions: clone_vec(&self.instructions),
            skills: clone_vec(&self.skills),
        }
    }
}

/// Progress of a todo item.
#[derive(Debug, Clone, Copy, PartialEq, Eq, Structural)]
pub enum TodoStatus {
    Pending,
    InProgress,
    Completed,
}

/// One todo-list item, stored and rendered verbatim.
#[derive(Debug, PartialEq, Eq)]
pub struct TodoItem {
    /// The task, imperative wording.
    pub content: String,
    pub status: TodoStatus,
    /// Present-continuous wording for the in-progress display; the status
    /// trailer ignores it.
    pub active_form: Option<String>,
}

/// What a [`TodoItem`] holds.
#[verifier::ext_equal]
pub struct TodoItemView {
    pub content: Seq<char>,
    pub status: TodoStatus,
    pub active_form: Option<Seq<char>>,
}

impl View for TodoItem {
    type V = TodoItemView;

    open spec fn view(&self) -> TodoItemView {
        TodoItemView {
            content: self.content@,
            status: self.status,
            active_form: self.active_form.deep_view(),
        }
    }
}

impl DeepView for TodoItem {
    type V = TodoItemView;

    open spec fn deep_view(&self) -> TodoItemView {
        self@
    }
}

impl Clone for TodoItem {
    fn clone(&self) -> (r: Self)
        ensures
            r@ == self@,
    {
        TodoItem {
            content: self.content.clone(),
            status: self.status,
            active_form: self.active_form.clone(),
        }
    }
}

} // verus!
