//! The eval set: scenario cases and score files.
use crate::contract::event::{ScoreEvent, ScoreEventView};
use crate::copies::clone_vec;
use vstd::prelude::*;

verus! {

/// The isolation label of a case.
#[derive(Debug, Clone, Copy, PartialEq, Eq, Structural)]
pub enum EvalSplit {
    Search,
    Holdout,
}

/// The attribute value of a split.
pub open spec fn split_text(split: EvalSplit) -> Seq<char> {
    match split {
        EvalSplit::Search => "search"@,
        EvalSplit::Holdout => "holdout"@,
    }
}

impl EvalSplit {
    /// The `selfevol.eval_split` attribute value.
    pub fn as_attr(self) -> (r: &'static str)
        ensures
            r@ == split_text(self),
    {
        match self {
            EvalSplit::Search => "search",
            EvalSplit::Holdout => "holdout",
        }
    }
}

/// One scored expectation.
#[derive(Debug, PartialEq, Eq)]
pub enum Expectation {
    /// The run finished with status ok.
    RunCompleted,
    /// The final assistant message's text contains the needle, verbatim.
    AnswerContains {
        needle: String,
    },
    /// The named tool was invoked at least once.
    ToolCalled {
        name: String,
    },
    /// Completed turns stayed within the budget.
    TurnsWithin {
        max: u32,
    },
}

/// What a [`Expectation`] holds.
#[verifier::ext_equal]
pub enum ExpectationView {
    RunCompleted,
    AnswerContains { needle: Seq<char> },
    ToolCalled { name: Seq<char> },
    TurnsWithin { max: u32 },
}

impl View for Expectation {
    type V = ExpectationView;

    open spec fn view(&self) -> ExpectationView {
        match *self {
            Expectation::RunCompleted => ExpectationView::RunCompleted,
            Expectation::AnswerContains { needle } => ExpectationView::AnswerContains {
                needle: needle@,
            },
            Expectation::ToolCalled { name } => ExpectationView::ToolCalled {
                name: name@,
            },
            Expectation::TurnsWithin { max } => ExpectationView::TurnsWithin {
                max,
            },
        }
    }
}

impl DeepView for Expectation {
    type V = ExpectationView;

    open spec fn deep_view(&self) -> ExpectationView {
        self@
    }
}

impl Clone for Expectation {
    fn clone(&self) -> (r: Self)
        ensures
            r@ == self@,
    {
        match self {
            Expectation::RunCompleted => Expectation::RunCompleted,
            Expectation::AnswerContains { needle } => Expectation::AnswerContains {
                needle: needle.clone(),
            },
            Expectation::ToolCalled { name } => Expectation::ToolCalled {
                name: name.clone(),
            },
            Expectation::TurnsWithin { max } => Expectation::TurnsWithin {
                max: *max,
            },
        }
    }
}

/// The stable metric name of an expectation.
pub open spec fn metric(expectation: ExpectationView) -> Seq<char> {
    match expectation {
        ExpectationView::RunCompleted => "run_completed"@,
        ExpectationView::AnswerContains { .. } => "answer_contains"@,
        ExpectationView::ToolCalled { .. } => "tool_called"@,
        ExpectationView::TurnsWithin { .. } => "turns_within"@,
    }
}

impl Expectation {
    /// The stable [`ScoreEvent::metric`] value.
    pub fn metric_name(&self) -> (r: &'static str)
        ensures
            r@ == metric(self@),
    {
        match self {
            Expectation::RunCompleted => "run_completed",
            Expectation::AnswerContains { .. } => "answer_contains",
            Expectation::ToolCalled { .. } => "tool_called",
            Expectation::TurnsWithin { .. } => "turns_within",
        }
    }
}

/// One scenario case: a prompt run against a fixture workspace.
#[derive(Debug, PartialEq, Eq)]
pub struct EvalCase {
    pub id: String,
    pub split: EvalSplit,
    pub fixture: String,
    pub prompt: String,
    pub note: Option<String>,
    /// Every expectation scores independently.
    pub expect: Vec<Expectation>,
}

/// What a [`EvalCase`] holds.
#[verifier::ext_equal]
pub struct EvalCaseView {
    pub id: Seq<char>,
    pub split: EvalSplit,
    pub fixture: Seq<char>,
    pub prompt: Seq<char>,
    pub note: Option<Seq<char>>,
    pub expect: Seq<ExpectationView>,
}

impl View for EvalCase {
    type V = EvalCaseView;

    open spec fn view(&self) -> EvalCaseView {
        EvalCaseView {
            id: self.id@,
            split: self.split,
            fixture: self.fixture@,
            prompt: self.prompt@,
            note: self.note.deep_view(),
            expect: self.expect.deep_view(),
        }
    }
}

impl DeepView for EvalCase {
    type V = EvalCaseView;

    open spec fn deep_view(&self) -> EvalCaseView {
        self@
    }
}

impl Clone for EvalCase {
    fn clone(&self) -> (r: Self)
        ensures
            r@ == self@,
    {
        EvalCase {
            id: self.id.clone(),
            split: self.split,
            fixture: self.fixture.clone(),
            prompt: self.prompt.clone(),
            note: self.note.clone(),
            expect: clone_vec(&self.expect),
        }
    }
}

/// One case's outcome in a full-set run.
#[derive(Debug, PartialEq, Eq)]
pub struct CaseResult {
    pub case_id: String,
    pub split: EvalSplit,
    pub trace_id: String,
    /// One entry per expectation, in the case's order.
    pub scores: Vec<ScoreEvent>,
    /// Every expectation held.
    pub passed: bool,
}

/// What a [`CaseResult`] holds.
#[verifier::ext_equal]
pub struct CaseResultView {
    pub case_id: Seq<char>,
    pub split: EvalSplit,
    pub trace_id: Seq<char>,
    pub scores: Seq<ScoreEventView>,
    pub passed: bool,
}

impl View for CaseResult {
    type V = CaseResultView;

    open spec fn view(&self) -> CaseResultView {
        CaseResultView {
            case_id: self.case_id@,
            split: self.split,
            trace_id: self.trace_id@,
            scores: self.scores.deep_view(),
            passed: self.passed,
        }
    }
}

impl DeepView for CaseResult {
    type V = CaseResultView;

    open spec fn deep_view(&self) -> CaseResultView {
        self@
    }
}

impl Clone for CaseResult {
    fn clone(&self) -> (r: Self)
        ensures
            r@ == self@,
    {
        CaseResult {
            case_id: self.case_id.clone(),
            split: self.split,
            trace_id: self.trace_id.clone(),
            scores: clone_vec(&self.scores),
            passed: self.passed,
        }
    }
}

/// The aggregate score file of a full-set run.
#[derive(Debug, PartialEq, Eq)]
pub struct EvalReport {
    pub cadmus_version: String,
    pub provider: String,
    pub model: String,
    pub set_digest: String,
    /// In case-id order.
    pub results: Vec<CaseResult>,
    pub passed: u32,
    pub total: u32,
}

/// What a [`EvalReport`] holds.
#[verifier::ext_equal]
pub struct EvalReportView {
    pub cadmus_version: Seq<char>,
    pub provider: Seq<char>,
    pub model: Seq<char>,
    pub set_digest: Seq<char>,
    pub results: Seq<CaseResultView>,
    pub passed: u32,
    pub total: u32,
}

impl View for EvalReport {
    type V = EvalReportView;

    open spec fn view(&self) -> EvalReportView {
        EvalReportView {
            cadmus_version: self.cadmus_version@,
            provider: self.provider@,
            model: self.model@,
            set_digest: self.set_digest@,
            results: self.results.deep_view(),
            passed: self.passed,
            total: self.total,
        }
    }
}

impl DeepView for EvalReport {
    type V = EvalReportView;

    open spec fn deep_view(&self) -> EvalReportView {
        self@
    }
}

impl Clone for EvalReport {
    fn clone(&self) -> (r: Self)
        ensures
            r@ == self@,
    {
        EvalReport {
            cadmus_version: self.cadmus_version.clone(),
            provider: self.provider.clone(),
            model: self.model.clone(),
            set_digest: self.set_digest.clone(),
            results: clone_vec(&self.results),
            passed: self.passed,
            total: self.total,
        }
    }
}

} // verus!
