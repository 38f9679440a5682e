//! Eval scoring.
use cadmus::json::Value;
use cadmus::runtime::eval::{score_case, FULL_MARKS, NO_MARKS};
use cadmus::{
    ContentPart, EvalCase, EvalSplit, EventError, Expectation, FinishRecord, Message, Role,
    RunState, Status, ToolCall,
};

fn case(expect: Vec<Expectation>) -> EvalCase {
    EvalCase {
        id: "c-1".into(),
        split: EvalSplit::Search,
        fixture: "f".into(),
        prompt: "p".into(),
        note: None,
        expect,
    }
}

fn crashed_state() -> RunState {
    RunState {
        trace_id: "tr-1".into(),
        provider: None,
        model: None,
        messages: Vec::new(),
        tool_results: Vec::new(),
        turns: 0,
        warnings: Vec::new(),
        scores: Vec::new(),
        dangling_tool_calls: Vec::new(),
        finished: None,
    }
}

fn finished_state(messages: Vec<Message>, turns: u32) -> RunState {
    RunState {
        messages,
        turns,
        finished: Some(FinishRecord {
            turns,
            status: Status::Success,
            error: None,
        }),
        ..crashed_state()
    }
}

fn scores_of(case: &EvalCase, state: &RunState) -> Vec<bool> {
    score_case(case, state)
        .iter()
        .map(|score| score.passed.expect("passed is set"))
        .collect()
}

#[test]
fn every_expectation_scores_one_event_in_order() {
    let state = finished_state(vec![Message::text(Role::Assistant, "the answer is 42")], 2);
    let case = case(vec![
        Expectation::RunCompleted,
        Expectation::AnswerContains {
            needle: "42".into(),
        },
        Expectation::AnswerContains {
            needle: "absent".into(),
        },
        Expectation::TurnsWithin { max: 3 },
    ]);

    let scores = score_case(&case, &state);
    let metrics: Vec<&str> = scores.iter().map(|s| s.metric.as_str()).collect();
    assert_eq!(
        metrics,
        [
            "run_completed",
            "answer_contains",
            "answer_contains",
            "turns_within"
        ]
    );
    assert_eq!(
        scores.iter().map(|s| s.passed).collect::<Vec<_>>(),
        [Some(true), Some(true), Some(false), Some(true)]
    );
    assert!(scores.iter().all(|s| s.case_id == "c-1"));
}

#[test]
fn a_crash_scores_run_completed_zero_but_still_scores() {
    let state = crashed_state();
    let case = case(vec![
        Expectation::RunCompleted,
        Expectation::TurnsWithin { max: 4 },
    ]);
    // turns_within passes vacuously on zero turns.
    assert_eq!(scores_of(&case, &state), [false, true]);
}

#[test]
fn answer_contains_reads_only_the_final_assistant_text() {
    let messages = vec![
        Message::user("q"),
        Message::text(Role::Assistant, "first draft mentions needle"),
        Message::text(Role::Assistant, "final answer without it"),
    ];
    let state = finished_state(messages, 2);
    let case = case(vec![Expectation::AnswerContains {
        needle: "needle".into(),
    }]);
    assert_eq!(scores_of(&case, &state), [false]);
}

#[test]
fn tool_called_matches_any_assistant_turn() {
    let mut with_call = Message::text(Role::Assistant, "looking it up");
    with_call.content.push(ContentPart::ToolCall {
        call: ToolCall {
            id: "c1".into(),
            name: "grep".into(),
            arguments: Value::parse("{\"pattern\": \"x\"}").expect("valid JSON"),
        },
    });
    let state = finished_state(vec![with_call, Message::text(Role::Assistant, "done")], 2);
    let case = case(vec![
        Expectation::ToolCalled {
            name: "grep".into(),
        },
        Expectation::ToolCalled {
            name: "read_file".into(),
        },
    ]);
    assert_eq!(scores_of(&case, &state), [true, false]);
}

#[test]
fn an_errored_finish_is_not_completed() {
    let mut state = finished_state(Vec::new(), 1);
    state.finished = state.finished.map(|finish| FinishRecord {
        status: Status::Error,
        ..finish
    });
    let case = case(vec![Expectation::RunCompleted]);
    assert_eq!(scores_of(&case, &state), [false]);
}

#[test]
fn a_finish_with_an_error_is_not_completed() {
    let mut state = finished_state(Vec::new(), 1);
    state.finished = state.finished.map(|finish| FinishRecord {
        error: Some(EventError {
            kind: "k".into(),
            message: "m".into(),
        }),
        ..finish
    });
    assert_eq!(
        scores_of(&case(vec![Expectation::RunCompleted]), &state),
        [false]
    );
}

#[test]
fn scores_are_one_or_zero() {
    let state = finished_state(Vec::new(), 5);
    let case = case(vec![
        Expectation::RunCompleted,
        Expectation::TurnsWithin { max: 4 },
        Expectation::TurnsWithin { max: 5 },
    ]);
    let scores: Vec<f64> = score_case(&case, &state)
        .iter()
        .map(|s| f64::from_bits(s.score))
        .collect();
    assert_eq!(scores, [1.0, 0.0, 1.0]);
    assert_eq!(f64::from_bits(FULL_MARKS), 1.0);
    assert_eq!(f64::from_bits(NO_MARKS), 0.0);
}

#[test]
fn a_run_without_an_answer_contains_nothing() {
    let case = case(vec![Expectation::AnswerContains { needle: "".into() }]);
    assert_eq!(scores_of(&case, &crashed_state()), [false]);
    let answered = finished_state(vec![Message::text(Role::Assistant, "x")], 1);
    assert_eq!(scores_of(&case, &answered), [true]);
}

#[test]
fn splits_have_stable_attribute_values() {
    assert_eq!(EvalSplit::Search.as_attr(), "search");
    assert_eq!(EvalSplit::Holdout.as_attr(), "holdout");
    assert_eq!(
        Expectation::ToolCalled { name: "x".into() }.metric_name(),
        "tool_called"
    );
}
