use shape_runner::dispatch::{task_for, Task};
use shape_runner::orchestrator::{
    feature_design_prompt, feature_design_step, formation_prompt_for, formation_step, Feedback,
    OrchestratorError, Session, Step, MAX_ATTEMPTS,
};
use shape_runner::shape::{
    feature_design_output_typedef, formation_output_typedef, Component, FeatureDesignInput,
    FeatureDesignOutput, FormationInput,
};
use shape_runner::types::ValidationError;

const VALID_DESIGN: &str = r#"{"name":"Tasks","rationale":"Use **Postgres**.","components":[{"id":"task-service","responsibility":"CRUD","api":"POST /api/tasks"}],"risks":["scale","auth"]}"#;

fn design_input() -> FeatureDesignInput {
    FeatureDesignInput { repo_summary: "x".to_string(), constraints: vec![] }
}

#[test]
fn valid_design_on_first_attempt() {
    let schema = feature_design_output_typedef();
    let session = Session::new();
    let prompt = feature_design_prompt(&design_input(), &schema, &session);
    assert!(prompt.contains("- Repo summary: x\n- Constraints:\n"));
    assert!(!prompt.contains("previous"));
    match feature_design_step(session, &schema, VALID_DESIGN) {
        Step::Done(out) => assert_eq!(
            out,
            FeatureDesignOutput {
                name: "Tasks".to_string(),
                rationale: "Use **Postgres**.".to_string(),
                components: vec![Component {
                    id: "task-service".to_string(),
                    responsibility: "CRUD".to_string(),
                    api: "POST /api/tasks".to_string(),
                }],
                risks: vec!["scale".to_string(), "auth".to_string()],
            }
        ),
        other => panic!("expected success, got {:?}", other),
    }
}

#[test]
fn unparseable_text_ends_after_three_attempts() {
    let schema = feature_design_output_typedef();
    let mut session = Session::new();
    let mut attempts = 0;
    loop {
        attempts += 1;
        assert!(attempts <= MAX_ATTEMPTS);
        match feature_design_step(session, &schema, "I cannot do that") {
            Step::Retry(next) => {
                assert_eq!(next.attempts, attempts);
                assert!(matches!(next.feedback, Feedback::ParseError(_)));
                session = next;
            }
            Step::Failed(OrchestratorError::ParseFailed { attempts: n, message }) => {
                assert_eq!(n, 3);
                assert!(!message.is_empty());
                break;
            }
            other => panic!("unexpected step {:?}", other),
        }
    }
    assert_eq!(attempts, 3);
}

#[test]
fn parse_error_feeds_the_second_prompt() {
    let schema = feature_design_output_typedef();
    let session = Session::new();
    let next = match feature_design_step(session, &schema, "{\"name\": ") {
        Step::Retry(next) => next,
        other => panic!("expected a retry, got {:?}", other),
    };
    let message = match &next.feedback {
        Feedback::ParseError(m) => m.clone(),
        other => panic!("expected parse feedback, got {:?}", other),
    };
    let expected = serde_json::from_str::<serde_json::Value>("{\"name\":").unwrap_err().to_string();
    assert_eq!(message, expected);
    let prompt = feature_design_prompt(&design_input(), &schema, &next);
    assert!(prompt.contains("Your previous response was not valid JSON. The error was:\n"));
    assert!(prompt.contains(&message));
    match feature_design_step(next, &schema, VALID_DESIGN) {
        Step::Done(out) => assert_eq!(out.name, "Tasks"),
        other => panic!("expected success on the second attempt, got {:?}", other),
    }
}

#[test]
fn schema_violations_feed_the_next_prompt() {
    let schema = feature_design_output_typedef();
    let next = match feature_design_step(Session::new(), &schema, r#"{"name": 5}"#) {
        Step::Retry(next) => next,
        other => panic!("expected a retry, got {:?}", other),
    };
    match &next.feedback {
        Feedback::Invalid(errs) => assert_eq!(errs.len(), 4),
        other => panic!("expected validation feedback, got {:?}", other),
    }
    let prompt = feature_design_prompt(&design_input(), &schema, &next);
    assert!(prompt.contains("- Type mismatch at $.name: expected string, found number\n"));
    assert!(prompt.contains("- Missing required field at path $.rationale\n"));
    assert!(prompt.contains("\nFix these issues and output ONLY corrected JSON.\n"));
    assert!(!prompt.contains("was not valid JSON"));
}

#[test]
fn invalid_document_on_last_attempt_fails_with_errors() {
    let schema = feature_design_output_typedef();
    let session = Session { attempts: 2, feedback: Feedback::Nothing };
    match feature_design_step(session, &schema, "{}") {
        Step::Failed(OrchestratorError::ValidationFailed { attempts, errors }) => {
            assert_eq!(attempts, 3);
            assert_eq!(errors.len(), 4);
            assert_eq!(errors[0], ValidationError::MissingField { path: "$.name".to_string() });
        }
        other => panic!("expected a validation failure, got {:?}", other),
    }
}

#[test]
fn formation_with_wrong_count_is_retried() {
    let schema = formation_output_typedef();
    let input = FormationInput { formation_description: "triangle".to_string(), unit_count: 3 };
    let two = r#"{"coordinates":[{"x":0.0,"y":0.0},{"x":10.0,"y":0.0}]}"#;
    let next = match formation_step(Session::new(), &schema, 3, two) {
        Step::Retry(next) => next,
        other => panic!("expected a retry, got {:?}", other),
    };
    match &next.feedback {
        Feedback::Invalid(errs) => {
            assert_eq!(errs.len(), 1);
            assert_eq!(errs[0].to_text(), "Type mismatch at $.coordinates: expected 3, found 2");
        }
        other => panic!("expected validation feedback, got {:?}", other),
    }
    let prompt = formation_prompt_for(&input, &schema, &next);
    assert!(prompt.contains("expected 3, found 2"));
    let three = r#"{"coordinates":[{"x":0.0,"y":0.0},{"x":10.0,"y":0.0},{"x":5,"y":10.5}]}"#;
    match formation_step(next, &schema, 3, three) {
        Step::Done(out) => {
            assert_eq!(out.coordinates.len(), 3);
            assert_eq!(out.coordinates[2].x, "5");
            assert_eq!(out.coordinates[2].y, "10.5");
        }
        other => panic!("expected success, got {:?}", other),
    }
}

#[test]
fn formation_prompt_names_the_count() {
    let schema = formation_output_typedef();
    let input = FormationInput { formation_description: "a line".to_string(), unit_count: 12 };
    let prompt = formation_prompt_for(&input, &schema, &Session::new());
    assert!(prompt.contains("- Formation description: a line\n"));
    assert!(prompt.contains("- Number of units: 12\n"));
    assert!(prompt.contains("CRITICAL: You MUST generate EXACTLY 12 coordinates (x, y pairs), no more, no less.\n"));
    assert!(prompt.contains("The coordinates array must contain exactly 12 items.\n"));
    assert!(prompt.ends_with("- Trailing commas\n"));
}

#[test]
fn fenced_response_is_cleaned_before_parsing() {
    let schema = feature_design_output_typedef();
    let raw = format!("```json\n{}\n```", VALID_DESIGN.replace("]}", "],}"));
    match feature_design_step(Session::new(), &schema, &raw) {
        Step::Done(out) => assert_eq!(out.risks, vec!["scale".to_string(), "auth".to_string()]),
        other => panic!("expected success, got {:?}", other),
    }
}

#[test]
fn wrong_schema_for_decoding_fails() {
    let schema = shape_runner::types::TypeDef::Object(vec![]);
    match feature_design_step(Session::new(), &schema, "{\"a\": 1}") {
        Step::Failed(OrchestratorError::DecodeFailed { attempts }) => assert_eq!(attempts, 1),
        other => panic!("expected a decode failure, got {:?}", other),
    }
}

#[test]
fn task_names_are_routed() {
    assert_eq!(task_for("FeatureDesign"), Some(Task::FeatureDesign));
    assert_eq!(task_for("Formation"), Some(Task::Formation));
    assert_eq!(task_for("formation"), None);
    assert_eq!(task_for(""), None);
}

#[test]
fn attempts_limit_is_three() {
    assert_eq!(MAX_ATTEMPTS, 3);
}
