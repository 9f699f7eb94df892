use praxeum_core::loader::{DataFormat, ExerciseLoader};
use praxeum_core::model::exercise::{ClassificationItem, Exercise, ScenarioChoice};
use praxeum_core::validator::{validate_exercises_with_source, ValidationIssue};
use praxeum_core::{validate_exercises, PraxeumError, BUNDLED_EXAMPLES};

#[test]
fn validates_bundled_examples() {
    ExerciseLoader::validate_str(BUNDLED_EXAMPLES, DataFormat::Auto)
        .expect("examples should validate");
}

#[test]
fn rejects_duplicate_ids() {
    let toml = r#"
[[exercise]]
kind = "classification"
id = "dup"
title = "one"
prompt = "p"
categories = ["a", "b"]

[[exercise.items]]
text = "foo"
correct_category = "a"

[[exercise]]
kind = "multiple_choice"
id = "dup"
title = "two"
prompt = "p"
options = ["o1", "o2"]
correct_indices = [0]
multi_select = false
"#;

    let err = ExerciseLoader::validate_str(toml, DataFormat::Toml).unwrap_err();
    let issues = extract_issues(err);
    assert!(issues.iter().any(|issue| issue.field == "id"));
}

#[test]
fn catches_invalid_scenario_choices() {
    let toml = r#"
[[exercise]]
kind = "scenario"
id = "scenario_missing"
title = "Scenario Test"
description = ""
prompt = "Pick"

[[exercise.choices]]
label = ""
is_correct = false
feedback = ""
"#;

    let err = ExerciseLoader::validate_str(toml, DataFormat::Auto).unwrap_err();
    let issues = extract_issues(err);
    assert!(issues.iter().any(|issue| issue.field == "description"));
    assert!(issues
        .iter()
        .any(|issue| issue.message.contains("Choice 0 label")));
    assert!(issues
        .iter()
        .any(|issue| issue.message.contains("Mark at least one")));
}

#[test]
fn loads_and_validates_json_root_object() {
    let json = r#"
{"exercises": [
  {
    "kind": "classification",
    "id": "json_classify",
    "title": "Json Classify",
    "prompt": "Sort",
    "categories": ["a", "b"],
    "items": [
      {"text": "Thing", "correct_category": "a"}
    ]
  }
]}
"#;

    let loaded = ExerciseLoader::load_from_str(json, DataFormat::Auto).expect("json should load");
    assert_eq!(loaded.len(), 1);
    if let Exercise::Classification { id, .. } = &loaded[0] {
        assert_eq!(id, "json_classify");
    } else {
        panic!("expected classification exercise");
    }
}

fn extract_issues(err: PraxeumError) -> Vec<ValidationIssue> {
    match err {
        PraxeumError::Validation(report) => report.issues,
        other => panic!("unexpected error type: {other:?}"),
    }
}

fn messages(issues: &[ValidationIssue]) -> Vec<String> {
    issues.iter().map(|i| i.describe()).collect()
}

#[test]
fn classification_issues_in_order() {
    let exercises = vec![Exercise::Classification {
        id: "c".into(),
        title: " ".into(),
        prompt: "p".into(),
        categories: vec!["a".into(), "a".into(), "\t".into()],
        items: vec![ClassificationItem {
            text: "\u{2003}".into(),
            correct_category: "z".into(),
        }],
    }];
    let report = validate_exercises_with_source(&exercises, Some("file.toml")).unwrap_err();
    assert_eq!(report.source.as_deref(), Some("file.toml"));
    assert_eq!(
        messages(&report.issues),
        vec![
            "[c] title: Value must not be empty",
            "[c] categories: Duplicate entry: a",
            "[c] categories: Entry 2 must not be empty",
            "[c] items: Item 0 text must not be empty",
            "[c] items: Item 0 correct_category 'z' is not listed in categories",
        ]
    );
    assert_eq!(
        report.describe(),
        "Validation failed for file.toml:\n\
         - [c] title: Value must not be empty\n\
         - [c] categories: Duplicate entry: a\n\
         - [c] categories: Entry 2 must not be empty\n\
         - [c] items: Item 0 text must not be empty\n\
         - [c] items: Item 0 correct_category 'z' is not listed in categories\n"
    );
}

#[test]
fn multiple_choice_and_id_issues() {
    let exercises = vec![Exercise::MultipleChoice {
        id: "".into(),
        title: "t".into(),
        prompt: "p".into(),
        options: vec![],
        correct_indices: vec![3, 0],
        multi_select: false,
    }];
    let report = validate_exercises(&exercises).unwrap_err();
    assert_eq!(report.source, None);
    assert_eq!(
        messages(&report.issues),
        vec![
            "id: Value must not be empty",
            "[] options: Provide at least one entry",
            "[] correct_indices: Index 3 is out of range for 0 options",
            "[] correct_indices: Index 0 is out of range for 0 options",
            "[] correct_indices: Single-select exercises must have exactly one correct index",
        ]
    );
}

#[test]
fn scenario_without_choices_and_empty_classification() {
    let exercises = vec![
        Exercise::Scenario {
            id: "s".into(),
            title: "t".into(),
            description: "d".into(),
            prompt: "p".into(),
            choices: vec![],
        },
        Exercise::Classification {
            id: "s".into(),
            title: "t".into(),
            prompt: "p".into(),
            categories: vec!["only".into()],
            items: vec![],
        },
    ];
    let report = validate_exercises(&exercises).unwrap_err();
    assert_eq!(
        messages(&report.issues),
        vec![
            "[s] choices: Provide at least one scenario choice",
            "[s] choices: Mark at least one choice as correct",
            "[s] id: Duplicate exercise identifier",
            "[s] categories: Provide at least two categories to classify items",
            "[s] items: Include at least one item to classify",
        ]
    );
    let ok = vec![Exercise::Scenario {
        id: "fine".into(),
        title: "t".into(),
        description: "d".into(),
        prompt: "p".into(),
        choices: vec![ScenarioChoice {
            label: "l".into(),
            is_correct: true,
            feedback: "f".into(),
        }],
    }];
    assert!(validate_exercises(&ok).is_ok());
}

#[test]
fn new_issue_and_report() {
    let issue = ValidationIssue::new(None, "field", "message");
    assert_eq!(issue.exercise_id, None);
    assert_eq!(issue.describe(), "field: message");
    let report = praxeum_core::ValidationErrorReport::new(None, vec![issue.clone()]);
    assert_eq!(report.describe(), "Validation failed:\n- field: message\n");
}
