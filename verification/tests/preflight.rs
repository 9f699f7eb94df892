use praxeum_core::loader::{DataFormat, ExerciseLoader};

#[test]
fn preflight_collects_issues_without_panicking() {
    let contents = r#"
[[exercise]]
kind = "multiple_choice"
id = "dup"
title = "First"
prompt = "Pick"
options = ["A", "B"]
correct_indices = [0]
multi_select = false

[[exercise]]
kind = "multiple_choice"
id = "dup"
title = "Second"
prompt = "Pick"
options = ["A", "B"]
correct_indices = [1]
multi_select = false
"#;

    let report = ExerciseLoader::preflight_str(contents, DataFormat::Auto, Some("memory"))
        .expect("preflight runs");
    assert_eq!(report.exercise_count, 2);
    assert!(report.issues.iter().any(|i| i.field == "id"));
    assert!(!report.is_success());
}

#[test]
fn preflight_reports_success_and_format() {
    let report = ExerciseLoader::preflight_str(
        praxeum_core::BUNDLED_EXAMPLES,
        DataFormat::Auto,
        None,
    )
    .expect("preflight runs");
    assert!(report.is_success());
    assert_eq!(report.exercise_count, 3);
    assert_eq!(report.format, DataFormat::Toml);
    assert_eq!(report.source, None);
}

#[test]
fn preflight_of_a_file_uses_its_extension() {
    let report = ExerciseLoader::preflight_file_contents(
        "content/set.JSON",
        "[]",
        DataFormat::Auto,
    )
    .expect("preflight runs");
    assert_eq!(report.format, DataFormat::Json);
    assert_eq!(report.exercise_count, 0);
    assert_eq!(report.source.as_deref(), Some("content/set.JSON"));
}
