use praxeum_core::model::exercise::{Exercise, ScenarioChoice};
use praxeum_core::selection::{select_exercises, starts_with_text};

fn scenario(id: &str) -> Exercise {
    Exercise::Scenario {
        id: id.into(),
        title: "t".into(),
        description: "d".into(),
        prompt: "p".into(),
        choices: vec![ScenarioChoice {
            label: "l".into(),
            is_correct: true,
            feedback: "f".into(),
        }],
    }
}

fn ids(exercises: &[Exercise]) -> Vec<String> {
    exercises.iter().map(|e| e.id().to_string()).collect()
}

#[test]
fn filters_by_prefix_and_limits() {
    let all = vec![scenario("econ_1"), scenario("math_1"), scenario("econ_2"), scenario("econ_3")];
    let chosen = select_exercises(all, Some("econ"), None, Some(2));
    assert_eq!(ids(&chosen), vec!["econ_1", "econ_2"]);
}

#[test]
fn without_filters_everything_stays_in_order() {
    let all = vec![scenario("a"), scenario("b")];
    let chosen = select_exercises(all, None, None, None);
    assert_eq!(ids(&chosen), vec!["a", "b"]);
}

#[test]
fn shuffling_keeps_the_same_exercises() {
    let all: Vec<Exercise> = (0..20).map(|i| scenario(&format!("x{i}"))).collect();
    let chosen = select_exercises(all, Some("x"), Some(7), None);
    let in_order: Vec<String> = (0..20).map(|i| format!("x{i}")).collect();
    assert_ne!(ids(&chosen), in_order);
    let mut got = ids(&chosen);
    got.sort();
    let mut want: Vec<String> = (0..20).map(|i| format!("x{i}")).collect();
    want.sort();
    assert_eq!(got, want);
    let limited = select_exercises(
        (0..5).map(|i| scenario(&format!("y{i}"))).collect(),
        None,
        Some(3),
        Some(10),
    );
    assert_eq!(limited.len(), 5);
}

#[test]
fn prefix_test() {
    assert!(starts_with_text("econ_1", "econ"));
    assert!(starts_with_text("econ", ""));
    assert!(!starts_with_text("ec", "econ"));
    assert!(!starts_with_text("math", "econ"));
}
