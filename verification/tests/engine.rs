use praxeum_core::model::exercise::{ClassificationItem, Exercise, ScenarioChoice};
use praxeum_core::{Answer, ExerciseEngine, PraxeumError};

#[test]
fn answers_current_and_advances() {
    let exercises = vec![Exercise::MultipleChoice {
        id: "mc1".into(),
        title: "First".into(),
        prompt: "Pick one".into(),
        options: vec!["A".into(), "B".into()],
        correct_indices: vec![1],
        multi_select: false,
    }];

    let mut engine = ExerciseEngine::new(exercises);
    let eval = engine
        .answer_current(&Answer::MultipleChoice(vec![1]))
        .expect("evaluate");
    assert!(eval.correct);
    assert_eq!(engine.position(), 1);
    assert!(engine.current().is_none());
}

#[test]
fn evaluation_handles_all_kinds() {
    let exercises = vec![
        Exercise::Classification {
            id: "class1".into(),
            title: "Class".into(),
            prompt: "Sort".into(),
            categories: vec!["action".into(), "event".into()],
            items: vec![ClassificationItem {
                text: "Digging".into(),
                correct_category: "action".into(),
            }],
        },
        Exercise::Scenario {
            id: "scenario".into(),
            title: "Scene".into(),
            description: "Background".into(),
            prompt: "Choose".into(),
            choices: vec![
                ScenarioChoice {
                    label: "First".into(),
                    is_correct: false,
                    feedback: "No".into(),
                },
                ScenarioChoice {
                    label: "Second".into(),
                    is_correct: true,
                    feedback: "Yes".into(),
                },
            ],
        },
    ];
    let engine = ExerciseEngine::new(exercises);

    let class_eval = engine
        .evaluate(
            engine.by_id("class1").unwrap(),
            &Answer::Classification(vec![0]),
        )
        .expect("classification eval");
    assert!(class_eval.correct);

    let scenario_eval = engine
        .evaluate(engine.by_id("scenario").unwrap(), &Answer::Scenario(1))
        .expect("scenario eval");
    assert!(scenario_eval.correct);
}

fn sorting_exercise() -> Exercise {
    Exercise::Classification {
        id: "sort".into(),
        title: "Sort".into(),
        prompt: "Classify".into(),
        categories: vec!["action".into(), "event".into()],
        items: vec![
            ClassificationItem {
                text: "Digging".into(),
                correct_category: "action".into(),
            },
            ClassificationItem {
                text: "Rain".into(),
                correct_category: "event".into(),
            },
        ],
    }
}

fn pick_exercise() -> Exercise {
    Exercise::MultipleChoice {
        id: "pick".into(),
        title: "Pick".into(),
        prompt: "Pick".into(),
        options: vec!["A".into(), "B".into(), "C".into()],
        correct_indices: vec![0, 2],
        multi_select: true,
    }
}

#[test]
fn classification_partial_credit_and_feedback() {
    let engine = ExerciseEngine::new(vec![]);
    let eval = engine
        .evaluate(&sorting_exercise(), &Answer::Classification(vec![0, 0]))
        .expect("classification eval");
    assert!(!eval.correct);
    assert_eq!(eval.score.numerator, 1);
    assert_eq!(eval.score.denominator, 2);
    assert_eq!(
        eval.feedback,
        "✓ \"Digging\" → action\n✗ \"Rain\" → action (correct: event)"
    );
}

#[test]
fn classification_errors() {
    let engine = ExerciseEngine::new(vec![]);
    match engine.evaluate(&sorting_exercise(), &Answer::Classification(vec![0])) {
        Err(PraxeumError::InvalidAnswer(m)) => {
            assert_eq!(m, "Classification answer length does not match item count")
        }
        other => panic!("unexpected: {other:?}"),
    }
    match engine.evaluate(&sorting_exercise(), &Answer::Classification(vec![0, 7])) {
        Err(PraxeumError::InvalidAnswer(m)) => {
            assert_eq!(m, "Invalid category index at position 1")
        }
        other => panic!("unexpected: {other:?}"),
    }
    match engine.evaluate(&sorting_exercise(), &Answer::Scenario(0)) {
        Err(PraxeumError::InvalidAnswer(m)) => assert_eq!(m, "Expected classification answer"),
        other => panic!("unexpected: {other:?}"),
    }
    match engine.evaluate(&pick_exercise(), &Answer::Scenario(0)) {
        Err(PraxeumError::InvalidAnswer(m)) => assert_eq!(m, "Expected multiple-choice answer"),
        other => panic!("unexpected: {other:?}"),
    }
}

#[test]
fn multiple_choice_scores_by_overlap() {
    let engine = ExerciseEngine::new(vec![]);
    let eval = engine
        .evaluate(&pick_exercise(), &Answer::MultipleChoice(vec![0, 1, 1]))
        .expect("multiple-choice eval");
    assert!(!eval.correct);
    // {0, 2} against {0, 1}: one shared out of three.
    assert_eq!(eval.score.numerator, 1);
    assert_eq!(eval.score.denominator, 3);
    assert_eq!(eval.feedback, "Selected: [0, 1, 1]\nCorrect:  [0, 2]");

    let exact = engine
        .evaluate(&pick_exercise(), &Answer::MultipleChoice(vec![2, 0, 2]))
        .expect("multiple-choice eval");
    assert!(exact.correct);
    assert_eq!(exact.score.numerator, 2);
    assert_eq!(exact.score.denominator, 2);

    let empty = Exercise::MultipleChoice {
        id: "none".into(),
        title: "None".into(),
        prompt: "Pick".into(),
        options: vec!["A".into()],
        correct_indices: vec![],
        multi_select: true,
    };
    let nothing = engine
        .evaluate(&empty, &Answer::MultipleChoice(vec![]))
        .expect("multiple-choice eval");
    assert!(nothing.correct);
    assert_eq!(nothing.score.numerator, 0);
    assert_eq!(nothing.score.denominator, 1);
}

#[test]
fn scenario_out_of_range_is_refused() {
    let engine = ExerciseEngine::new(vec![]);
    let scenario = Exercise::Scenario {
        id: "s".into(),
        title: "S".into(),
        description: "D".into(),
        prompt: "P".into(),
        choices: vec![ScenarioChoice {
            label: "Only".into(),
            is_correct: false,
            feedback: "Not quite".into(),
        }],
    };
    let wrong = engine.evaluate(&scenario, &Answer::Scenario(0)).expect("scenario eval");
    assert!(!wrong.correct);
    assert_eq!(wrong.score.numerator, 0);
    assert_eq!(wrong.feedback, "Not quite");
    match engine.evaluate(&scenario, &Answer::Scenario(1)) {
        Err(PraxeumError::InvalidAnswer(m)) => assert_eq!(m, "Invalid scenario choice index"),
        other => panic!("unexpected: {other:?}"),
    }
}

#[test]
fn cursor_walks_and_resets() {
    let mut engine = ExerciseEngine::new(vec![sorting_exercise(), pick_exercise()]);
    assert_eq!(engine.len(), 2);
    assert!(!engine.is_empty());
    assert_eq!(engine.remaining(), 2);
    assert_eq!(engine.current().unwrap().id(), "sort");
    assert_eq!(engine.advance().unwrap().id(), "pick");
    assert_eq!(engine.position(), 1);
    assert_eq!(engine.remaining(), 1);
    assert!(engine.advance().is_none());
    assert_eq!(engine.position(), 2);
    assert_eq!(engine.remaining(), 0);
    assert!(engine.advance().is_none());
    assert_eq!(engine.position(), 2);
    engine.reset();
    assert_eq!(engine.position(), 0);
    assert_eq!(engine.at(1).unwrap().title(), "Pick");
    assert!(engine.at(2).is_none());
    assert!(engine.by_id("missing").is_none());
    let ids: Vec<&str> = engine.iter().map(|e| e.id()).collect();
    assert_eq!(ids, vec!["sort", "pick"]);
}

#[test]
fn answer_current_without_exercises_fails() {
    let mut engine = ExerciseEngine::new(vec![]);
    assert!(engine.is_empty());
    match engine.answer_current(&Answer::Scenario(0)) {
        Err(PraxeumError::NoExercises) => {}
        other => panic!("unexpected: {other:?}"),
    }
    let mut one = ExerciseEngine::new(vec![sorting_exercise()]);
    assert!(one.answer_current(&Answer::Scenario(0)).is_err());
    assert_eq!(one.position(), 0);
}
