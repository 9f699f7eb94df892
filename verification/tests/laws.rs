//! Concrete instances of the library's laws.
use praxeum_core::loader::{DataFormat, ExerciseLoader};
use praxeum_core::model::exercise::{ClassificationItem, Exercise};
use praxeum_core::scoring::compute_points;
use praxeum_core::{validate_exercises, Answer, ExerciseEngine, Fraction, SessionMetrics};

#[test]
fn valid_classification_has_a_full_marks_answer() {
    let ex = Exercise::Classification {
        id: "c".into(),
        title: "t".into(),
        prompt: "p".into(),
        categories: vec!["a".into(), "b".into()],
        items: vec![
            ClassificationItem { text: "x".into(), correct_category: "b".into() },
            ClassificationItem { text: "y".into(), correct_category: "a".into() },
        ],
    };
    assert!(validate_exercises(std::slice::from_ref(&ex)).is_ok());
    let engine = ExerciseEngine::new(vec![]);
    let eval = engine.evaluate(&ex, &Answer::Classification(vec![1, 0])).unwrap();
    assert!(eval.correct);
    assert_eq!(eval.score.numerator, eval.score.denominator);
}

#[test]
fn duplicate_ids_fail_validation() {
    let loaded = ExerciseLoader::load_from_str(
        r#"[{"kind":"scenario","id":"s","title":"t","description":"d","prompt":"p",
             "choices":[{"label":"l","is_correct":true,"feedback":"f"}]},
            {"kind":"scenario","id":"s","title":"t","description":"d","prompt":"p",
             "choices":[{"label":"l","is_correct":true,"feedback":"f"}]}]"#,
        DataFormat::Json,
    )
    .unwrap();
    assert!(validate_exercises(&loaded).is_err());
}

#[test]
fn metrics_stay_consistent() {
    let mut m = SessionMetrics::default();
    for (d, c) in [(5u128, true), (1, false), (9, true), (3, true)] {
        m.record_attempt(d, c);
        assert!(m.correct <= m.answered);
        assert!(m.current_streak <= m.longest_streak && m.longest_streak <= m.correct);
        assert!(m.fastest_ms.unwrap() <= m.slowest_ms.unwrap());
        assert!(m.slowest_ms.unwrap() <= m.total_duration_ms);
    }
}

#[test]
fn faster_and_correct_earn_more() {
    let s = Fraction::new(1, 2);
    assert!(compute_points(s, false, 0, 10_000) >= compute_points(s, false, 0, 30_000));
    assert!(compute_points(s, false, 0, 30_000) >= compute_points(s, false, 0, 90_000));
    assert_eq!(compute_points(s, true, 2, 10_000), compute_points(s, false, 2, 10_000) + 25);
}

#[test]
fn preflight_and_validation_agree() {
    let text = "[[exercise]]\nkind = \"scenario\"\nid = \"s\"\ntitle = \"t\"\ndescription = \"\"\nprompt = \"p\"\nchoices = []\n";
    let report = ExerciseLoader::preflight_str(text, DataFormat::Auto, None).unwrap();
    assert!(!report.is_success());
    assert!(ExerciseLoader::validate_str(text, DataFormat::Auto).is_err());
}

#[test]
fn blank_or_repeated_entries_fail_validation() {
    let with_options = |options: Vec<&str>| Exercise::MultipleChoice {
        id: "m".into(),
        title: "t".into(),
        prompt: "p".into(),
        options: options.into_iter().map(String::from).collect(),
        correct_indices: vec![0],
        multi_select: false,
    };
    assert!(validate_exercises(&[with_options(vec!["a", "b"])]).is_ok());
    assert!(validate_exercises(&[with_options(vec!["a", "a"])]).is_err());
    assert!(validate_exercises(&[with_options(vec!["a", "  "])]).is_err());
}

#[test]
fn accepted_examples_follow_the_schema() {
    let exercises = ExerciseLoader::validate_str(praxeum_core::BUNDLED_EXAMPLES, DataFormat::Auto).unwrap();
    for (i, a) in exercises.iter().enumerate() {
        assert!(!a.id().trim().is_empty() && !a.title().trim().is_empty());
        for b in &exercises[i + 1..] {
            assert_ne!(a.id(), b.id());
        }
    }
}

#[test]
fn cursor_calls_never_change_the_exercises() {
    let text = praxeum_core::BUNDLED_EXAMPLES;
    let list = ExerciseLoader::load_from_str(text, DataFormat::Toml).unwrap();
    let ids: Vec<String> = list.iter().map(|e| e.id().to_string()).collect();
    let mut engine = ExerciseEngine::new(list);
    engine.advance();
    let _ = engine.answer_current(&Answer::Scenario(7));
    let _ = engine.answer_current(&Answer::MultipleChoice(vec![0]));
    engine.reset();
    engine.advance();
    engine.advance();
    engine.advance();
    assert_eq!(engine.position(), engine.len());
    let seen: Vec<String> = engine.iter().map(|e| e.id().to_string()).collect();
    assert_eq!(seen, ids);
}

#[test]
fn higher_scores_and_longer_streaks_never_earn_less() {
    let scores = [(0u64, 3u64), (1, 3), (1, 2), (5, 8), (2, 3), (1, 1)];
    for w in scores.windows(2) {
        let (a, b) = (Fraction::new(w[0].0, w[0].1), Fraction::new(w[1].0, w[1].1));
        assert!(compute_points(a, true, 3, 30_000) <= compute_points(b, true, 3, 30_000));
    }
    let s = Fraction::new(2, 5);
    assert!(compute_points(s, false, 0, 5_000) <= compute_points(s, false, 4, 5_000));
}

#[test]
fn empty_classification_scores_full_marks() {
    let ex = Exercise::Classification {
        id: "c".into(),
        title: "t".into(),
        prompt: "p".into(),
        categories: vec!["a".into(), "b".into()],
        items: vec![],
    };
    let engine = ExerciseEngine::new(vec![]);
    let eval = engine.evaluate(&ex, &Answer::Classification(vec![])).unwrap();
    assert!(eval.correct);
    assert_eq!((eval.score.numerator, eval.score.denominator), (1, 1));
}
