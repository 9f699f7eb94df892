use praxeum_core::model::exercise::Exercise;
use praxeum_core::scoring::compute_points;
use praxeum_core::{Evaluation, Fraction, SessionEvent, SessionTracker};

fn mc1() -> Exercise {
    Exercise::MultipleChoice {
        id: "mc1".into(),
        title: "One".into(),
        prompt: "Pick".into(),
        options: vec!["A".into(), "B".into()],
        correct_indices: vec![0],
        multi_select: false,
    }
}

#[test]
fn awards_points_and_updates_metrics() {
    let mut tracker = SessionTracker::new(2);
    let exercise = mc1();

    let eval = Evaluation {
        correct: true,
        score: Fraction::new(1, 1),
        feedback: "nice".into(),
    };

    let event = tracker.record_answer(&exercise, &eval, 10_000);

    let SessionEvent::Answered { outcome, metrics } = event else {
        panic!("expected answered event");
    };

    assert_eq!(outcome.exercise_id, "mc1");
    let accuracy = metrics.accuracy();
    assert!(accuracy.numerator as f32 / accuracy.denominator as f32 > 0.9);
    assert_eq!(tracker.points(), outcome.points_awarded);
    assert_eq!(tracker.events().len(), 2); // started + answered
}

#[test]
fn complete_emits_snapshot() {
    let mut tracker = SessionTracker::new(1);
    let event = tracker.complete();
    let SessionEvent::Completed { snapshot, .. } = event else {
        panic!("expected completion event");
    };
    assert!(snapshot.completed_exercises.is_empty());
}

#[test]
fn points_formula_values() {
    // 120 for a full score, 40 for correctness, 15 for speed, no streak bonus.
    assert_eq!(compute_points(Fraction::new(1, 1), true, 1, 10_000), 175);
    // 1/3 of 120 is 40; 15 for an incorrect answer; 8 for a medium pace.
    assert_eq!(compute_points(Fraction::new(1, 3), false, 0, 30_000), 63);
    // 1/48 of 120 is 2.5, rounded away from zero to 3; slow answers get no speed bonus.
    assert_eq!(compute_points(Fraction::new(1, 48), false, 0, 40_001), 18);
    // A streak of 4 adds 15.
    assert_eq!(compute_points(Fraction::new(0, 1), true, 4, 20_000), 70);
    // An undefined score counts as zero.
    assert_eq!(compute_points(Fraction::new(0, 0), false, 0, 50_000), 15);
}

#[test]
fn streak_matches_metrics_and_points_accumulate() {
    let mut tracker = SessionTracker::new(3);
    let right = Evaluation {
        correct: true,
        score: Fraction::new(1, 1),
        feedback: String::new(),
    };
    let wrong = Evaluation {
        correct: false,
        score: Fraction::new(0, 1),
        feedback: String::new(),
    };
    tracker.record_answer(&mc1(), &right, 5_000);
    tracker.record_answer(&mc1(), &right, 5_000);
    assert_eq!(tracker.streak(), 2);
    assert_eq!(tracker.metrics().current_streak, 2);
    assert_eq!(tracker.points(), 175 + 180);
    tracker.record_answer(&mc1(), &wrong, 50_000);
    assert_eq!(tracker.streak(), 0);
    assert_eq!(tracker.metrics().current_streak, 0);
    assert_eq!(tracker.points(), 175 + 180 + 15);
    assert_eq!(tracker.snapshot().completed_exercises, vec!["mc1".to_string()]);
    assert_eq!(tracker.snapshot().metrics, *tracker.metrics());
    let done = tracker.complete();
    assert_eq!(tracker.events().len(), 5);
    assert_eq!(tracker.events()[0], SessionEvent::Started { total_exercises: 3 });
    assert_eq!(tracker.events()[4], done);
}

#[test]
fn cloned_tracker_carries_the_whole_session() {
    let mut tracker = SessionTracker::new(2);
    let right = Evaluation {
        correct: true,
        score: Fraction::new(1, 1),
        feedback: String::new(),
    };
    tracker.record_answer(&mc1(), &right, 5_000);
    let copy = tracker.clone();
    assert_eq!(copy, tracker);
    assert_eq!(copy.events().len(), 2);
    assert_eq!(copy.points(), tracker.points());
}
