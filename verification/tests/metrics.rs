use praxeum_core::{ProgressSnapshot, SessionMetrics};

#[test]
fn metrics_track_accuracy_and_pacing() {
    let mut metrics = SessionMetrics::default();
    metrics.record_attempt(150, true);
    metrics.record_attempt(320, false);
    metrics.record_attempt(90, true);

    assert_eq!(metrics.answered, 3);
    assert_eq!(metrics.correct, 2);
    assert_eq!(metrics.current_streak, 1);
    assert_eq!(metrics.longest_streak, 1);
    assert_eq!(metrics.fastest_ms, Some(90));
    assert_eq!(metrics.slowest_ms, Some(320));
    let accuracy = metrics.accuracy();
    assert!((accuracy.numerator as f32 / accuracy.denominator as f32 - 0.6666).abs() < 0.01);
    let (total, count) = metrics.average_duration_ms().unwrap();
    assert!(total as f32 / count as f32 > 180.0);
}

#[test]
fn empty_metrics_have_zero_accuracy_and_no_pacing() {
    let metrics = SessionMetrics::default();
    let accuracy = metrics.accuracy();
    assert_eq!((accuracy.numerator, accuracy.denominator), (0, 1));
    assert!(metrics.average_duration_ms().is_none());
    assert_eq!(metrics.fastest_ms, None);
}

#[test]
fn streaks_and_saturating_duration() {
    let mut metrics = SessionMetrics::default();
    metrics.record_attempt(u128::MAX, true);
    metrics.record_attempt(5, true);
    metrics.record_attempt(7, true);
    assert_eq!(metrics.total_duration_ms, u128::MAX);
    assert_eq!(metrics.current_streak, 3);
    assert_eq!(metrics.longest_streak, 3);
    metrics.record_attempt(1, false);
    assert_eq!(metrics.current_streak, 0);
    assert_eq!(metrics.longest_streak, 3);
    assert_eq!(metrics.fastest_ms, Some(1));
    assert_eq!(metrics.slowest_ms, Some(u128::MAX));
    assert_eq!(metrics.average_duration_ms(), Some((u128::MAX, 4)));
}

#[test]
fn progress_snapshot_tracks_completions_once() {
    let mut metrics = SessionMetrics::default();
    metrics.record_attempt(200, true);

    let mut snapshot = ProgressSnapshot::default();
    snapshot.push_completed("ex_1", metrics.clone());
    snapshot.push_completed("ex_1", metrics.clone());
    snapshot.push_completed("ex_2", metrics.clone());

    assert!(snapshot.is_completed("ex_1"));
    assert!(snapshot.is_completed("ex_2"));
    assert!(!snapshot.is_completed("ex_3"));
    assert_eq!(snapshot.completed_exercises, vec!["ex_1".to_string(), "ex_2".to_string()]);
    assert_eq!(snapshot.metrics, metrics);
}
