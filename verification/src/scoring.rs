use vstd::prelude::*;
use crate::model::evaluation::{Evaluation, Fraction};
use crate::model::exercise::Exercise;
use crate::model::session::{with_completed, ProgressSnapshot, SessionMetrics, SnapshotView};

verus! {

/// Events emitted during a learner session.
#[derive(Debug, PartialEq)]
pub enum SessionEvent {
    Started { total_exercises: usize },
    Answered { outcome: ScoreOutcome, metrics: SessionMetrics },
    Completed { metrics: SessionMetrics, snapshot: ProgressSnapshot },
}

/// Outcome of scoring a single exercise.
#[derive(Debug, PartialEq)]
pub struct ScoreOutcome {
    pub exercise_id: String,
    pub score: Fraction,
    pub points_awarded: u32,
    pub duration_ms: u128,
    pub was_correct: bool,
    pub streak: usize,
}

/// What a score outcome holds, as mathematical values.
pub struct OutcomeView {
    pub exercise_id: Seq<char>,
    pub score: Fraction,
    pub points_awarded: u32,
    pub duration_ms: u128,
    pub was_correct: bool,
    pub streak: usize,
}

impl View for ScoreOutcome {
    type V = OutcomeView;

    open spec fn view(&self) -> OutcomeView {
        OutcomeView {
            exercise_id: self.exercise_id@,
            score: self.score,
            points_awarded: self.points_awarded,
            duration_ms: self.duration_ms,
            was_correct: self.was_correct,
            streak: self.streak,
        }
    }
}

/// What a session event holds, as mathematical values.
pub enum EventView {
    Started { total_exercises: usize },
    Answered { outcome: OutcomeView, metrics: SessionMetrics },
    Completed { metrics: SessionMetrics, snapshot: SnapshotView },
}

impl View for SessionEvent {
    type V = EventView;

    open spec fn view(&self) -> EventView {
        match self {
            SessionEvent::Started { total_exercises } => EventView::Started {
                total_exercises: *total_exercises,
            },
            SessionEvent::Answered { outcome, metrics } => EventView::Answered {
                outcome: outcome@,
                metrics: *metrics,
            },
            SessionEvent::Completed { metrics, snapshot } => EventView::Completed {
                metrics: *metrics,
                snapshot: snapshot@,
            },
        }
    }
}

/// The views of a list of events, in order.
pub open spec fn events_view(events: Seq<SessionEvent>) -> Seq<EventView> {
    events.map_values(|e: SessionEvent| e@)
}

impl Clone for ScoreOutcome {
    fn clone(&self) -> (r: ScoreOutcome)
        ensures
            r@ == self@,
    {
        ScoreOutcome {
            exercise_id: self.exercise_id.clone(),
            score: self.score,
            points_awarded: self.points_awarded,
            duration_ms: self.duration_ms,
            was_correct: self.was_correct,
            streak: self.streak,
        }
    }
}

fn copy_snapshot(snapshot: &ProgressSnapshot) -> (r: ProgressSnapshot)
    ensures
        r@ == snapshot@,
{
    let ids = snapshot.completed_exercises.clone();
    proof {
        assert forall|i: int| 0 <= i < ids@.len() implies ids@[i] == snapshot.completed_exercises@[i] by {
            assert(vstd::pervasive::cloned::<String>(snapshot.completed_exercises[i], ids[i]));
        }
        assert(ids@ =~= snapshot.completed_exercises@);
        assert(crate::text::texts(ids@) =~= crate::text::texts(snapshot.completed_exercises@));
    }
    ProgressSnapshot { completed_exercises: ids, metrics: snapshot.metrics }
}

impl Clone for SessionEvent {
    fn clone(&self) -> (r: SessionEvent)
        ensures
            r@ == self@,
    {
        match self {
            SessionEvent::Started { total_exercises } => SessionEvent::Started {
                total_exercises: *total_exercises,
            },
            SessionEvent::Answered { outcome, metrics } => SessionEvent::Answered {
                outcome: outcome.clone(),
                metrics: *metrics,
            },
            SessionEvent::Completed { metrics, snapshot } => SessionEvent::Completed {
                metrics: *metrics,
                snapshot: copy_snapshot(snapshot),
            },
        }
    }
}

// ---------------------------------------------------------------------------------------
// Points
// ---------------------------------------------------------------------------------------

/// `score * 120` rounded to the nearest integer, halves away from zero; 0 for an undefined
/// score.
pub open spec fn rounded_score_points(score: Fraction) -> nat {
    if score.denominator == 0 {
        0
    } else {
        ((240 * score.numerator + score.denominator) / (2 * score.denominator)) as nat
    }
}

/// The rounded score points, capped at the largest `u32`.
pub open spec fn score_points(score: Fraction) -> nat {
    if rounded_score_points(score) > u32::MAX {
        u32::MAX as nat
    } else {
        rounded_score_points(score)
    }
}

pub open spec fn correctness_points(was_correct: bool) -> nat {
    if was_correct {
        40
    } else {
        15
    }
}

/// Bonus for answering within 20 s (15) or 40 s (8).
pub open spec fn speed_bonus(duration_ms: u128) -> nat {
    if duration_ms <= 20_000 {
        15
    } else if duration_ms <= 40_000 {
        8
    } else {
        0
    }
}

/// Five points per correct answer in the streak beyond the first, counted modulo `2^32`.
pub open spec fn streak_bonus(streak: usize) -> nat {
    let beyond_first: nat = if streak >= 1 {
        (streak - 1) as nat
    } else {
        0
    };
    (beyond_first % 0x1_0000_0000) * 5
}

/// The points awarded for one answer.
pub open spec fn points_for(score: Fraction, was_correct: bool, streak: usize, duration_ms: u128) -> nat {
    score_points(score) + correctness_points(was_correct) + speed_bonus(duration_ms) + streak_bonus(
        streak,
    )
}

/// The points awarded for one answer, computed without any cap.
pub fn points_total(score: Fraction, was_correct: bool, streak: usize, duration_ms: u128) -> (r: u128)
    ensures
        r == points_for(score, was_correct, streak, duration_ms),
{
    let num: u128 = score.numerator as u128;
    let den: u128 = score.denominator as u128;
    let rounded: u128 = if den == 0 {
        0
    } else {
        (240 * num + den) / (2 * den)
    };
    let base_score: u128 = if rounded > 0xffff_ffffu128 {
        0xffff_ffffu128
    } else {
        rounded
    };
    let correctness: u128 = if was_correct {
        40
    } else {
        15
    };
    let speed_bonus: u128 = if duration_ms <= 20_000 {
        15
    } else if duration_ms <= 40_000 {
        8
    } else {
        0
    };
    let beyond_first: usize = streak.saturating_sub(1);
    let wrapped: u128 = ((beyond_first as u64) % 0x1_0000_0000u64) as u128;
    base_score + correctness + speed_bonus + wrapped * 5
}

/// Compute the points awarded for one answer: the score scaled to 120 and rounded, 40 for a
/// correct answer or 15 otherwise, a speed bonus, and a streak bonus.
pub fn compute_points(score: Fraction, was_correct: bool, streak: usize, duration_ms: u128) -> (r: u32)
    requires
        points_for(score, was_correct, streak, duration_ms) <= u32::MAX,
    ensures
        r == points_for(score, was_correct, streak, duration_ms),
{
    points_total(score, was_correct, streak, duration_ms) as u32
}

/// The streak after one more answer.
pub open spec fn next_streak(streak: usize, was_correct: bool) -> usize {
    if was_correct {
        if streak == usize::MAX {
            usize::MAX
        } else {
            (streak + 1) as usize
        }
    } else {
        0
    }
}

pub open spec fn saturating_points(a: u32, b: nat) -> u32 {
    if a + b > u32::MAX {
        u32::MAX
    } else {
        (a + b) as u32
    }
}

// ---------------------------------------------------------------------------------------
// The tracker
// ---------------------------------------------------------------------------------------

/// Tracks session metrics and points while emitting high-level events.
#[derive(Debug, PartialEq)]
pub struct SessionTracker {
    metrics: SessionMetrics,
    snapshot: ProgressSnapshot,
    points: u32,
    events: Vec<SessionEvent>,
}

impl SessionTracker {
    pub closed spec fn tracker_metrics(&self) -> SessionMetrics {
        self.metrics
    }

    pub closed spec fn tracker_snapshot(&self) -> SnapshotView {
        self.snapshot@
    }

    pub closed spec fn tracker_points(&self) -> u32 {
        self.points
    }

    /// The current streak of consecutive correct answers: the metrics' current streak.
    pub open spec fn tracker_streak(&self) -> usize {
        self.tracker_metrics().current_streak
    }

    pub closed spec fn tracker_events(&self) -> Seq<EventView> {
        events_view(self.events@)
    }

    /// Whether `record_answer` can record an answer with this correctness, score and duration
    /// without a counter overflowing.
    pub open spec fn can_record(&self, evaluation: Evaluation, duration_ms: u128) -> bool {
        &&& self.tracker_metrics().can_record(evaluation.correct)
        &&& points_for(
            evaluation.score,
            evaluation.correct,
            next_streak(self.tracker_streak(), evaluation.correct),
            duration_ms,
        ) <= u32::MAX
    }

    /// Whether an answer with this evaluation and duration can be recorded without a counter
    /// overflowing.
    pub fn can_record_answer(&self, evaluation: &Evaluation, duration_ms: u128) -> (r: bool)
        ensures
            r == self.can_record(*evaluation, duration_ms),
    {
        if self.metrics.answered == usize::MAX {
            return false;
        }
        if evaluation.correct && (self.metrics.correct == usize::MAX || self.metrics.current_streak
            == usize::MAX) {
            return false;
        }
        let streak = if evaluation.correct {
            self.metrics.current_streak.saturating_add(1)
        } else {
            0
        };
        points_total(evaluation.score, evaluation.correct, streak, duration_ms) <= 0xffff_ffffu128
    }

    /// Start a session over `total_exercises` exercises; emits the `Started` event.
    pub fn new(total_exercises: usize) -> (r: SessionTracker)
        ensures
            r.tracker_metrics() == SessionMetrics::empty(),
            r.tracker_snapshot().completed == Seq::<Seq<char>>::empty(),
            r.tracker_snapshot().metrics == SessionMetrics::empty(),
            r.tracker_points() == 0,
            r.tracker_streak() == 0,
            r.tracker_events() == seq![EventView::Started { total_exercises }],
    {
        let mut tracker = SessionTracker {
            metrics: SessionMetrics::default(),
            snapshot: ProgressSnapshot::default(),
            points: 0,
            events: Vec::new(),
        };
        tracker.events.push(SessionEvent::Started { total_exercises });
        assert(events_view(tracker.events@) =~= seq![EventView::Started { total_exercises }]);
        tracker
    }

    /// Register an answered exercise and emit the `Answered` event.
    pub fn record_answer(&mut self, exercise: &Exercise, evaluation: &Evaluation, duration_ms: u128) -> (r: SessionEvent)
        requires
            old(self).can_record(*evaluation, duration_ms),
        ensures
            final(self).tracker_metrics() == old(self).tracker_metrics().after_attempt(
                duration_ms,
                evaluation.correct,
            ),
            final(self).tracker_streak() == next_streak(old(self).tracker_streak(), evaluation.correct),
            final(self).tracker_points() == saturating_points(
                old(self).tracker_points(),
                points_for(
                    evaluation.score,
                    evaluation.correct,
                    final(self).tracker_streak(),
                    duration_ms,
                ),
            ),
            r matches SessionEvent::Answered { outcome, metrics } && {
                &&& outcome.exercise_id@ == exercise@.id()
                &&& outcome.score == evaluation.score
                &&& outcome.points_awarded == points_for(
                    evaluation.score,
                    evaluation.correct,
                    final(self).tracker_streak(),
                    duration_ms,
                )
                &&& outcome.duration_ms == duration_ms
                &&& outcome.was_correct == evaluation.correct
                &&& outcome.streak == final(self).tracker_streak()
                &&& outcome.streak == metrics.current_streak
                &&& metrics == final(self).tracker_metrics()
            },
            final(self).tracker_snapshot().completed == with_completed(
                old(self).tracker_snapshot().completed,
                exercise@.id(),
            ),
            final(self).tracker_snapshot().metrics == final(self).tracker_metrics(),
            final(self).tracker_events() == old(self).tracker_events().push(r@),
    {
        self.metrics.record_attempt(duration_ms, evaluation.correct);
        let streak = self.metrics.current_streak;

        let points_awarded = compute_points(
            evaluation.score,
            evaluation.correct,
            streak,
            duration_ms,
        );
        self.points = self.points.saturating_add(points_awarded);

        let outcome = ScoreOutcome {
            exercise_id: exercise.id().to_owned(),
            score: evaluation.score,
            points_awarded,
            duration_ms,
            was_correct: evaluation.correct,
            streak,
        };

        self.snapshot.push_completed(outcome.exercise_id.as_str(), self.metrics);

        let event = SessionEvent::Answered { outcome, metrics: self.metrics };
        let ghost before = self.events@;
        self.events.push(event.clone());
        assert(events_view(self.events@) =~= events_view(before).push(event@));
        event
    }

    /// Emit the `Completed` event with the accumulated metrics and snapshot.
    pub fn complete(&mut self) -> (r: SessionEvent)
        ensures
            r@ == (EventView::Completed {
                metrics: old(self).tracker_metrics(),
                snapshot: old(self).tracker_snapshot(),
            }),
            final(self).tracker_metrics() == old(self).tracker_metrics(),
            final(self).tracker_snapshot() == old(self).tracker_snapshot(),
            final(self).tracker_points() == old(self).tracker_points(),
            final(self).tracker_streak() == old(self).tracker_streak(),
            final(self).tracker_events() == old(self).tracker_events().push(r@),
    {
        let event = SessionEvent::Completed {
            metrics: self.metrics,
            snapshot: copy_snapshot(&self.snapshot),
        };
        let ghost before = self.events@;
        self.events.push(event.clone());
        assert(events_view(self.events@) =~= events_view(before).push(event@));
        event
    }

    pub fn metrics(&self) -> (r: &SessionMetrics)
        ensures
            *r == self.tracker_metrics(),
    {
        &self.metrics
    }

    pub fn snapshot(&self) -> (r: &ProgressSnapshot)
        ensures
            r@ == self.tracker_snapshot(),
    {
        &self.snapshot
    }

    pub fn points(&self) -> (r: u32)
        ensures
            r == self.tracker_points(),
    {
        self.points
    }

    /// The current streak of consecutive correct answers.
    pub fn streak(&self) -> (r: usize)
        ensures
            r == self.tracker_streak(),
    {
        self.metrics.current_streak
    }

    pub fn events(&self) -> (r: &[SessionEvent])
        ensures
            events_view(r@) == self.tracker_events(),
    {
        self.events.as_slice()
    }
}

impl Clone for SessionTracker {
    /// A tracker with the same metrics, snapshot, points and events.
    fn clone(&self) -> (r: SessionTracker)
        ensures
            r.tracker_metrics() == self.tracker_metrics(),
            r.tracker_snapshot() == self.tracker_snapshot(),
            r.tracker_points() == self.tracker_points(),
            r.tracker_events() == self.tracker_events(),
    {
        let mut events: Vec<SessionEvent> = Vec::new();
        let mut i: usize = 0;
        while i < self.events.len()
            invariant
                i <= self.events@.len(),
                events_view(events@) == events_view(self.events@.take(i as int)),
            decreases self.events.len() - i,
        {
            let event = self.events[i].clone();
            let ghost before = events@;
            events.push(event);
            assert(self.events@.take(i + 1) =~= self.events@.take(i as int).push(self.events@[i as int]));
            assert(events_view(events@) =~= events_view(before).push(event@));
            assert(events_view(self.events@.take(i + 1)) =~= events_view(self.events@.take(i as int)).push(
                self.events@[i as int]@,
            ));
            i = i + 1;
        }
        assert(self.events@.take(self.events@.len() as int) =~= self.events@);
        SessionTracker {
            metrics: self.metrics,
            snapshot: copy_snapshot(&self.snapshot),
            points: self.points,
            events,
        }
    }
}

} // verus!
