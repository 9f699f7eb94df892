use vstd::prelude::*;
use crate::text::{contains_text, texts};

verus! {

/// Session-level metrics on pacing and accuracy.
#[derive(Debug, Clone, Copy, PartialEq, Eq)]
pub struct SessionMetrics {
    /// Number of answers recorded in the session.
    pub answered: usize,
    /// Number of correct answers.
    pub correct: usize,
    /// Sum of per-question durations in milliseconds (saturating).
    pub total_duration_ms: u128,
    /// Fastest answer duration in milliseconds.
    pub fastest_ms: Option<u128>,
    /// Slowest answer duration in milliseconds.
    pub slowest_ms: Option<u128>,
    /// Current run of consecutive correct answers.
    pub current_streak: usize,
    /// Longest run of consecutive correct answers in the session.
    pub longest_streak: usize,
}

pub open spec fn min_u128(a: u128, b: u128) -> u128 {
    if a <= b {
        a
    } else {
        b
    }
}

pub open spec fn max_u128(a: u128, b: u128) -> u128 {
    if a >= b {
        a
    } else {
        b
    }
}

pub open spec fn max_usize(a: usize, b: usize) -> usize {
    if a >= b {
        a
    } else {
        b
    }
}

pub open spec fn saturating_sum(a: u128, b: u128) -> u128 {
    if a + b > u128::MAX {
        u128::MAX
    } else {
        (a + b) as u128
    }
}

impl SessionMetrics {
    /// Metrics of a session in which nothing has been answered.
    pub open spec fn empty() -> SessionMetrics {
        SessionMetrics {
            answered: 0,
            correct: 0,
            total_duration_ms: 0,
            fastest_ms: None,
            slowest_ms: None,
            current_streak: 0,
            longest_streak: 0,
        }
    }

    /// Whether one more attempt can be counted without a counter overflowing.
    pub open spec fn can_record(self, was_correct: bool) -> bool {
        &&& self.answered < usize::MAX
        &&& was_correct ==> self.correct < usize::MAX && self.current_streak < usize::MAX
    }

    /// The metrics after one more attempt that took `duration_ms` and was or was not correct.
    pub open spec fn after_attempt(self, duration_ms: u128, was_correct: bool) -> SessionMetrics {
        SessionMetrics {
            answered: (self.answered + 1) as usize,
            correct: if was_correct {
                (self.correct + 1) as usize
            } else {
                self.correct
            },
            total_duration_ms: saturating_sum(self.total_duration_ms, duration_ms),
            fastest_ms: Some(
                match self.fastest_ms {
                    Some(existing) => min_u128(existing, duration_ms),
                    None => duration_ms,
                },
            ),
            slowest_ms: Some(
                match self.slowest_ms {
                    Some(existing) => max_u128(existing, duration_ms),
                    None => duration_ms,
                },
            ),
            current_streak: if was_correct {
                (self.current_streak + 1) as usize
            } else {
                0
            },
            longest_streak: if was_correct {
                max_usize(self.longest_streak, (self.current_streak + 1) as usize)
            } else {
                self.longest_streak
            },
        }
    }

    /// The relations that hold between the counters of any session built by recording
    /// attempts from the empty metrics.
    pub open spec fn consistent(self) -> bool {
        &&& self.correct <= self.answered
        &&& self.current_streak <= self.longest_streak
        &&& self.longest_streak <= self.correct
        &&& (self.answered == 0 <==> self.fastest_ms is None)
        &&& (self.answered == 0 <==> self.slowest_ms is None)
        &&& (self.fastest_ms matches Some(f) ==> self.slowest_ms matches Some(s) && f <= s
            && s <= self.total_duration_ms)
    }

    /// Record the outcome of a single answered exercise.
    pub fn record_attempt(&mut self, duration_ms: u128, was_correct: bool)
        requires
            old(self).can_record(was_correct),
        ensures
            *final(self) == old(self).after_attempt(duration_ms, was_correct),
    {
        self.answered += 1;
        self.total_duration_ms = self.total_duration_ms.saturating_add(duration_ms);

        match self.fastest_ms {
            Some(existing) => self.fastest_ms = Some(
                if existing <= duration_ms {
                    existing
                } else {
                    duration_ms
                },
            ),
            None => self.fastest_ms = Some(duration_ms),
        }

        match self.slowest_ms {
            Some(existing) => self.slowest_ms = Some(
                if existing >= duration_ms {
                    existing
                } else {
                    duration_ms
                },
            ),
            None => self.slowest_ms = Some(duration_ms),
        }

        if was_correct {
            self.correct += 1;
            self.current_streak += 1;
            if self.current_streak > self.longest_streak {
                self.longest_streak = self.current_streak;
            }
        } else {
            self.current_streak = 0;
        }
    }

    /// Accuracy as the ratio of correct to answered exercises; `0 / 1` before any answer.
    pub fn accuracy(&self) -> (r: crate::model::evaluation::Fraction)
        ensures
            self.answered == 0 ==> r.numerator == 0 && r.denominator == 1,
            self.answered > 0 ==> r.numerator == self.correct && r.denominator == self.answered,
    {
        if self.answered == 0 {
            crate::model::evaluation::Fraction::new(0, 1)
        } else {
            crate::model::evaluation::Fraction::new(self.correct as u64, self.answered as u64)
        }
    }

    /// Average pacing per answered exercise, as the pair (total milliseconds, answers) whose
    /// quotient it is; `None` before any answer.
    pub fn average_duration_ms(&self) -> (r: Option<(u128, usize)>)
        ensures
            self.answered == 0 ==> r is None,
            self.answered > 0 ==> r == Some((self.total_duration_ms, self.answered)),
    {
        if self.answered == 0 {
            None
        } else {
            Some((self.total_duration_ms, self.answered))
        }
    }
}

impl Default for SessionMetrics {
    fn default() -> (r: SessionMetrics)
        ensures
            r == SessionMetrics::empty(),
    {
        SessionMetrics {
            answered: 0,
            correct: 0,
            total_duration_ms: 0,
            fastest_ms: None,
            slowest_ms: None,
            current_streak: 0,
            longest_streak: 0,
        }
    }
}

/// Snapshot that can be persisted between sessions.
#[derive(Debug, Clone, PartialEq)]
pub struct ProgressSnapshot {
    /// Exercises completed (by id) in order of completion.
    pub completed_exercises: Vec<String>,
    /// Session metrics accumulated so far.
    pub metrics: SessionMetrics,
}

/// The completed identifiers after completing `id`: unchanged when `id` is already among
/// them, else with `id` appended.
pub open spec fn with_completed(ids: Seq<Seq<char>>, id: Seq<char>) -> Seq<Seq<char>> {
    if ids.contains(id) {
        ids
    } else {
        ids.push(id)
    }
}

/// What a progress snapshot holds, as mathematical values.
pub struct SnapshotView {
    pub completed: Seq<Seq<char>>,
    pub metrics: SessionMetrics,
}

impl View for ProgressSnapshot {
    type V = SnapshotView;

    open spec fn view(&self) -> SnapshotView {
        SnapshotView { completed: self.completed_ids(), metrics: self.metrics }
    }
}

impl ProgressSnapshot {
    /// The completed identifiers, as texts.
    pub open spec fn completed_ids(&self) -> Seq<Seq<char>> {
        texts(self.completed_exercises@)
    }

    /// Mark an exercise as completed (once) and store the given metrics.
    pub fn push_completed(&mut self, exercise_id: &str, metrics: SessionMetrics)
        ensures
            final(self).completed_ids() == with_completed(old(self).completed_ids(), exercise_id@),
            final(self).metrics == metrics,
    {
        if !contains_text(&self.completed_exercises, exercise_id) {
            self.completed_exercises.push(exercise_id.to_owned());
            assert(texts(self.completed_exercises@) =~= texts(old(self).completed_exercises@).push(
                exercise_id@,
            ));
        }
        self.metrics = metrics;
    }

    /// Whether the given exercise was already completed.
    pub fn is_completed(&self, exercise_id: &str) -> (r: bool)
        ensures
            r == self.completed_ids().contains(exercise_id@),
    {
        contains_text(&self.completed_exercises, exercise_id)
    }
}

impl Default for ProgressSnapshot {
    fn default() -> (r: ProgressSnapshot)
        ensures
            r.completed_ids() == Seq::<Seq<char>>::empty(),
            r.metrics == SessionMetrics::empty(),
    {
        let r = ProgressSnapshot { completed_exercises: Vec::new(), metrics: SessionMetrics::default() };
        assert(r.completed_ids() =~= Seq::<Seq<char>>::empty());
        r
    }
}

} // verus!
