use vstd::prelude::*;

verus! {

/// An exact non-negative ratio `numerator / denominator`.
///
/// A denominator of zero stands for a quotient that is not defined (`0 / 0`).
#[derive(Debug, Clone, Copy, PartialEq, Eq)]
pub struct Fraction {
    pub numerator: u64,
    pub denominator: u64,
}

impl Fraction {
    /// The ratio `numerator / denominator`.
    pub fn new(numerator: u64, denominator: u64) -> (r: Fraction)
        ensures
            r.numerator == numerator,
            r.denominator == denominator,
    {
        Fraction { numerator, denominator }
    }

    /// Whether the ratio is defined and lies between 0 and 1.
    pub open spec fn in_unit_range(self) -> bool {
        0 < self.denominator && self.numerator <= self.denominator
    }
}

/// Result of evaluating an answer.
#[derive(Debug, Clone)]
pub struct Evaluation {
    /// Whether the answer is fully correct.
    pub correct: bool,
    /// Score, a ratio between 0 and 1.
    pub score: Fraction,
    /// Text feedback.
    pub feedback: String,
}

/// What an evaluation holds, as mathematical values.
pub struct EvaluationView {
    pub correct: bool,
    pub score: Fraction,
    pub feedback: Seq<char>,
}

impl View for Evaluation {
    type V = EvaluationView;

    open spec fn view(&self) -> EvaluationView {
        EvaluationView { correct: self.correct, score: self.score, feedback: self.feedback@ }
    }
}

} // verus!
