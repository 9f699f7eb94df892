use vstd::prelude::*;

verus! {

/// A learner's answer to one exercise.
///
/// Frontends build these from UI input and hand them to the engine.
#[derive(Debug, Clone)]
pub enum Answer {
    /// For classification exercises: the index of the chosen category for each item, in
    /// item order. Its length must match the number of items.
    Classification(Vec<usize>),
    /// Indices of the selected options (0-based).
    MultipleChoice(Vec<usize>),
    /// Index of the chosen scenario choice (0-based).
    Scenario(usize),
}

/// What an answer holds, as mathematical values.
pub enum AnswerView {
    Classification(Seq<usize>),
    MultipleChoice(Seq<usize>),
    Scenario(usize),
}

impl View for Answer {
    type V = AnswerView;

    open spec fn view(&self) -> AnswerView {
        match self {
            Answer::Classification(v) => AnswerView::Classification(v@),
            Answer::MultipleChoice(v) => AnswerView::MultipleChoice(v@),
            Answer::Scenario(i) => AnswerView::Scenario(*i),
        }
    }
}

} // verus!
