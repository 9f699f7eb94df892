use vstd::prelude::*;
use crate::text::texts;

verus! {

/// A single exercise: classification, multiple-choice or scenario.
///
/// Exercises are written in JSON or TOML and consumed by frontends.
#[derive(Debug, Clone)]
pub enum Exercise {
    /// Sort each item into one of the categories (e.g. "action" vs "event").
    Classification {
        /// Unique identifier for this exercise.
        id: String,
        /// Short title for the UI.
        title: String,
        /// Main prompt or instruction.
        prompt: String,
        /// Category labels (e.g. `["action", "event"]`).
        categories: Vec<String>,
        /// Items to classify.
        items: Vec<ClassificationItem>,
    },
    /// Pick the correct option, or options when `multi_select` is set.
    MultipleChoice {
        id: String,
        title: String,
        prompt: String,
        /// Display options.
        options: Vec<String>,
        /// Indices of the correct options (0-based).
        correct_indices: Vec<usize>,
        /// If true, several selections are allowed; otherwise exactly one.
        multi_select: bool,
    },
    /// A praxeological situation with several possible moves.
    Scenario {
        id: String,
        title: String,
        /// Background of the situation.
        description: String,
        /// Question posed to the learner.
        prompt: String,
        /// Available choices, each with feedback.
        choices: Vec<ScenarioChoice>,
    },
}

/// Item of a classification exercise.
#[derive(Debug, Clone)]
pub struct ClassificationItem {
    /// Text of the statement.
    pub text: String,
    /// Name of the correct category.
    pub correct_category: String,
}

/// Choice of a scenario exercise.
#[derive(Debug, Clone)]
pub struct ScenarioChoice {
    /// Label shown to the learner.
    pub label: String,
    /// Whether this is the praxeologically consistent choice.
    pub is_correct: bool,
    /// Feedback shown after selection.
    pub feedback: String,
}

/// What a classification item holds, as text.
pub struct ItemView {
    pub text: Seq<char>,
    pub correct_category: Seq<char>,
}

/// What a scenario choice holds, as text.
pub struct ChoiceView {
    pub label: Seq<char>,
    pub is_correct: bool,
    pub feedback: Seq<char>,
}

/// What an exercise holds, as mathematical values.
pub enum ExerciseView {
    Classification {
        id: Seq<char>,
        title: Seq<char>,
        prompt: Seq<char>,
        categories: Seq<Seq<char>>,
        items: Seq<ItemView>,
    },
    MultipleChoice {
        id: Seq<char>,
        title: Seq<char>,
        prompt: Seq<char>,
        options: Seq<Seq<char>>,
        correct_indices: Seq<usize>,
        multi_select: bool,
    },
    Scenario {
        id: Seq<char>,
        title: Seq<char>,
        description: Seq<char>,
        prompt: Seq<char>,
        choices: Seq<ChoiceView>,
    },
}

impl ExerciseView {
    pub open spec fn id(self) -> Seq<char> {
        match self {
            ExerciseView::Classification { id, .. } => id,
            ExerciseView::MultipleChoice { id, .. } => id,
            ExerciseView::Scenario { id, .. } => id,
        }
    }

    pub open spec fn title(self) -> Seq<char> {
        match self {
            ExerciseView::Classification { title, .. } => title,
            ExerciseView::MultipleChoice { title, .. } => title,
            ExerciseView::Scenario { title, .. } => title,
        }
    }
}

impl View for ClassificationItem {
    type V = ItemView;

    open spec fn view(&self) -> ItemView {
        ItemView { text: self.text@, correct_category: self.correct_category@ }
    }
}

impl View for ScenarioChoice {
    type V = ChoiceView;

    open spec fn view(&self) -> ChoiceView {
        ChoiceView { label: self.label@, is_correct: self.is_correct, feedback: self.feedback@ }
    }
}

impl View for Exercise {
    type V = ExerciseView;

    open spec fn view(&self) -> ExerciseView {
        match self {
            Exercise::Classification { id, title, prompt, categories, items } => {
                ExerciseView::Classification {
                    id: id@,
                    title: title@,
                    prompt: prompt@,
                    categories: texts(categories@),
                    items: items@.map_values(|i: ClassificationItem| i@),
                }
            },
            Exercise::MultipleChoice {
                id,
                title,
                prompt,
                options,
                correct_indices,
                multi_select,
            } => ExerciseView::MultipleChoice {
                id: id@,
                title: title@,
                prompt: prompt@,
                options: texts(options@),
                correct_indices: correct_indices@,
                multi_select: *multi_select,
            },
            Exercise::Scenario { id, title, description, prompt, choices } => {
                ExerciseView::Scenario {
                    id: id@,
                    title: title@,
                    description: description@,
                    prompt: prompt@,
                    choices: choices@.map_values(|c: ScenarioChoice| c@),
                }
            },
        }
    }
}

impl Exercise {
    /// The exercise's identifier.
    pub fn id(&self) -> (r: &str)
        ensures
            r@ == self@.id(),
    {
        match self {
            Exercise::Classification { id, .. } => id.as_str(),
            Exercise::MultipleChoice { id, .. } => id.as_str(),
            Exercise::Scenario { id, .. } => id.as_str(),
        }
    }

    /// The exercise's title.
    pub fn title(&self) -> (r: &str)
        ensures
            r@ == self@.title(),
    {
        match self {
            Exercise::Classification { title, .. } => title.as_str(),
            Exercise::MultipleChoice { title, .. } => title.as_str(),
            Exercise::Scenario { title, .. } => title.as_str(),
        }
    }
}

} // verus!
