use vstd::prelude::*;
use vstd::string::*;
use vstd::std_specs::iter::IteratorSpec;
use crate::error::PraxeumError;
use crate::model::answer::{Answer, AnswerView};
use crate::model::evaluation::{Evaluation, EvaluationView, Fraction};
use crate::model::exercise::{
    ChoiceView, ClassificationItem, Exercise, ExerciseView, ItemView, ScenarioChoice,
};
use crate::text::{debug_list_string, debug_list_text, decimal_text, joined, lemma_joined_push, same_text, texts};

verus! {

// ---------------------------------------------------------------------------------------
// What evaluation gives, stated over exercise views
// ---------------------------------------------------------------------------------------

/// The feedback line for one classified item.
pub open spec fn classification_line(text: Seq<char>, chosen: Seq<char>, expected: Seq<char>) -> Seq<char> {
    if chosen == expected {
        "✓ \""@ + text + "\" → "@ + chosen
    } else {
        "✗ \""@ + text + "\" → "@ + chosen + " (correct: "@ + expected + ")"@
    }
}

/// Classifying the first `n` items: the number matched and the feedback lines, or the
/// position of the first category index that is out of range.
pub open spec fn classification_progress(
    categories: Seq<Seq<char>>,
    items: Seq<ItemView>,
    indices: Seq<usize>,
    n: nat,
) -> Result<(nat, Seq<Seq<char>>), nat>
    decreases n,
{
    if n == 0 {
        Ok((0, Seq::empty()))
    } else {
        match classification_progress(categories, items, indices, (n - 1) as nat) {
            Err(p) => Err(p),
            Ok((count, lines)) => {
                let k = n - 1;
                if indices[k] >= categories.len() {
                    Err(k as nat)
                } else {
                    let chosen = categories[indices[k] as int];
                    let hit = chosen == items[k].correct_category;
                    Ok(
                        (
                            if hit {
                                count + 1
                            } else {
                                count
                            },
                            lines.push(
                                classification_line(items[k].text, chosen, items[k].correct_category),
                            ),
                        ),
                    )
                }
            },
        }
    }
}

/// Once a prefix of the answer holds an index out of range, every longer prefix reports
/// that same position.
proof fn lemma_classification_error_persists(
    categories: Seq<Seq<char>>,
    items: Seq<ItemView>,
    indices: Seq<usize>,
    m: nat,
    n: nat,
)
    requires
        m <= n,
        classification_progress(categories, items, indices, m) is Err,
    ensures
        classification_progress(categories, items, indices, n) == classification_progress(
            categories,
            items,
            indices,
            m,
        ),
    decreases n - m,
{
    if m < n {
        lemma_classification_error_persists(categories, items, indices, m, (n - 1) as nat);
    }
}

/// Evaluation of a classification answer, or the message of the error it is refused with.
/// The score is the share of items placed right; with no items every item is right (`1 / 1`).
pub open spec fn classification_evaluation(
    categories: Seq<Seq<char>>,
    items: Seq<ItemView>,
    indices: Seq<usize>,
) -> Result<EvaluationView, Seq<char>> {
    if indices.len() != items.len() {
        Err("Classification answer length does not match item count"@)
    } else {
        match classification_progress(categories, items, indices, items.len()) {
            Err(p) => Err("Invalid category index at position "@ + decimal_text(p)),
            Ok((count, lines)) => Ok(
                EvaluationView {
                    correct: count == items.len(),
                    score: if items.len() == 0 {
                        Fraction { numerator: 1, denominator: 1 }
                    } else {
                        Fraction { numerator: count as u64, denominator: items.len() as u64 }
                    },
                    feedback: joined(lines, "\n"@),
                },
            ),
        }
    }
}

/// The score of a multiple-choice answer: the size of the intersection of the selected and
/// correct index sets over the size of their union, and `0 / 1` when both are empty.
pub open spec fn multiple_choice_score(correct: Set<usize>, selected: Set<usize>) -> Fraction {
    if correct.union(selected).len() == 0 {
        Fraction { numerator: 0, denominator: 1 }
    } else {
        Fraction {
            numerator: correct.intersect(selected).len() as u64,
            denominator: correct.union(selected).len() as u64,
        }
    }
}

/// Evaluation of a multiple-choice answer.
pub open spec fn multiple_choice_evaluation(correct_indices: Seq<usize>, selected: Seq<usize>) -> EvaluationView {
    EvaluationView {
        correct: selected.to_set() == correct_indices.to_set(),
        score: multiple_choice_score(correct_indices.to_set(), selected.to_set()),
        feedback: "Selected: "@ + debug_list_text(selected) + "\nCorrect:  "@ + debug_list_text(
            correct_indices,
        ),
    }
}

/// Evaluation of a scenario answer, or the message of the error it is refused with.
pub open spec fn scenario_evaluation(choices: Seq<ChoiceView>, selected: usize) -> Result<EvaluationView, Seq<char>> {
    if selected >= choices.len() {
        Err("Invalid scenario choice index"@)
    } else {
        let choice = choices[selected as int];
        Ok(
            EvaluationView {
                correct: choice.is_correct,
                score: if choice.is_correct {
                    Fraction { numerator: 1, denominator: 1 }
                } else {
                    Fraction { numerator: 0, denominator: 1 }
                },
                feedback: choice.feedback,
            },
        )
    }
}

/// Evaluation of `answer` against `exercise`, or the message of the `InvalidAnswer` error
/// it is refused with.
pub open spec fn evaluation_of(exercise: ExerciseView, answer: AnswerView) -> Result<EvaluationView, Seq<char>> {
    match (exercise, answer) {
        (ExerciseView::Classification { categories, items, .. }, AnswerView::Classification(indices)) => {
            classification_evaluation(categories, items, indices)
        },
        (ExerciseView::MultipleChoice { correct_indices, .. }, AnswerView::MultipleChoice(selected)) => {
            Ok(multiple_choice_evaluation(correct_indices, selected))
        },
        (ExerciseView::Scenario { choices, .. }, AnswerView::Scenario(index)) => {
            scenario_evaluation(choices, index)
        },
        (ExerciseView::Classification { .. }, _) => Err("Expected classification answer"@),
        (ExerciseView::MultipleChoice { .. }, _) => Err("Expected multiple-choice answer"@),
        (ExerciseView::Scenario { .. }, _) => Err("Expected scenario answer"@),
    }
}

/// Whether `r` is what evaluating `answer` against `exercise` gives.
pub open spec fn evaluates_to(exercise: ExerciseView, answer: AnswerView, r: Result<Evaluation, PraxeumError>) -> bool {
    match evaluation_of(exercise, answer) {
        Ok(v) => r matches Ok(e) && e@ == v,
        Err(m) => r matches Err(PraxeumError::InvalidAnswer(s)) && s@ == m,
    }
}

fn invalid_answer(message: &str) -> (r: PraxeumError)
    ensures
        r matches PraxeumError::InvalidAnswer(s) && s@ == message@,
{
    PraxeumError::InvalidAnswer(message.to_owned())
}

// ---------------------------------------------------------------------------------------
// Sets of indices
// ---------------------------------------------------------------------------------------

fn holds_index(xs: &Vec<usize>, x: usize) -> (r: bool)
    ensures
        r == xs@.contains(x),
{
    let mut i: usize = 0;
    while i < xs.len()
        invariant
            i <= xs@.len(),
            forall|j: int| 0 <= j < i ==> xs@[j] != x,
        decreases xs.len() - i,
    {
        if xs[i] == x {
            return true;
        }
        i = i + 1;
    }
    false
}

/// The distinct values of `xs`, in order of first occurrence.
fn distinct_indices(xs: &Vec<usize>) -> (r: Vec<usize>)
    ensures
        r@.no_duplicates(),
        r@.to_set() == xs@.to_set(),
{
    let mut r: Vec<usize> = Vec::new();
    let mut i: usize = 0;
    while i < xs.len()
        invariant
            i <= xs@.len(),
            r@.no_duplicates(),
            r@.to_set() == xs@.take(i as int).to_set(),
        decreases xs.len() - i,
    {
        let x = xs[i];
        let ghost before = r@;
        proof {
            assert(xs@.take(i + 1) =~= xs@.take(i as int).push(x));
            xs@.take(i as int).lemma_push_to_set_commute(x);
        }
        if !holds_index(&r, x) {
            r.push(x);
            proof {
                before.lemma_push_to_set_commute(x);
            }
        } else {
            assert(before.to_set().contains(x));
            assert(before.to_set().insert(x) =~= before.to_set());
        }
        i = i + 1;
    }
    assert(xs@.take(xs@.len() as int) =~= xs@);
    r
}

/// The number of values that `a` and `b` share, where `a` holds no value twice.
fn shared_count(a: &Vec<usize>, b: &Vec<usize>) -> (n: usize)
    requires
        a@.no_duplicates(),
    ensures
        n == a@.to_set().intersect(b@.to_set()).len(),
{
    broadcast use vstd::seq_lib::group_seq_properties;
    let ghost mut common: Seq<usize> = Seq::empty();
    let mut n: usize = 0;
    let mut i: usize = 0;
    while i < a.len()
        invariant
            i <= a@.len(),
            a@.no_duplicates(),
            n == common.len(),
            common.len() <= i,
            common.no_duplicates(),
            forall|x: usize| common.contains(x) <==> (a@.take(i as int).contains(x) && b@.contains(x)),
        decreases a.len() - i,
    {
        let x = a[i];
        proof {
            assert(a@.take(i + 1) =~= a@.take(i as int).push(x));
            assert(!a@.take(i as int).contains(x));
            assert(!common.contains(x));
        }
        let ghost prefix = a@.take(i as int);
        let ghost before = common;
        let held = holds_index(b, x);
        if held {
            proof {
                common = common.push(x);
            }
            n = n + 1;
        }
        assert forall|y: usize| common.contains(y) <==> (a@.take(i + 1).contains(y) && b@.contains(y)) by {
            assert(a@.take(i + 1) == prefix.push(x));
            if prefix.push(x).contains(y) && y != x {
                let k = choose|k: int| 0 <= k < prefix.push(x).len() && prefix.push(x)[k] == y;
                assert(prefix[k] == y);
            }
            if prefix.contains(y) {
                let k = choose|k: int| 0 <= k < prefix.len() && prefix[k] == y;
                assert(prefix.push(x)[k] == y);
            }
            if held {
                if common.contains(y) && y != x {
                    let k = choose|k: int| 0 <= k < common.len() && common[k] == y;
                    assert(before[k] == y);
                }
                if before.contains(y) {
                    let k = choose|k: int| 0 <= k < before.len() && before[k] == y;
                    assert(common[k] == y);
                }
                assert(common[common.len() - 1] == x);
            }
            assert(prefix.push(x)[prefix.len() as int] == x);
        }
        i = i + 1;
    }
    proof {
        assert(a@.take(a@.len() as int) =~= a@);
        common.unique_seq_to_set();
        assert(common.to_set() =~= a@.to_set().intersect(b@.to_set()));
    }
    n
}

/// The values of `a` followed by those of `b` that `a` lacks, where `a` holds no value twice.
fn union_indices(a: &Vec<usize>, b: &Vec<usize>) -> (r: Vec<usize>)
    requires
        a@.no_duplicates(),
        b@.no_duplicates(),
    ensures
        r@.no_duplicates(),
        r@.to_set() == a@.to_set().union(b@.to_set()),
{
    broadcast use vstd::seq_lib::group_seq_properties;
    let mut r = a.clone();
    assert(r@ =~= a@);
    let mut i: usize = 0;
    while i < b.len()
        invariant
            i <= b@.len(),
            a@.no_duplicates(),
            b@.no_duplicates(),
            r@.no_duplicates(),
            forall|x: usize| r@.contains(x) <==> (a@.contains(x) || b@.take(i as int).contains(x)),
        decreases b.len() - i,
    {
        let x = b[i];
        proof {
            assert(b@.take(i + 1) =~= b@.take(i as int).push(x));
        }
        let ghost prefix = b@.take(i as int);
        let ghost before = r@;
        let present = holds_index(&r, x);
        if !present {
            r.push(x);
        }
        assert forall|y: usize| r@.contains(y) <==> (a@.contains(y) || b@.take(i + 1).contains(y)) by {
            assert(b@.take(i + 1) == prefix.push(x));
            if prefix.push(x).contains(y) && y != x {
                let k = choose|k: int| 0 <= k < prefix.push(x).len() && prefix.push(x)[k] == y;
                assert(prefix[k] == y);
            }
            if prefix.contains(y) {
                let k = choose|k: int| 0 <= k < prefix.len() && prefix[k] == y;
                assert(prefix.push(x)[k] == y);
            }
            if !present {
                if r@.contains(y) && y != x {
                    let k = choose|k: int| 0 <= k < r@.len() && r@[k] == y;
                    assert(before[k] == y);
                }
                if before.contains(y) {
                    let k = choose|k: int| 0 <= k < before.len() && before[k] == y;
                    assert(r@[k] == y);
                }
                assert(r@[r@.len() - 1] == x);
            }
            assert(prefix.push(x)[prefix.len() as int] == x);
        }
        i = i + 1;
    }
    proof {
        assert(b@.take(b@.len() as int) =~= b@);
        assert(r@.to_set() =~= a@.to_set().union(b@.to_set()));
    }
    r
}

/// Whether every value of `a` is one of `b`.
fn all_held(a: &Vec<usize>, b: &Vec<usize>) -> (r: bool)
    ensures
        r == a@.to_set().subset_of(b@.to_set()),
{
    let mut i: usize = 0;
    while i < a.len()
        invariant
            i <= a@.len(),
            forall|j: int| 0 <= j < i ==> b@.contains(a@[j]),
        decreases a.len() - i,
    {
        if !holds_index(b, a[i]) {
            assert(a@.to_set().contains(a@[i as int]));
            return false;
        }
        i = i + 1;
    }
    assert forall|x: usize| a@.to_set().contains(x) implies b@.to_set().contains(x) by {
        let j = choose|j: int| 0 <= j < a@.len() && a@[j] == x;
        assert(b@.contains(a@[j]));
    }
    true
}

// ---------------------------------------------------------------------------------------
// The engine
// ---------------------------------------------------------------------------------------

/// A call that may move an engine's cursor: `reset`, `advance`, or `answer_current` that
/// accepts or refuses the answer.
pub enum CursorCall {
    Reset,
    Advance,
    AnswerAccepted,
    AnswerRefused,
}

/// The cursor after one call, on a list of `len` exercises.
pub open spec fn cursor_after(len: nat, cursor: nat, call: CursorCall) -> nat {
    match call {
        CursorCall::Reset => 0,
        CursorCall::AnswerRefused => cursor,
        _ => if cursor + 1 < len {
            cursor + 1
        } else {
            len
        },
    }
}

/// The cursor after a sequence of calls, in order.
pub open spec fn cursor_after_calls(len: nat, cursor: nat, calls: Seq<CursorCall>) -> nat
    decreases calls.len(),
{
    if calls.len() == 0 {
        cursor
    } else {
        cursor_after(len, cursor_after_calls(len, cursor, calls.drop_last()), calls.last())
    }
}

/// In-memory engine holding a set of exercises and a cursor into them.
#[derive(Debug)]
pub struct ExerciseEngine {
    exercises: Vec<Exercise>,
    index: usize,
}

impl ExerciseEngine {
    #[verifier::type_invariant]
    spec fn cursor_in_range(&self) -> bool {
        self.index <= self.exercises@.len()
    }

    /// The loaded exercises, in order.
    pub closed spec fn exercise_list(&self) -> Seq<Exercise> {
        self.exercises@
    }

    /// The cursor: the position of the current exercise; the length when past the end.
    pub closed spec fn cursor(&self) -> nat {
        self.index as nat
    }

    /// Whether this engine is `before` after `call`: the same exercises, and the cursor where
    /// the call puts it.
    pub open spec fn moved_by(&self, before: ExerciseEngine, call: CursorCall) -> bool {
        &&& self.exercise_list() == before.exercise_list()
        &&& self.cursor() == cursor_after(before.exercise_list().len(), before.cursor(), call)
    }

    /// Create an engine from a list of exercises, with the cursor on the first one.
    pub fn new(exercises: Vec<Exercise>) -> (r: ExerciseEngine)
        ensures
            r.exercise_list() == exercises@,
            r.cursor() == 0,
    {
        ExerciseEngine { exercises, index: 0 }
    }

    /// Number of loaded exercises.
    pub fn len(&self) -> (r: usize)
        ensures
            r == self.exercise_list().len(),
    {
        self.exercises.len()
    }

    /// Whether there are no exercises.
    pub fn is_empty(&self) -> (r: bool)
        ensures
            r == (self.exercise_list().len() == 0),
    {
        self.exercises.len() == 0
    }

    /// Current cursor position (0-based).
    pub fn position(&self) -> (r: usize)
        ensures
            r == self.cursor(),
            r <= self.exercise_list().len(),
    {
        proof {
            use_type_invariant(self);
        }
        self.index
    }

    /// How many exercises remain from the cursor on.
    pub fn remaining(&self) -> (r: usize)
        ensures
            r == self.exercise_list().len() - self.cursor(),
    {
        proof {
            use_type_invariant(self);
        }
        self.exercises.len() - self.index
    }

    /// Put the cursor back on the first exercise.
    pub fn reset(&mut self)
        ensures
            final(self).moved_by(*old(self), CursorCall::Reset),
            final(self).exercise_list() == old(self).exercise_list(),
            final(self).cursor() == 0,
    {
        self.index = 0;
    }

    /// The exercise under the cursor, if any.
    pub fn current(&self) -> (r: Option<&Exercise>)
        ensures
            r == (if self.cursor() < self.exercise_list().len() {
                Some(&self.exercise_list()[self.cursor() as int])
            } else {
                None
            }),
    {
        if self.index < self.exercises.len() {
            Some(&self.exercises[self.index])
        } else {
            None
        }
    }

    /// The first exercise with the given identifier, if any.
    pub fn by_id(&self, id: &str) -> (r: Option<&Exercise>)
        ensures
            match r {
                Some(e) => exists|k: int|
                    #![trigger self.exercise_list()[k]]
                    0 <= k < self.exercise_list().len() && e == self.exercise_list()[k]
                        && e@.id() == id@ && forall|j: int|
                        0 <= j < k ==> (#[trigger] self.exercise_list()[j])@.id() != id@,
                None => forall|k: int|
                    0 <= k < self.exercise_list().len() ==> (#[trigger] self.exercise_list()[k])@.id()
                        != id@,
            },
    {
        let mut i: usize = 0;
        while i < self.exercises.len()
            invariant
                i <= self.exercises@.len(),
                forall|j: int| 0 <= j < i ==> (#[trigger] self.exercises@[j])@.id() != id@,
            decreases self.exercises.len() - i,
        {
            if same_text(self.exercises[i].id(), id) {
                assert(self.exercises@[i as int]@.id() == id@);
                assert(self.exercise_list()[i as int] == self.exercises@[i as int]);
                return Some(&self.exercises[i]);
            }
            i = i + 1;
        }
        None
    }

    /// The exercise at `index`, if any.
    pub fn at(&self, index: usize) -> (r: Option<&Exercise>)
        ensures
            r == (if index < self.exercise_list().len() {
                Some(&self.exercise_list()[index as int])
            } else {
                None
            }),
    {
        if index < self.exercises.len() {
            Some(&self.exercises[index])
        } else {
            None
        }
    }

    /// Move the cursor to the next exercise and return it; past the last exercise the
    /// cursor stops at the end and `None` is returned.
    pub fn advance(&mut self) -> (r: Option<&Exercise>)
        ensures
            final(self).moved_by(*old(self), CursorCall::Advance),
            final(self).exercise_list() == old(self).exercise_list(),
            old(self).cursor() + 1 < old(self).exercise_list().len() ==> final(self).cursor()
                == old(self).cursor() + 1 && r == Some(
                &old(self).exercise_list()[old(self).cursor() + 1 as int],
            ),
            old(self).cursor() + 1 >= old(self).exercise_list().len() ==> final(self).cursor()
                == old(self).exercise_list().len() && r is None,
    {
        proof {
            use_type_invariant(&*self);
        }
        let len = self.exercises.len();
        if len > 0 && self.index < len - 1 {
            self.index = self.index + 1;
            Some(&self.exercises[self.index])
        } else {
            self.index = len;
            None
        }
    }

    /// Evaluate an answer against the exercise under the cursor, and on success move the
    /// cursor to the next exercise.
    pub fn answer_current(&mut self, answer: &Answer) -> (r: Result<Evaluation, PraxeumError>)
        ensures
            r is Ok ==> final(self).moved_by(*old(self), CursorCall::AnswerAccepted),
            r is Err ==> final(self).moved_by(*old(self), CursorCall::AnswerRefused),
            final(self).exercise_list() == old(self).exercise_list(),
            old(self).cursor() >= old(self).exercise_list().len() ==> (r matches Err(
                PraxeumError::NoExercises,
            )) && final(self).cursor() == old(self).cursor(),
            old(self).cursor() < old(self).exercise_list().len() ==> {
                &&& evaluates_to(old(self).exercise_list()[old(self).cursor() as int]@, answer@, r)
                &&& r matches Ok(e) ==> e.score.in_unit_range()
                &&& r is Err ==> final(self).cursor() == old(self).cursor()
                &&& r is Ok ==> final(self).cursor() == if old(self).cursor() + 1 < old(
                    self,
                ).exercise_list().len() {
                    old(self).cursor() + 1
                } else {
                    old(self).exercise_list().len()
                }
            },
    {
        let eval = match self.current() {
            None => {
                return Err(PraxeumError::NoExercises);
            },
            Some(exercise) => self.evaluate(exercise, answer),
        };
        match eval {
            Ok(e) => {
                self.advance();
                Ok(e)
            },
            Err(err) => Err(err),
        }
    }

    /// Evaluate an answer for the given exercise; the cursor plays no part.
    pub fn evaluate(&self, exercise: &Exercise, answer: &Answer) -> (r: Result<Evaluation, PraxeumError>)
        ensures
            evaluates_to(exercise@, answer@, r),
            r matches Ok(e) ==> e.score.in_unit_range(),
    {
        match (exercise, answer) {
            (
                Exercise::Classification { categories, items, .. },
                Answer::Classification(indices),
            ) => self.eval_classification(categories, items, indices),
            (Exercise::MultipleChoice { correct_indices, .. }, Answer::MultipleChoice(indices)) => {
                Ok(self.eval_multiple_choice(correct_indices, indices))
            },
            (Exercise::Scenario { choices, .. }, Answer::Scenario(index)) => {
                self.eval_scenario(choices, *index)
            },
            (Exercise::Classification { .. }, _) => Err(
                invalid_answer("Expected classification answer"),
            ),
            (Exercise::MultipleChoice { .. }, _) => Err(
                invalid_answer("Expected multiple-choice answer"),
            ),
            (Exercise::Scenario { .. }, _) => Err(invalid_answer("Expected scenario answer")),
        }
    }

    fn eval_classification(
        &self,
        categories: &Vec<String>,
        items: &Vec<ClassificationItem>,
        indices: &Vec<usize>,
    ) -> (r: Result<Evaluation, PraxeumError>)
        ensures
            match classification_evaluation(
                texts(categories@),
                items@.map_values(|i: ClassificationItem| i@),
                indices@,
            ) {
                Ok(v) => r matches Ok(e) && e@ == v,
                Err(m) => r matches Err(PraxeumError::InvalidAnswer(s)) && s@ == m,
            },
            r matches Ok(e) ==> e.score.in_unit_range(),
    {
        let ghost cats = texts(categories@);
        let ghost its = items@.map_values(|i: ClassificationItem| i@);
        if indices.len() != items.len() {
            return Err(invalid_answer("Classification answer length does not match item count"));
        }
        let mut correct_count: usize = 0;
        let mut feedback = String::new();
        let ghost mut lines: Seq<Seq<char>> = Seq::empty();
        let mut i: usize = 0;
        while i < items.len()
            invariant
                i <= items@.len(),
                indices@.len() == items@.len(),
                cats == texts(categories@),
                its == items@.map_values(|i: ClassificationItem| i@),
                correct_count <= i,
                classification_progress(cats, its, indices@, i as nat) == Ok::<
                    (nat, Seq<Seq<char>>),
                    nat,
                >((correct_count as nat, lines)),
                lines.len() == i,
                feedback@ == joined(lines, "\n"@),
            decreases items.len() - i,
        {
            let item = &items[i];
            let cat_idx = indices[i];
            assert(its[i as int] == item@);
            if cat_idx >= categories.len() {
                proof {
                    lemma_classification_error_persists(cats, its, indices@, (i + 1) as nat, items@.len());
                }
                let message = crate::text::decimal_string(i as u64);
                let mut text = String::from_str("Invalid category index at position ");
                text.append(message.as_str());
                return Err(PraxeumError::InvalidAnswer(text));
            }
            let cat_name = categories[cat_idx].as_str();
            assert(cats[cat_idx as int] == cat_name@);
            let is_correct = same_text(cat_name, item.correct_category.as_str());
            let mut line = String::new();
            if is_correct {
                correct_count = correct_count + 1;
                line.append("✓ \"");
                line.append(item.text.as_str());
                line.append("\" → ");
                line.append(cat_name);
            } else {
                line.append("✗ \"");
                line.append(item.text.as_str());
                line.append("\" → ");
                line.append(cat_name);
                line.append(" (correct: ");
                line.append(item.correct_category.as_str());
                line.append(")");
            }
            assert(line@ =~= classification_line(item.text@, cat_name@, item.correct_category@));
            if i > 0 {
                feedback.append("\n");
            }
            feedback.append(line.as_str());
            proof {
                lemma_joined_push(lines, "\n"@, line@);
                lines = lines.push(line@);
            }
            i = i + 1;
        }
        let score = if items.len() == 0 {
            Fraction::new(1, 1)
        } else {
            Fraction::new(correct_count as u64, items.len() as u64)
        };
        Ok(Evaluation { correct: correct_count == items.len(), score, feedback })
    }

    fn eval_multiple_choice(&self, correct_indices: &Vec<usize>, selected_indices: &Vec<usize>) -> (r: Evaluation)
        ensures
            r@ == multiple_choice_evaluation(correct_indices@, selected_indices@),
            r.score.in_unit_range(),
    {
        let correct_set = distinct_indices(correct_indices);
        let selected_set = distinct_indices(selected_indices);
        let shared = shared_count(&correct_set, &selected_set);
        let all = union_indices(&correct_set, &selected_set);
        let union_size: usize = all.len();
        proof {
            all@.unique_seq_to_set();
            correct_set@.unique_seq_to_set();
            let c = correct_set@.to_set();
            let t = selected_set@.to_set();
            vstd::set_lib::lemma_len_subset(c.intersect(t), c.union(t));
        }
        let score = if union_size == 0 {
            Fraction::new(0, 1)
        } else {
            Fraction::new(shared as u64, union_size as u64)
        };
        let correct = all_held(&correct_set, &selected_set) && all_held(&selected_set, &correct_set);
        proof {
            if correct {
                assert(selected_indices@.to_set() =~= correct_indices@.to_set());
            }
        }
        let mut feedback = String::from_str("Selected: ");
        let selected_text = debug_list_string(selected_indices);
        feedback.append(selected_text.as_str());
        feedback.append("\nCorrect:  ");
        let correct_text = debug_list_string(correct_indices);
        feedback.append(correct_text.as_str());
        Evaluation { correct, score, feedback }
    }

    fn eval_scenario(&self, choices: &Vec<ScenarioChoice>, selected_index: usize) -> (r: Result<Evaluation, PraxeumError>)
        ensures
            match scenario_evaluation(choices@.map_values(|c: ScenarioChoice| c@), selected_index) {
                Ok(v) => r matches Ok(e) && e@ == v,
                Err(m) => r matches Err(PraxeumError::InvalidAnswer(s)) && s@ == m,
            },
            r matches Ok(e) ==> e.score.in_unit_range(),
    {
        if selected_index >= choices.len() {
            return Err(invalid_answer("Invalid scenario choice index"));
        }
        let choice = &choices[selected_index];
        let correct = choice.is_correct;
        let score = if correct {
            Fraction::new(1, 1)
        } else {
            Fraction::new(0, 1)
        };
        let feedback = choice.feedback.clone();
        Ok(Evaluation { correct, score, feedback })
    }

    /// An iterator over all exercises, in order.
    pub fn iter(&self) -> (r: std::slice::Iter<'_, Exercise>)
        ensures
            r.remaining() == self.exercise_list().as_ref(),
    {
        broadcast use vstd::std_specs::slice::axiom_spec_slice_iter;
        self.exercises.as_slice().iter()
    }
}

} // verus!
