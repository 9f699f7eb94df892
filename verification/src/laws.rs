//! Properties that hold across the library's operations.
use vstd::prelude::*;
use crate::error::PraxeumError;
use crate::loader::{preflights_as, validates_as, DataFormat, PreflightReport};
use crate::model::exercise::{Exercise, ExerciseView};
use crate::model::session::{with_completed, SessionMetrics};
use crate::scoring::{next_streak, points_for};
use crate::model::evaluation::Fraction;
use crate::validator::{
    all_issues, choice_issues, choices_each_issues, duplicate_id_issues, entries_issues,
    entry_issues, exercise_ids, exercise_issues, has_correct_choice, index_issues, indices_issues,
    issues_view, item_issues, items_issues,
};
use crate::model::exercise::ChoiceView;
use crate::engine::{
    classification_progress, cursor_after, cursor_after_calls, evaluation_of, CursorCall,
    ExerciseEngine,
};
use crate::scoring::{rounded_score_points, score_points, streak_bonus};
use crate::model::answer::{Answer, AnswerView};
use crate::model::evaluation::EvaluationView;
use crate::model::exercise::ItemView;
use crate::text::texts;
use crate::text::{decimal_text, digit_char};
use crate::interaction::{
    digits_value, indices_of_pieces, parsed_index, pieces, trim, trim_end, trim_start,
    typed_indices,
};
use crate::document::{choice_from, exercise_from, item_from, lookup, lookup_from, Node};

verus! {

/// Metrics built from the empty metrics by recording attempts stay consistent: no more
/// correct answers than answers, the current streak within the longest, the longest streak
/// within the correct answers, and fastest at most slowest at most the total time once
/// something has been answered.
pub proof fn lemma_recording_keeps_metrics_consistent(metrics: SessionMetrics, duration_ms: u128, was_correct: bool)
    requires
        metrics.consistent(),
        metrics.can_record(was_correct),
    ensures
        SessionMetrics::empty().consistent(),
        metrics.after_attempt(duration_ms, was_correct).consistent(),
{
}

/// Completing an exercise records it, exactly once: afterwards it is completed, completing
/// it again changes nothing, and a list without repeats stays without repeats.
pub proof fn lemma_completion_is_recorded_once(ids: Seq<Seq<char>>, id: Seq<char>)
    ensures
        with_completed(ids, id).contains(id),
        with_completed(with_completed(ids, id), id) == with_completed(ids, id),
        ids.no_duplicates() ==> with_completed(ids, id).no_duplicates(),
{
    if !ids.contains(id) {
        assert(ids.push(id)[ids.len() as int] == id);
        assert forall|i: int, j: int|
            0 <= i < ids.push(id).len() && 0 <= j < ids.push(id).len() && i != j && ids.no_duplicates()
                implies ids.push(id)[i] != ids.push(id)[j] by {
            if i == ids.len() {
                assert(ids[j] == ids.push(id)[j]);
            } else if j == ids.len() {
                assert(ids[i] == ids.push(id)[i]);
            }
        }
    }
}

/// The streak rule that points are computed with (one more after a correct answer, none after
/// a wrong one) gives the metrics' current streak after the answer is recorded.
pub proof fn lemma_tracker_streak_follows_metrics(
    streak: usize,
    metrics: SessionMetrics,
    duration_ms: u128,
    was_correct: bool,
)
    requires
        streak == metrics.current_streak,
        metrics.can_record(was_correct),
    ensures
        next_streak(streak, was_correct) == metrics.after_attempt(duration_ms, was_correct).current_streak,
{
}

/// Answering faster never earns fewer points, and a correct answer earns 25 points more than
/// an incorrect one with the same score, streak and time.
pub proof fn lemma_points_reward_speed_and_correctness(
    score: Fraction,
    was_correct: bool,
    streak: usize,
    faster_ms: u128,
    slower_ms: u128,
)
    requires
        faster_ms <= slower_ms,
    ensures
        points_for(score, was_correct, streak, faster_ms) >= points_for(score, was_correct, streak, slower_ms),
        points_for(score, true, streak, faster_ms) == points_for(score, false, streak, faster_ms) + 25,
{
}

/// Preflight and validation agree on a text: the preflight succeeds with no issue exactly
/// when validation accepts the exercises, and it fails exactly when loading fails.
pub proof fn lemma_preflight_agrees_with_validation(
    contents: Seq<char>,
    format: DataFormat,
    source: Option<Seq<char>>,
    report: Result<PreflightReport, PraxeumError>,
    checked: Result<Vec<Exercise>, PraxeumError>,
)
    requires
        format != DataFormat::Auto,
        preflights_as(contents, format, source, report),
        validates_as(contents, format, source, checked),
    ensures
        (report matches Ok(r) && r.issues@.len() == 0) <==> checked is Ok,
        report is Err <==> (checked is Err && !(checked matches Err(PraxeumError::Validation(_)))),
{
    match report {
        Ok(r) => {
            assert(issues_view(r.issues@).len() == r.issues@.len());
        },
        Err(_) => {},
    }
}


proof fn lemma_all_issues_grow(exercises: Seq<ExerciseView>, m: nat, n: nat)
    requires
        m <= n,
    ensures
        all_issues(exercises, m).len() <= all_issues(exercises, n).len(),
    decreases n - m,
{
    if m < n {
        lemma_all_issues_grow(exercises, m, (n - 1) as nat);
    }
}

/// Identifiers must be unique: when two exercises share one, validation reports an issue.
pub proof fn lemma_duplicate_ids_are_reported(exercises: Seq<ExerciseView>, i: int, j: int)
    requires
        0 <= i < j < exercises.len(),
        exercises[i].id() == exercises[j].id(),
    ensures
        all_issues(exercises, exercises.len()).len() > 0,
{
    let ids = exercise_ids(exercises);
    assert(ids.take(j)[i] == exercises[j].id());
    assert(ids.take(j).contains(exercises[j].id()));
    assert(duplicate_id_issues(exercises, j).len() == 1);
    assert(all_issues(exercises, (j + 1) as nat).len() >= 1);
    lemma_all_issues_grow(exercises, (j + 1) as nat, exercises.len());
}

proof fn lemma_no_item_issues(categories: Seq<Seq<char>>, items: Seq<ItemView>, id: Seq<char>, n: nat, k: int)
    requires
        items_issues(categories, items, id, n).len() == 0,
        0 <= k < n,
    ensures
        item_issues(categories, items, id, k).len() == 0,
    decreases n,
{
    if k < n - 1 {
        lemma_no_item_issues(categories, items, id, (n - 1) as nat, k);
    }
}

proof fn lemma_no_index_issues(correct_indices: Seq<usize>, count: nat, id: Seq<char>, n: nat, k: int)
    requires
        indices_issues(correct_indices, count, id, n).len() == 0,
        0 <= k < n,
    ensures
        index_issues(correct_indices, count, id, k).len() == 0,
    decreases n,
{
    if k < n - 1 {
        lemma_no_index_issues(correct_indices, count, id, (n - 1) as nat, k);
    }
}

proof fn lemma_no_entry_issues(field: Seq<char>, values: Seq<Seq<char>>, id: Option<Seq<char>>, n: nat, k: int)
    requires
        entries_issues(field, values, id, n).len() == 0,
        0 <= k < n,
    ensures
        entry_issues(field, values, id, k).len() == 0,
    decreases n,
{
    if k < n - 1 {
        lemma_no_entry_issues(field, values, id, (n - 1) as nat, k);
    }
}

/// A text collection with no entry issue has no blank entry and no repeated entry.
proof fn lemma_clean_collection(field: Seq<char>, values: Seq<Seq<char>>, id: Option<Seq<char>>)
    requires
        entries_issues(field, values, id, values.len()).len() == 0,
    ensures
        forall|k: int| 0 <= k < values.len() ==> !crate::text::is_blank_text(#[trigger] values[k]),
        values.no_duplicates(),
{
    assert forall|k: int| 0 <= k < values.len() implies !crate::text::is_blank_text(#[trigger] values[k]) by {
        lemma_no_entry_issues(field, values, id, values.len(), k);
    }
    assert forall|i: int, j: int| 0 <= i < values.len() && 0 <= j < values.len() && i != j implies values[i]
        != values[j] by {
        let (a, b) = if i < j { (i, j) } else { (j, i) };
        lemma_no_entry_issues(field, values, id, values.len(), b);
        assert(values.take(b)[a] == values[a]);
        if values[a] == values[b] {
            assert(values.take(b).contains(values[b]));
        }
    }
}

proof fn lemma_no_choice_issues(choices: Seq<ChoiceView>, id: Seq<char>, n: nat, k: int)
    requires
        choices_each_issues(choices, id, n).len() == 0,
        0 <= k < n,
    ensures
        choice_issues(choices, id, k).len() == 0,
    decreases n,
{
    if k < n - 1 {
        lemma_no_choice_issues(choices, id, (n - 1) as nat, k);
    }
}

/// An evaluation that marks the answer correct with the full score.
pub open spec fn full_marks(r: Result<EvaluationView, Seq<char>>) -> bool {
    r matches Ok(v) && v.correct && v.score.denominator > 0 && v.score.numerator
        == v.score.denominator
}

/// The first position of `wanted` among `categories`.
spec fn category_position(categories: Seq<Seq<char>>, wanted: Seq<char>) -> int {
    choose|j: int| 0 <= j < categories.len() && categories[j] == wanted
}

proof fn lemma_right_categories_match(
    categories: Seq<Seq<char>>,
    items: Seq<ItemView>,
    indices: Seq<usize>,
    n: nat,
)
    requires
        n <= items.len(),
        indices.len() == items.len(),
        forall|k: int|
            0 <= k < items.len() ==> (#[trigger] indices[k]) < categories.len() && categories[indices[k] as int]
                == items[k].correct_category,
    ensures
        classification_progress(categories, items, indices, n) matches Ok((count, _)) && count == n,
    decreases n,
{
    if n > 0 {
        lemma_right_categories_match(categories, items, indices, (n - 1) as nat);
        assert(indices[n - 1] < categories.len());
    }
}

/// A valid exercise can be answered: for an exercise that passes validation there is an
/// answer that evaluation marks correct with the full score.
#[verifier::spinoff_prover]
#[verifier::rlimit(40)]
pub proof fn lemma_valid_exercise_is_answerable(ex: Exercise)
    requires
        exercise_issues(ex@).len() == 0,
    ensures
        exists|a: AnswerView| full_marks(#[trigger] evaluation_of(ex@, a)),
{
    reveal(exercise_issues);
    broadcast use vstd::std_specs::vec::axiom_spec_len;
    match ex {
        Exercise::Classification { id, title, prompt, categories, items } => {
            let cats = texts(categories@);
            let its = items@.map_values(|i: crate::model::exercise::ClassificationItem| i@);
            assert(categories.len() <= usize::MAX);
            assert(items.len() <= usize::MAX);
            assert(its.len() > 0);
            let indices = Seq::new(
                its.len(),
                |k: int| category_position(cats, its[k].correct_category) as usize,
            );
            assert forall|k: int| 0 <= k < its.len() implies (#[trigger] indices[k]) < cats.len()
                && cats[indices[k] as int] == its[k].correct_category by {
                lemma_no_item_issues(cats, its, id@, its.len(), k);
                assert(cats.contains(its[k].correct_category));
                let j = category_position(cats, its[k].correct_category);
                assert(0 <= j < cats.len() && cats[j] == its[k].correct_category);
            }
            lemma_right_categories_match(cats, its, indices, its.len());
            assert(full_marks(evaluation_of(ex@, AnswerView::Classification(indices))));
        },
        Exercise::MultipleChoice { id, title, prompt, options, correct_indices, multi_select } => {
            let c = correct_indices@;
            assert(correct_indices.len() <= usize::MAX);
            assert(c.len() > 0);
            c.lemma_cardinality_of_empty_set_is_0();
            c.lemma_cardinality_of_set();
            assert(c.to_set().union(c.to_set()) =~= c.to_set());
            assert(c.to_set().intersect(c.to_set()) =~= c.to_set());
            assert(full_marks(evaluation_of(ex@, AnswerView::MultipleChoice(c))));
        },
        Exercise::Scenario { id, title, description, prompt, choices } => {
            let chs = choices@.map_values(|c: crate::model::exercise::ScenarioChoice| c@);
            assert(choices.len() <= usize::MAX);
            assert(has_correct_choice(chs));
            let k = choose|k: int| 0 <= k < chs.len() && #[trigger] chs[k].is_correct;
            assert(full_marks(evaluation_of(ex@, AnswerView::Scenario(k as usize))));
        },
    }
}


proof fn lemma_matched_at_most_classified(
    categories: Seq<Seq<char>>,
    items: Seq<ItemView>,
    indices: Seq<usize>,
    n: nat,
)
    ensures
        classification_progress(categories, items, indices, n) matches Ok((count, lines)) ==> count
            <= n && lines.len() == n,
    decreases n,
{
    if n > 0 {
        lemma_matched_at_most_classified(categories, items, indices, (n - 1) as nat);
    }
}

/// Scores are partial credit between nothing and full marks: the score is defined and the
/// numerator never exceeds the denominator. A classification or scenario answer is correct exactly when it earns full
/// marks, and a correct multiple-choice answer to an exercise with a correct option earns
/// full marks.
pub proof fn lemma_scores_are_partial_credit(ex: Exercise, answer: Answer)
    requires
        answer matches Answer::MultipleChoice(selected) ==> (ex matches Exercise::MultipleChoice {
            correct_indices,
            ..
        } ==> correct_indices@.len() + selected@.len() <= usize::MAX),
    ensures
        evaluation_of(ex@, answer@) matches Ok(v) ==> {
            &&& v.score.numerator <= v.score.denominator
            &&& v.score.in_unit_range()
            &&& (ex@ is Scenario || ex@ is Classification) ==> (v.correct <==> v.score.numerator
                == v.score.denominator)
            &&& (ex@ matches ExerciseView::MultipleChoice { correct_indices, .. } && correct_indices.len()
                > 0 && v.correct) ==> v.score.numerator == v.score.denominator && v.score.denominator > 0
        },
{
    broadcast use vstd::std_specs::vec::axiom_spec_len;
    match (ex, answer) {
        (Exercise::Classification { categories, items, .. }, Answer::Classification(indices)) => {
            assert(items.len() <= usize::MAX);
            let cats = texts(categories@);
            let its = items@.map_values(|i: crate::model::exercise::ClassificationItem| i@);
            lemma_matched_at_most_classified(cats, its, indices@, its.len());
        },
        (Exercise::MultipleChoice { correct_indices, .. }, Answer::MultipleChoice(selected)) => {
            let c = correct_indices@.to_set();
            let t = selected@.to_set();
            correct_indices@.lemma_cardinality_of_set();
            selected@.lemma_cardinality_of_set();
            vstd::set_lib::lemma_len_intersect(c, t);
            vstd::set_lib::lemma_len_union(c, t);
            vstd::set_lib::lemma_len_subset(c, c.union(t));
            if correct_indices@.len() > 0 && t == c {
                correct_indices@.lemma_cardinality_of_empty_set_is_0();
                assert(c.union(t) =~= c);
                assert(c.intersect(t) =~= c);
            }
        },
        _ => {},
    }
}


/// Whether an exercise follows the written schema rules: non-blank id, title and prompt;
/// for classification two or more categories, none blank and none repeated, and at least one
/// item, each with non-blank text and a listed category; for multiple choice at least one
/// option, none blank and none repeated, and at least one correct index, each a position into
/// the options, exactly one when single-select; for a scenario a non-blank description and at
/// least one choice, each with a non-blank label and feedback, one of them marked correct.
pub open spec fn follows_schema(ex: ExerciseView) -> bool {
    &&& !crate::text::is_blank_text(ex.id())
    &&& !crate::text::is_blank_text(ex.title())
    &&& match ex {
        ExerciseView::Classification { prompt, categories, items, .. } => {
            &&& !crate::text::is_blank_text(prompt)
            &&& categories.len() >= 2
            &&& forall|k: int| 0 <= k < categories.len() ==> !crate::text::is_blank_text(#[trigger] categories[k])
            &&& categories.no_duplicates()
            &&& items.len() >= 1
            &&& forall|k: int| 0 <= k < items.len() ==> !crate::text::is_blank_text(#[trigger] items[k].text)
            &&& forall|k: int| 0 <= k < items.len() ==> categories.contains(#[trigger] items[k].correct_category)
        },
        ExerciseView::MultipleChoice { prompt, options, correct_indices, multi_select, .. } => {
            &&& !crate::text::is_blank_text(prompt)
            &&& options.len() >= 1
            &&& forall|k: int| 0 <= k < options.len() ==> !crate::text::is_blank_text(#[trigger] options[k])
            &&& options.no_duplicates()
            &&& correct_indices.len() >= 1
            &&& forall|k: int| 0 <= k < correct_indices.len() ==> #[trigger] correct_indices[k] < options.len()
            &&& !multi_select ==> correct_indices.len() == 1
        },
        ExerciseView::Scenario { description, prompt, choices, .. } => {
            &&& !crate::text::is_blank_text(description)
            &&& !crate::text::is_blank_text(prompt)
            &&& choices.len() >= 1
            &&& forall|k: int| 0 <= k < choices.len() ==> !crate::text::is_blank_text(#[trigger] choices[k].label)
            &&& forall|k: int| 0 <= k < choices.len() ==> !crate::text::is_blank_text(#[trigger] choices[k].feedback)
            &&& has_correct_choice(choices)
        },
    }
}

/// Validation enforces the schema: an exercise for which validation reports no issue follows
/// the schema rules.
#[verifier::spinoff_prover]
#[verifier::rlimit(40)]
pub proof fn lemma_valid_exercise_follows_schema(ex: ExerciseView)
    requires
        exercise_issues(ex).len() == 0,
    ensures
        follows_schema(ex),
{
    reveal(exercise_issues);
    match ex {
        ExerciseView::Classification { id, title, prompt, categories, items } => {
            lemma_clean_collection("categories"@, categories, Some(id));
            assert forall|k: int| 0 <= k < items.len() implies categories.contains(
                #[trigger] items[k].correct_category,
            ) by {
                lemma_no_item_issues(categories, items, id, items.len(), k);
            }
            assert forall|k: int| 0 <= k < items.len() implies !crate::text::is_blank_text(
                #[trigger] items[k].text,
            ) by {
                lemma_no_item_issues(categories, items, id, items.len(), k);
            }
        },
        ExerciseView::MultipleChoice { id, title, prompt, options, correct_indices, multi_select } => {
            lemma_clean_collection("options"@, options, Some(id));
            assert forall|k: int| 0 <= k < correct_indices.len() implies #[trigger] correct_indices[k]
                < options.len() by {
                lemma_no_index_issues(correct_indices, options.len(), id, correct_indices.len(), k);
            }
        },
        ExerciseView::Scenario { id, choices, .. } => {
            assert forall|k: int| 0 <= k < choices.len() implies !crate::text::is_blank_text(
                #[trigger] choices[k].label,
            ) by {
                lemma_no_choice_issues(choices, id, choices.len(), k);
            }
            assert forall|k: int| 0 <= k < choices.len() implies !crate::text::is_blank_text(
                #[trigger] choices[k].feedback,
            ) by {
                lemma_no_choice_issues(choices, id, choices.len(), k);
            }
        },
    }
}

proof fn lemma_no_issues_before(exercises: Seq<ExerciseView>, n: nat, k: int)
    requires
        all_issues(exercises, n).len() == 0,
        0 <= k < n,
    ensures
        duplicate_id_issues(exercises, k).len() == 0,
        exercise_issues(exercises[k]).len() == 0,
    decreases n,
{
    if k < n - 1 {
        lemma_no_issues_before(exercises, (n - 1) as nat, k);
    }
}

/// Validation enforces the schema of a whole file: when it reports no issue for a list of
/// exercises, every exercise follows the schema rules and no two share an identifier.
pub proof fn lemma_valid_collection_follows_schema(exercises: Seq<ExerciseView>)
    requires
        all_issues(exercises, exercises.len()).len() == 0,
    ensures
        forall|k: int| 0 <= k < exercises.len() ==> follows_schema(#[trigger] exercises[k]),
        exercise_ids(exercises).no_duplicates(),
{
    assert forall|k: int| 0 <= k < exercises.len() implies follows_schema(#[trigger] exercises[k]) by {
        lemma_no_issues_before(exercises, exercises.len(), k);
        lemma_valid_exercise_follows_schema(exercises[k]);
    }
    let ids = exercise_ids(exercises);
    assert forall|i: int, j: int| 0 <= i < ids.len() && 0 <= j < ids.len() && i != j implies ids[i]
        != ids[j] by {
        let (a, b) = if i < j { (i, j) } else { (j, i) };
        lemma_no_issues_before(exercises, exercises.len(), b);
        assert(ids.take(b)[a] == ids[a]);
        if ids[a] == ids[b] {
            assert(ids.take(b).contains(exercises[b].id()));
        }
    }
}

proof fn lemma_cursor_stays_in_range(len: nat, cursor: nat, calls: Seq<CursorCall>)
    requires
        cursor <= len,
    ensures
        cursor_after_calls(len, cursor, calls) <= len,
    decreases calls.len(),
{
    if calls.len() > 0 {
        lemma_cursor_stays_in_range(len, cursor, calls.drop_last());
    }
}

proof fn lemma_calls_up_to(engines: Seq<ExerciseEngine>, calls: Seq<CursorCall>, k: nat)
    requires
        engines.len() == calls.len() + 1,
        forall|i: int| #![trigger calls[i]] 0 <= i < calls.len() ==> engines[i + 1].moved_by(engines[i], calls[i]),
        k < engines.len(),
    ensures
        engines[k as int].exercise_list() == engines[0].exercise_list(),
        engines[k as int].cursor() == cursor_after_calls(
            engines[0].exercise_list().len(),
            engines[0].cursor(),
            calls.take(k as int),
        ),
    decreases k,
{
    if k > 0 {
        lemma_calls_up_to(engines, calls, (k - 1) as nat);
        assert(calls.take(k as int).drop_last() =~= calls.take(k - 1));
        assert(calls.take(k as int).last() == calls[k - 1]);
        assert(engines[k as int].moved_by(engines[k - 1], calls[k - 1]));
    }
}

/// The exercises never change under the cursor: after any sequence of `reset`, `advance` and
/// `answer_current` calls on an engine fresh from `new`, it holds exactly the list it was built
/// with (so `iter` yields that list, in order), and its cursor is where the calls put it, never
/// past the end.
pub proof fn lemma_cursor_calls_keep_the_exercises(engines: Seq<ExerciseEngine>, calls: Seq<CursorCall>)
    requires
        engines.len() == calls.len() + 1,
        engines[0].cursor() == 0,
        forall|i: int| #![trigger calls[i]] 0 <= i < calls.len() ==> engines[i + 1].moved_by(engines[i], calls[i]),
    ensures
        forall|k: int| 0 <= k < engines.len() ==> (#[trigger] engines[k]).exercise_list() == engines[0].exercise_list(),
        engines.last().cursor() == cursor_after_calls(engines[0].exercise_list().len(), 0, calls),
        engines.last().cursor() <= engines[0].exercise_list().len(),
{
    assert forall|k: int| 0 <= k < engines.len() implies (#[trigger] engines[k]).exercise_list()
        == engines[0].exercise_list() by {
        lemma_calls_up_to(engines, calls, k as nat);
    }
    lemma_calls_up_to(engines, calls, calls.len());
    assert(calls.take(calls.len() as int) =~= calls);
    lemma_cursor_stays_in_range(engines[0].exercise_list().len(), 0, calls);
}

/// Rounding `120 * n / d` to the nearest integer keeps the order of the ratios.
proof fn lemma_rounding_keeps_order(n1: int, d1: int, n2: int, d2: int)
    requires
        0 <= n1,
        0 <= n2,
        0 < d1,
        0 < d2,
        n1 * d2 <= n2 * d1,
    ensures
        (240 * n1 + d1) / (2 * d1) <= (240 * n2 + d2) / (2 * d2),
{
    let x1 = 240 * n1 + d1;
    let x2 = 240 * n2 + d2;
    let q1 = x1 / (2 * d1);
    let q2 = x2 / (2 * d2);
    vstd::arithmetic::div_mod::lemma_fundamental_div_mod(x1, 2 * d1);
    vstd::arithmetic::div_mod::lemma_fundamental_div_mod(x2, 2 * d2);
    vstd::arithmetic::div_mod::lemma_mod_bound(x1, 2 * d1);
    vstd::arithmetic::div_mod::lemma_mod_bound(x2, 2 * d2);
    assert(q1 * (2 * d1) <= x1);
    assert(x1 * d2 <= x2 * d1) by (nonlinear_arith)
        requires
            x1 == 240 * n1 + d1,
            x2 == 240 * n2 + d2,
            n1 * d2 <= n2 * d1,
    ;
    assert(q1 * (2 * d1) * d2 <= x1 * d2) by (nonlinear_arith)
        requires
            q1 * (2 * d1) <= x1,
            0 < d2,
    ;
    assert(q1 * (2 * d2) <= x2) by (nonlinear_arith)
        requires
            q1 * (2 * d1) * d2 <= x2 * d1,
            0 < d1,
    ;
    assert(q1 <= q2) by (nonlinear_arith)
        requires
            q1 * (2 * d2) <= x2,
            x2 == 2 * d2 * q2 + x2 % (2 * d2),
            x2 % (2 * d2) < 2 * d2,
            0 < d2,
    ;
}

/// Points never fall as the score or the streak grows: a score at least as large (as a
/// ratio) and a streak at least as long, with the same correctness and time, earn at least as
/// many points. The streak bound keeps the streak within the range in which its bonus counts.
pub proof fn lemma_points_grow_with_score_and_streak(
    lower: Fraction,
    higher: Fraction,
    was_correct: bool,
    shorter: usize,
    longer: usize,
    duration_ms: u128,
)
    requires
        0 < lower.denominator,
        0 < higher.denominator,
        lower.numerator * higher.denominator <= higher.numerator * lower.denominator,
        shorter <= longer,
        longer <= u32::MAX,
    ensures
        points_for(lower, was_correct, shorter, duration_ms) <= points_for(
            higher,
            was_correct,
            longer,
            duration_ms,
        ),
{
    lemma_rounding_keeps_order(
        lower.numerator as int,
        lower.denominator as int,
        higher.numerator as int,
        higher.denominator as int,
    );
    assert(rounded_score_points(lower) <= rounded_score_points(higher));
    assert(score_points(lower) <= score_points(higher));
    assert(streak_bonus(shorter) <= streak_bonus(longer));
}

// ---------------------------------------------------------------------------------------
// Points for a streak
// ---------------------------------------------------------------------------------------

/// Each further correct answer in a streak adds exactly five points, all else equal; a streak
/// of none or one earns no streak bonus. (Beyond `u32::MAX` the bonus counts modulo `2^32`.)
pub proof fn lemma_streak_adds_five_per_answer(
    score: Fraction,
    was_correct: bool,
    streak: usize,
    duration_ms: u128,
)
    requires
        1 <= streak < u32::MAX,
    ensures
        points_for(score, was_correct, (streak + 1) as usize, duration_ms) == points_for(
            score,
            was_correct,
            streak,
            duration_ms,
        ) + 5,
        points_for(score, was_correct, 0, duration_ms) == points_for(score, was_correct, 1, duration_ms),
        points_for(score, was_correct, streak, duration_ms) == points_for(score, was_correct, 1, duration_ms)
            + 5 * (streak - 1),
{
    vstd::arithmetic::div_mod::lemma_small_mod((streak - 1) as nat, 0x1_0000_0000nat);
    vstd::arithmetic::div_mod::lemma_small_mod(streak as nat, 0x1_0000_0000nat);
    vstd::arithmetic::div_mod::lemma_small_mod(0nat, 0x1_0000_0000nat);
}

// ---------------------------------------------------------------------------------------
// Classification counts each item on its own
// ---------------------------------------------------------------------------------------

/// Whether item `k` is put in its correct category by the answer.
pub open spec fn placed_right(categories: Seq<Seq<char>>, items: Seq<ItemView>, indices: Seq<usize>) -> spec_fn(int) -> bool {
    |k: int| categories[indices[k] as int] == items[k].correct_category
}

/// The positions, among the first `n`, of the items the answer places right.
pub open spec fn right_positions(categories: Seq<Seq<char>>, items: Seq<ItemView>, indices: Seq<usize>, n: nat) -> Seq<int> {
    Seq::new(n, |k: int| k).filter(placed_right(categories, items, indices))
}

proof fn lemma_progress_counts_hits(
    categories: Seq<Seq<char>>,
    items: Seq<ItemView>,
    indices: Seq<usize>,
    n: nat,
)
    requires
        n <= items.len(),
        indices.len() == items.len(),
        forall|k: int| 0 <= k < indices.len() ==> #[trigger] indices[k] < categories.len(),
    ensures
        classification_progress(categories, items, indices, n) matches Ok((count, _)) && count
            == right_positions(categories, items, indices, n).len(),
    decreases n,
{
    if n > 0 {
        lemma_progress_counts_hits(categories, items, indices, (n - 1) as nat);
        let p = placed_right(categories, items, indices);
        assert(Seq::new(n, |k: int| k) =~= Seq::new((n - 1) as nat, |k: int| k).push(n - 1));
        Seq::new((n - 1) as nat, |k: int| k).lemma_filter_len_push(p, n - 1);
        assert(indices[n - 1] < categories.len());
    }
}

/// A classification answer of the right length, every index naming a category, scores the
/// number of items it places in their correct category, each item counted on its own, out of
/// the number of items; it is correct exactly when every item is placed right.
pub proof fn lemma_classification_counts_each_item(
    id: Seq<char>,
    title: Seq<char>,
    prompt: Seq<char>,
    categories: Seq<Seq<char>>,
    items: Seq<ItemView>,
    indices: Seq<usize>,
)
    requires
        0 < items.len() <= u64::MAX,
        indices.len() == items.len(),
        forall|k: int| 0 <= k < indices.len() ==> #[trigger] indices[k] < categories.len(),
    ensures
        evaluation_of(
            ExerciseView::Classification { id, title, prompt, categories, items },
            AnswerView::Classification(indices),
        ) matches Ok(v) && {
            &&& v.score.numerator == right_positions(categories, items, indices, items.len()).len()
            &&& v.score.denominator == items.len()
            &&& v.correct <==> forall|k: int| 0 <= k < items.len() ==> #[trigger] placed_right(
                categories,
                items,
                indices,
            )(k)
        },
{
    let n = items.len();
    let p = placed_right(categories, items, indices);
    let all = Seq::new(n, |k: int| k);
    lemma_progress_counts_hits(categories, items, indices, n);
    all.lemma_filter_len(p);
    if right_positions(categories, items, indices, n).len() == n {
        assert forall|k: int| 0 <= k < n implies #[trigger] p(k) by {
            lemma_filter_keeps_all(all, p, k);
        }
    }
    if forall|k: int| 0 <= k < n ==> #[trigger] p(k) {
        assert(all.filter(p) =~= all) by {
            lemma_filter_of_all(all, p);
        }
    }
}

/// When a filter keeps every element, each element satisfies the predicate.
proof fn lemma_filter_keeps_all(s: Seq<int>, p: spec_fn(int) -> bool, k: int)
    requires
        s.filter(p).len() == s.len(),
        0 <= k < s.len(),
        forall|i: int| 0 <= i < s.len() ==> #[trigger] s[i] == i,
    ensures
        p(k),
    decreases s.len(),
{
    reveal(Seq::filter);
    s.drop_last().lemma_filter_len(p);
    if k == s.len() - 1 {
        if !p(s.last()) {
            assert(s.filter(p) == s.drop_last().filter(p));
        }
    } else {
        if p(s.last()) {
            lemma_filter_keeps_all(s.drop_last(), p, k);
        } else {
            assert(s.filter(p) == s.drop_last().filter(p));
        }
    }
}

/// A filter that every element passes keeps the sequence.
proof fn lemma_filter_of_all(s: Seq<int>, p: spec_fn(int) -> bool)
    requires
        forall|i: int| 0 <= i < s.len() ==> #[trigger] p(s[i]),
    ensures
        s.filter(p) == s,
    decreases s.len(),
{
    reveal(Seq::filter);
    if s.len() > 0 {
        assert forall|i: int| 0 <= i < s.drop_last().len() implies #[trigger] p(s.drop_last()[i]) by {
            assert(s.drop_last()[i] == s[i]);
        }
        lemma_filter_of_all(s.drop_last(), p);
        assert(p(s[s.len() - 1]));
        assert(s.drop_last().push(s.last()) =~= s);
    }
}

// ---------------------------------------------------------------------------------------
// Records are read by key
// ---------------------------------------------------------------------------------------

/// Whether the first entry of `entries` with key `key` holds the string `value`.
pub open spec fn first_text_under(entries: Seq<(String, Node)>, key: Seq<char>, value: Seq<char>) -> bool {
    exists|i: int|
        #![trigger entries[i]]
        0 <= i < entries.len() && entries[i].0@ == key && (entries[i].1 matches Node::Text(s) && s@
            == value) && forall|j: int| 0 <= j < i ==> (#[trigger] entries[j]).0@ != key
}

/// Whether the first entry of `entries` with key `key` holds the boolean `value`.
pub open spec fn first_flag_under(entries: Seq<(String, Node)>, key: Seq<char>, value: bool) -> bool {
    exists|i: int|
        #![trigger entries[i]]
        0 <= i < entries.len() && entries[i].0@ == key && entries[i].1 == Node::Flag(value) && forall|
            j: int,
        |
            0 <= j < i ==> (#[trigger] entries[j]).0@ != key
}

proof fn lemma_lookup_finds_first(entries: Seq<(String, Node)>, key: Seq<char>, i: int, j: int)
    requires
        0 <= j <= i < entries.len(),
        entries[i].0@ == key,
        forall|m: int| 0 <= m < i ==> (#[trigger] entries[m]).0@ != key,
    ensures
        lookup_from(entries, key, j) == Some(entries[i].1),
    decreases i - j,
{
    if j < i {
        assert(entries[j].0@ != key);
        lemma_lookup_finds_first(entries, key, i, j + 1);
    }
}

proof fn lemma_text_under(entries: Seq<(String, Node)>, key: Seq<char>, value: Seq<char>)
    requires
        first_text_under(entries, key, value),
    ensures
        lookup(entries, key) matches Some(Node::Text(s)) && s@ == value,
{
    let i = choose|i: int|
        #![trigger entries[i]]
        0 <= i < entries.len() && entries[i].0@ == key && (entries[i].1 matches Node::Text(s) && s@
            == value) && forall|j: int| 0 <= j < i ==> (#[trigger] entries[j]).0@ != key;
    lemma_lookup_finds_first(entries, key, i, 0);
}

proof fn lemma_flag_under(entries: Seq<(String, Node)>, key: Seq<char>, value: bool)
    requires
        first_flag_under(entries, key, value),
    ensures
        lookup(entries, key) == Some(Node::Flag(value)),
{
    let i = choose|i: int|
        #![trigger entries[i]]
        0 <= i < entries.len() && entries[i].0@ == key && entries[i].1 == Node::Flag(value) && forall|
            j: int,
        |
            0 <= j < i ==> (#[trigger] entries[j]).0@ != key;
    lemma_lookup_finds_first(entries, key, i, 0);
}

/// A scenario choice written as a table takes its label, correctness and feedback each from
/// its own key, wherever the entries stand and whatever else the table holds.
pub proof fn lemma_choice_table_reads_by_key(
    entries: Vec<(String, Node)>,
    label: Seq<char>,
    is_correct: bool,
    feedback: Seq<char>,
)
    requires
        first_text_under(entries@, "label"@, label),
        first_flag_under(entries@, "is_correct"@, is_correct),
        first_text_under(entries@, "feedback"@, feedback),
    ensures
        choice_from(Node::Table(entries)) == Ok::<ChoiceView, Seq<char>>(
            ChoiceView { label, is_correct, feedback },
        ),
{
    lemma_text_under(entries@, "label"@, label);
    lemma_flag_under(entries@, "is_correct"@, is_correct);
    lemma_text_under(entries@, "feedback"@, feedback);
}

/// A scenario choice written as a list takes label, correctness and feedback from its three
/// values in that order.
pub proof fn lemma_choice_list_reads_in_order(
    values: Vec<Node>,
    label: String,
    is_correct: bool,
    feedback: String,
)
    requires
        values@ == seq![Node::Text(label), Node::Flag(is_correct), Node::Text(feedback)],
    ensures
        choice_from(Node::List(values)) == Ok::<ChoiceView, Seq<char>>(
            ChoiceView { label: label@, is_correct, feedback: feedback@ },
        ),
{
}

/// A classification item written as a table takes its text and its correct category each
/// from its own key.
pub proof fn lemma_item_table_reads_by_key(
    entries: Vec<(String, Node)>,
    text: Seq<char>,
    correct_category: Seq<char>,
)
    requires
        first_text_under(entries@, "text"@, text),
        first_text_under(entries@, "correct_category"@, correct_category),
    ensures
        item_from(Node::Table(entries)) == Ok::<ItemView, Seq<char>>(
            ItemView { text, correct_category },
        ),
{
    lemma_text_under(entries@, "text"@, text);
    lemma_text_under(entries@, "correct_category"@, correct_category);
}

/// A classification item written as a list takes its text, then its correct category.
pub proof fn lemma_item_list_reads_in_order(values: Vec<Node>, text: String, correct_category: String)
    requires
        values@ == seq![Node::Text(text), Node::Text(correct_category)],
    ensures
        item_from(Node::List(values)) == Ok::<ItemView, Seq<char>>(
            ItemView { text: text@, correct_category: correct_category@ },
        ),
{
}

// ---------------------------------------------------------------------------------------
// The single-select rule
// ---------------------------------------------------------------------------------------

proof fn lemma_clean_entries_have_no_issues(field: Seq<char>, values: Seq<Seq<char>>, id: Option<Seq<char>>, n: nat)
    requires
        n <= values.len(),
        forall|k: int| 0 <= k < values.len() ==> !crate::text::is_blank_text(#[trigger] values[k]),
        values.no_duplicates(),
    ensures
        entries_issues(field, values, id, n).len() == 0,
    decreases n,
{
    if n > 0 {
        lemma_clean_entries_have_no_issues(field, values, id, (n - 1) as nat);
        let k = n - 1;
        assert(!crate::text::is_blank_text(values[k]));
        if values.take(k).contains(values[k]) {
            let j = choose|j: int| 0 <= j < values.take(k).len() && values.take(k)[j] == values[k];
            assert(values[j] == values[k]);
        }
    }
}

proof fn lemma_in_range_indices_have_no_issues(correct_indices: Seq<usize>, count: nat, id: Seq<char>, n: nat)
    requires
        n <= correct_indices.len(),
        forall|k: int| 0 <= k < correct_indices.len() ==> #[trigger] correct_indices[k] < count,
    ensures
        indices_issues(correct_indices, count, id, n).len() == 0,
    decreases n,
{
    if n > 0 {
        lemma_in_range_indices_have_no_issues(correct_indices, count, id, (n - 1) as nat);
        assert(correct_indices[n - 1] < count);
    }
}

/// How many correct indices a multiple-choice exercise may have: one when single-select, any
/// positive number when multi-select. For an exercise whose other parts are sound (non-blank
/// id, title and prompt; options that are non-blank and distinct; every correct index a
/// position into the options), validation reports nothing exactly when it is multi-select or
/// has a single correct index, and reports an issue for a single-select exercise with several.
pub proof fn lemma_single_select_needs_one_index(
    id: Seq<char>,
    title: Seq<char>,
    prompt: Seq<char>,
    options: Seq<Seq<char>>,
    correct_indices: Seq<usize>,
    multi_select: bool,
)
    requires
        !crate::text::is_blank_text(id),
        !crate::text::is_blank_text(title),
        !crate::text::is_blank_text(prompt),
        options.len() >= 1,
        forall|k: int| 0 <= k < options.len() ==> !crate::text::is_blank_text(#[trigger] options[k]),
        options.no_duplicates(),
        correct_indices.len() >= 1,
        forall|k: int| 0 <= k < correct_indices.len() ==> #[trigger] correct_indices[k] < options.len(),
    ensures
        (exercise_issues(
            ExerciseView::MultipleChoice { id, title, prompt, options, correct_indices, multi_select },
        ).len() == 0) <==> (multi_select || correct_indices.len() == 1),
{
    reveal(exercise_issues);
    lemma_clean_entries_have_no_issues("options"@, options, Some(id), options.len());
    lemma_in_range_indices_have_no_issues(correct_indices, options.len(), id, correct_indices.len());
}

// ---------------------------------------------------------------------------------------
// Validation accepts exactly the schema
// ---------------------------------------------------------------------------------------

proof fn lemma_clean_items_have_no_issues(categories: Seq<Seq<char>>, items: Seq<ItemView>, id: Seq<char>, n: nat)
    requires
        n <= items.len(),
        forall|k: int| 0 <= k < items.len() ==> !crate::text::is_blank_text(#[trigger] items[k].text),
        forall|k: int| 0 <= k < items.len() ==> categories.contains(#[trigger] items[k].correct_category),
    ensures
        items_issues(categories, items, id, n).len() == 0,
    decreases n,
{
    if n > 0 {
        lemma_clean_items_have_no_issues(categories, items, id, (n - 1) as nat);
        assert(!crate::text::is_blank_text(items[n - 1].text));
        assert(categories.contains(items[n - 1].correct_category));
    }
}

proof fn lemma_clean_choices_have_no_issues(choices: Seq<ChoiceView>, id: Seq<char>, n: nat)
    requires
        n <= choices.len(),
        forall|k: int| 0 <= k < choices.len() ==> !crate::text::is_blank_text(#[trigger] choices[k].label),
        forall|k: int| 0 <= k < choices.len() ==> !crate::text::is_blank_text(#[trigger] choices[k].feedback),
    ensures
        choices_each_issues(choices, id, n).len() == 0,
    decreases n,
{
    if n > 0 {
        lemma_clean_choices_have_no_issues(choices, id, (n - 1) as nat);
        assert(!crate::text::is_blank_text(choices[n - 1].label));
        assert(!crate::text::is_blank_text(choices[n - 1].feedback));
    }
}

/// Validation accepts an exercise exactly when it follows the written schema rules: it reports
/// no issue for an exercise that follows them, and some issue for one that does not.
#[verifier::spinoff_prover]
#[verifier::rlimit(40)]
pub proof fn lemma_validation_accepts_exactly_the_schema(ex: ExerciseView)
    ensures
        exercise_issues(ex).len() == 0 <==> follows_schema(ex),
{
    if exercise_issues(ex).len() == 0 {
        lemma_valid_exercise_follows_schema(ex);
    }
    if follows_schema(ex) {
        reveal(exercise_issues);
        match ex {
            ExerciseView::Classification { id, title, prompt, categories, items } => {
                lemma_clean_entries_have_no_issues("categories"@, categories, Some(id), categories.len());
                lemma_clean_items_have_no_issues(categories, items, id, items.len());
            },
            ExerciseView::MultipleChoice { id, title, prompt, options, correct_indices, multi_select } => {
                lemma_clean_entries_have_no_issues("options"@, options, Some(id), options.len());
                lemma_in_range_indices_have_no_issues(correct_indices, options.len(), id, correct_indices.len());
            },
            ExerciseView::Scenario { id, title, description, prompt, choices } => {
                lemma_clean_choices_have_no_issues(choices, id, choices.len());
            },
        }
    }
}

// ---------------------------------------------------------------------------------------
// Points for score and speed
// ---------------------------------------------------------------------------------------

/// The speed bonus: an answer within 20 s earns 15 points more, and one within 40 s 8 points
/// more, than the same answer after more than 40 s.
pub proof fn lemma_speed_bonus_steps(
    score: Fraction,
    was_correct: bool,
    streak: usize,
    duration_ms: u128,
    slow_ms: u128,
)
    requires
        slow_ms > 40_000,
    ensures
        duration_ms <= 20_000 ==> points_for(score, was_correct, streak, duration_ms) == points_for(
            score,
            was_correct,
            streak,
            slow_ms,
        ) + 15,
        20_000 < duration_ms <= 40_000 ==> points_for(score, was_correct, streak, duration_ms)
            == points_for(score, was_correct, streak, slow_ms) + 8,
        40_000 < duration_ms ==> points_for(score, was_correct, streak, duration_ms) == points_for(
            score,
            was_correct,
            streak,
            slow_ms,
        ),
{
}

/// The score earns `120 * score` points rounded to the nearest integer, a half rounding up:
/// the points above those of a zero score are the integer `q` with
/// `120 * score - 1/2 < q <= 120 * score + 1/2`, for any score between 0 and 1.
pub proof fn lemma_score_points_round_to_nearest(
    score: Fraction,
    was_correct: bool,
    streak: usize,
    duration_ms: u128,
)
    requires
        0 < score.denominator,
        score.numerator <= score.denominator,
    ensures
        ({
            let q = points_for(score, was_correct, streak, duration_ms) - points_for(
                Fraction { numerator: 0, denominator: 1 },
                was_correct,
                streak,
                duration_ms,
            );
            &&& 240 * score.numerator - score.denominator < 2 * score.denominator * q
            &&& 2 * score.denominator * q <= 240 * score.numerator + score.denominator
        }),
{
    let n = score.numerator as int;
    let d = score.denominator as int;
    let x = 240 * n + d;
    let q = x / (2 * d);
    vstd::arithmetic::div_mod::lemma_fundamental_div_mod(x, 2 * d);
    vstd::arithmetic::div_mod::lemma_mod_bound(x, 2 * d);
    assert(0 <= q) by (nonlinear_arith)
        requires
            0 <= x,
            0 < d,
            q == x / (2 * d),
    ;
    assert(q <= 120) by (nonlinear_arith)
        requires
            x == 2 * d * q + x % (2 * d),
            0 <= x % (2 * d),
            n <= d,
            x == 240 * n + d,
            0 < d,
    ;
    assert((240 * 0 + 1) / (2 * 1) == 0int) by (nonlinear_arith);
    assert(rounded_score_points(Fraction { numerator: 0, denominator: 1 }) == 0);
    assert(rounded_score_points(score) == q);
    assert(score_points(score) == q);
    assert(2 * d * q <= x) by (nonlinear_arith)
        requires
            x == 2 * d * q + x % (2 * d),
            0 <= x % (2 * d),
    ;
    assert(x - 2 * d < 2 * d * q) by (nonlinear_arith)
        requires
            x == 2 * d * q + x % (2 * d),
            x % (2 * d) < 2 * d,
    ;
}

// ---------------------------------------------------------------------------------------
// Scenario and multiple-choice answers
// ---------------------------------------------------------------------------------------

/// A scenario answer picks one choice: within range it is correct exactly when that choice
/// is marked correct, scores full marks or nothing accordingly, and shows that choice's
/// feedback; out of range it is refused.
pub proof fn lemma_scenario_answer_takes_the_chosen_choice(
    id: Seq<char>,
    title: Seq<char>,
    description: Seq<char>,
    prompt: Seq<char>,
    choices: Seq<ChoiceView>,
    selected: usize,
)
    ensures
        selected < choices.len() ==> (evaluation_of(
            ExerciseView::Scenario { id, title, description, prompt, choices },
            AnswerView::Scenario(selected),
        ) matches Ok(v) && {
            &&& v.correct == choices[selected as int].is_correct
            &&& v.feedback == choices[selected as int].feedback
            &&& v.score.denominator == 1
            &&& v.score.numerator == (if choices[selected as int].is_correct {
                1int
            } else {
                0int
            })
        }),
        selected >= choices.len() ==> evaluation_of(
            ExerciseView::Scenario { id, title, description, prompt, choices },
            AnswerView::Scenario(selected),
        ) is Err,
{
}

/// A multiple-choice answer is correct exactly when it selects every correct option and
/// nothing else, whatever the order or repetition of the selection; when anything is
/// selected or correct, it scores the options that are both selected and correct out of those
/// that are selected or correct.
pub proof fn lemma_multiple_choice_scores_overlap(
    id: Seq<char>,
    title: Seq<char>,
    prompt: Seq<char>,
    options: Seq<Seq<char>>,
    correct_indices: Seq<usize>,
    multi_select: bool,
    selected: Seq<usize>,
)
    requires
        correct_indices.len() + selected.len() <= u64::MAX,
    ensures
        evaluation_of(
            ExerciseView::MultipleChoice { id, title, prompt, options, correct_indices, multi_select },
            AnswerView::MultipleChoice(selected),
        ) matches Ok(v) && {
            &&& v.correct <==> (forall|x: usize| selected.contains(x) <==> correct_indices.contains(x))
            &&& (correct_indices.len() + selected.len() > 0) ==> {
                &&& v.score.numerator == Set::new(
                    |x: usize| selected.contains(x) && correct_indices.contains(x),
                ).len()
                &&& v.score.denominator == Set::new(
                    |x: usize| selected.contains(x) || correct_indices.contains(x),
                ).len()
            }
        },
{
    let c = correct_indices.to_set();
    let t = selected.to_set();
    assert(c.intersect(t) =~= Set::new(|x: usize| selected.contains(x) && correct_indices.contains(x)));
    assert(c.union(t) =~= Set::new(|x: usize| selected.contains(x) || correct_indices.contains(x)));
    correct_indices.lemma_cardinality_of_set();
    selected.lemma_cardinality_of_set();
    vstd::set_lib::lemma_len_union(c, t);
    vstd::set_lib::lemma_len_subset(c.intersect(t), c.union(t));
    if correct_indices.len() + selected.len() > 0 {
        if correct_indices.len() > 0 {
            assert(c.union(t).contains(correct_indices[0]));
        } else {
            assert(c.union(t).contains(selected[0]));
        }
        vstd::set_lib::lemma_set_empty_equivalency_len(c.union(t));
    }
    if forall|x: usize| selected.contains(x) <==> correct_indices.contains(x) {
        assert(t =~= c);
    }
    if t == c {
        assert forall|x: usize| selected.contains(x) <==> correct_indices.contains(x) by {
            assert(t.contains(x) == c.contains(x));
        }
    }
}

/// The prompt of an exercise, whatever its kind.
pub open spec fn prompt_of(x: ExerciseView) -> Seq<char> {
    match x {
        ExerciseView::Classification { prompt, .. } => prompt,
        ExerciseView::MultipleChoice { prompt, .. } => prompt,
        ExerciseView::Scenario { prompt, .. } => prompt,
    }
}

/// An exercise written as a table takes its kind, id, title and prompt each from its own key:
/// when it loads, its variant is the one the `kind` entry names, and its id, title and prompt
/// are the strings under those keys.
pub proof fn lemma_exercise_table_reads_by_key(
    entries: Vec<(String, Node)>,
    kind: Seq<char>,
    id: Seq<char>,
    title: Seq<char>,
    prompt: Seq<char>,
)
    requires
        first_text_under(entries@, "kind"@, kind),
        first_text_under(entries@, "id"@, id),
        first_text_under(entries@, "title"@, title),
        first_text_under(entries@, "prompt"@, prompt),
    ensures
        exercise_from(Node::Table(entries)) matches Ok(x) ==> {
            &&& x.id() == id
            &&& x.title() == title
            &&& prompt_of(x) == prompt
            &&& (x is Classification <==> kind == "classification"@)
            &&& (x is MultipleChoice <==> kind == "multiple_choice"@)
            &&& (x is Scenario <==> kind == "scenario"@)
        },
{
    lemma_text_under(entries@, "kind"@, kind);
    reveal_strlit("classification");
    reveal_strlit("multiple_choice");
    reveal_strlit("scenario");
    assert("classification"@ != "multiple_choice"@ && "classification"@ != "scenario"@
        && "multiple_choice"@ != "scenario"@) by {
        assert("classification"@[0] != "multiple_choice"@[0]);
        assert("classification"@[0] != "scenario"@[0]);
        assert("multiple_choice"@[0] != "scenario"@[0]);
    }
    lemma_text_under(entries@, "id"@, id);
    lemma_text_under(entries@, "title"@, title);
    lemma_text_under(entries@, "prompt"@, prompt);
}

/// A scenario written as a table takes its description from the `description` key, and a
/// multiple-choice exercise its selection mode from the `multi_select` key.
pub proof fn lemma_exercise_table_reads_description_and_mode(
    entries: Vec<(String, Node)>,
    description: Seq<char>,
    multi_select: bool,
)
    requires
        first_text_under(entries@, "description"@, description),
        first_flag_under(entries@, "multi_select"@, multi_select),
    ensures
        exercise_from(Node::Table(entries)) matches Ok(ExerciseView::Scenario { description: d, .. })
            ==> d == description,
        exercise_from(Node::Table(entries)) matches Ok(ExerciseView::MultipleChoice { multi_select: m, .. })
            ==> m == multi_select,
{
    lemma_text_under(entries@, "description"@, description);
    lemma_flag_under(entries@, "multi_select"@, multi_select);
}

// ---------------------------------------------------------------------------------------
// Feedback of a classification answer
// ---------------------------------------------------------------------------------------

/// The mark a feedback line opens with: a tick for an item placed right, a cross otherwise.
pub open spec fn mark(right: bool) -> char {
    if right {
        '✓'
    } else {
        '✗'
    }
}

proof fn lemma_progress_lines_marked(
    categories: Seq<Seq<char>>,
    items: Seq<ItemView>,
    indices: Seq<usize>,
    n: nat,
)
    requires
        n <= items.len(),
        indices.len() == items.len(),
        forall|k: int| 0 <= k < indices.len() ==> #[trigger] indices[k] < categories.len(),
    ensures
        classification_progress(categories, items, indices, n) matches Ok((_, lines)) && {
            &&& lines.len() == n
            &&& forall|k: int|
                0 <= k < n ==> (#[trigger] lines[k]).len() > 0 && lines[k][0] == mark(
                    placed_right(categories, items, indices)(k),
                )
        },
    decreases n,
{
    reveal_strlit("✓ \"");
    reveal_strlit("✗ \"");
    if n > 0 {
        lemma_progress_lines_marked(categories, items, indices, (n - 1) as nat);
        assert(indices[n - 1] < categories.len());
        let k = n - 1;
        let chosen = categories[indices[k] as int];
        let line = crate::engine::classification_line(items[k].text, chosen, items[k].correct_category);
        if chosen == items[k].correct_category {
            assert(line[0] == "✓ \""@[0]);
        } else {
            assert(line[0] == "✗ \""@[0]);
        }
    }
}

/// The feedback of a classification answer (right length, every index naming a category) is
/// one line per item, in item order, joined by newlines; each line opens with a tick when that
/// item is placed in its correct category and with a cross otherwise.
pub proof fn lemma_classification_feedback_marks_each_item(
    id: Seq<char>,
    title: Seq<char>,
    prompt: Seq<char>,
    categories: Seq<Seq<char>>,
    items: Seq<ItemView>,
    indices: Seq<usize>,
)
    requires
        indices.len() == items.len(),
        forall|k: int| 0 <= k < indices.len() ==> #[trigger] indices[k] < categories.len(),
    ensures
        evaluation_of(
            ExerciseView::Classification { id, title, prompt, categories, items },
            AnswerView::Classification(indices),
        ) matches Ok(v) && exists|lines: Seq<Seq<char>>|
            {
                &&& v.feedback == crate::text::joined(lines, "\n"@)
                &&& lines.len() == items.len()
                &&& forall|k: int|
                    0 <= k < items.len() ==> (#[trigger] lines[k]).len() > 0 && lines[k][0] == mark(
                        placed_right(categories, items, indices)(k),
                    )
            },
{
    lemma_progress_lines_marked(categories, items, indices, items.len());
}

// ---------------------------------------------------------------------------------------
// What one recorded attempt changes
// ---------------------------------------------------------------------------------------

/// Recording an attempt counts it once, counts it as correct when it was, keeps the fastest
/// and slowest durations as the smallest and largest seen (this one included), adds its
/// duration to the total (saturating), and extends the current streak on a correct answer or
/// ends it on a wrong one, the longest streak keeping the best run.
pub proof fn lemma_recording_an_attempt(metrics: SessionMetrics, duration_ms: u128, was_correct: bool)
    requires
        metrics.can_record(was_correct),
    ensures
        ({
            let m = metrics.after_attempt(duration_ms, was_correct);
            &&& m.answered == metrics.answered + 1
            &&& m.correct == metrics.correct + (if was_correct { 1int } else { 0int })
            &&& m.fastest_ms matches Some(f) && f <= duration_ms && (metrics.fastest_ms matches Some(g)
                ==> f <= g) && (f == duration_ms || metrics.fastest_ms == Some(f))
            &&& m.slowest_ms matches Some(s) && s >= duration_ms && (metrics.slowest_ms matches Some(g)
                ==> s >= g) && (s == duration_ms || metrics.slowest_ms == Some(s))
            &&& m.total_duration_ms == (if metrics.total_duration_ms + duration_ms > u128::MAX {
                u128::MAX as int
            } else {
                metrics.total_duration_ms + duration_ms
            })
            &&& m.current_streak == (if was_correct { metrics.current_streak + 1 } else { 0int })
            &&& m.longest_streak >= metrics.longest_streak && m.longest_streak >= m.current_streak
            &&& (m.longest_streak == metrics.longest_streak || m.longest_streak == m.current_streak)
        }),
{
}

// ---------------------------------------------------------------------------------------
// Reading typed indices
// ---------------------------------------------------------------------------------------

proof fn lemma_decimal_digits(n: nat)
    ensures
        decimal_text(n).len() > 0,
        forall|i: int| 0 <= i < decimal_text(n).len() ==> '0' <= #[trigger] decimal_text(n)[i] <= '9',
        digits_value(decimal_text(n)) == n,
    decreases n,
{
    if n < 10 {
        assert(decimal_text(n) =~= seq![digit_char(n)]);
        assert(seq![digit_char(n)].drop_last() =~= Seq::<char>::empty());
        assert((digit_char(n) as u32) == 48 + n);
        assert(decimal_text(n).last() == digit_char(n));
        assert(digits_value(decimal_text(n).drop_last()) == 0);
        assert(digits_value(decimal_text(n)) == digits_value(decimal_text(n).drop_last()) * 10 + ((
        digit_char(n) as u32) - 48) as nat);
    } else {
        lemma_decimal_digits(n / 10);
        let t = decimal_text(n / 10);
        let d = digit_char(n % 10);
        assert((d as u32) == 48 + n % 10);
        assert(decimal_text(n) =~= t.push(d));
        assert(decimal_text(n).drop_last() =~= t);
        assert forall|i: int| 0 <= i < decimal_text(n).len() implies '0' <= #[trigger] decimal_text(n)[i]
            <= '9' by {
            if i < t.len() {
                assert(decimal_text(n)[i] == t[i]);
            }
        }
        assert(decimal_text(n).last() == d);
        vstd::arithmetic::div_mod::lemma_fundamental_div_mod(n as int, 10);
        assert(digits_value(decimal_text(n)) == digits_value(t) * 10 + ((d as u32) - 48) as nat);
    }
}

proof fn lemma_digits_stay_in_last_piece(t: Seq<char>, d: Seq<char>)
    requires
        forall|i: int| 0 <= i < d.len() ==> '0' <= #[trigger] d[i] <= '9',
    ensures
        pieces(t + d) == pieces(t).update(pieces(t).len() - 1, pieces(t).last() + d),
        pieces(t + d).len() == pieces(t).len(),
    decreases d.len(),
{
    lemma_pieces_have_a_last(t);
    if d.len() == 0 {
        assert(t + d =~= t);
        assert(pieces(t).last() + d =~= pieces(t).last());
        assert(pieces(t).update(pieces(t).len() - 1, pieces(t).last()) =~= pieces(t));
    } else {
        let d0 = d.drop_last();
        assert forall|i: int| 0 <= i < d0.len() implies '0' <= #[trigger] d0[i] <= '9' by {
            assert(d0[i] == d[i]);
        }
        lemma_digits_stay_in_last_piece(t, d0);
        assert(t + d =~= (t + d0).push(d.last()));
        assert((t + d).drop_last() =~= t + d0);
        assert('0' <= d[d.len() - 1] <= '9');
        let before = pieces(t + d0);
        assert(before.last() == pieces(t).last() + d0);
        assert(before.last().push(d.last()) =~= pieces(t).last() + d);
        assert(before.update(before.len() - 1, before.last().push(d.last())) =~= pieces(t).update(
            pieces(t).len() - 1,
            pieces(t).last() + d,
        ));
    }
}

proof fn lemma_pieces_have_a_last(s: Seq<char>)
    ensures
        pieces(s).len() >= 1,
    decreases s.len(),
{
    if s.len() > 0 {
        lemma_pieces_have_a_last(s.drop_last());
    }
}

proof fn lemma_indices_of_equal_prefix(ps: Seq<Seq<char>>, qs: Seq<Seq<char>>, n: nat)
    requires
        n <= ps.len(),
        n <= qs.len(),
        forall|k: int| 0 <= k < n ==> ps[k] == qs[k],
    ensures
        indices_of_pieces(ps, n) == indices_of_pieces(qs, n),
    decreases n,
{
    if n > 0 {
        lemma_indices_of_equal_prefix(ps, qs, (n - 1) as nat);
        assert(ps[n - 1] == qs[n - 1]);
    }
}

proof fn lemma_number_reads_back(v: usize)
    ensures
        trim(decimal_text(v as nat)) == decimal_text(v as nat),
        parsed_index(decimal_text(v as nat)) == Some(v),
{
    let t = decimal_text(v as nat);
    lemma_decimal_digits(v as nat);
    assert(!crate::text::is_white_space(t[0]));
    assert(trim_start(t) == t);
    assert(!crate::text::is_white_space(t.last()));
    assert(trim_end(t) == t);
    assert(t[0] != '+');
}

/// A line of indices reads as the numbers written in it: a number written in decimal reads
/// as itself, and writing a comma, space or semicolon and then a number after any line adds
/// that number to what the line reads as.
pub proof fn lemma_typed_numbers_read_back(input: Seq<char>, separator: char, v: usize)
    requires
        separator == ',' || separator == ' ' || separator == ';',
    ensures
        typed_indices(decimal_text(v as nat)) == seq![v],
        typed_indices(input.push(separator) + decimal_text(v as nat)) == typed_indices(input).push(v),
{
    let t = decimal_text(v as nat);
    lemma_decimal_digits(v as nat);
    lemma_number_reads_back(v);
    let empty = Seq::<char>::empty();
    lemma_digits_stay_in_last_piece(empty, t);
    assert(empty + t =~= t);
    assert(pieces(empty) == seq![empty]);
    assert(pieces(t) =~= seq![t]);
    assert(indices_of_pieces(seq![t], 0) == Seq::<usize>::empty());
    assert(typed_indices(t) =~= seq![v]);

    let s = input.push(separator);
    lemma_pieces_have_a_last(input);
    assert(s.drop_last() =~= input);
    assert(pieces(s) == pieces(input).push(empty));
    lemma_digits_stay_in_last_piece(s, t);
    let ps = pieces(input);
    assert(pieces(s).update(pieces(s).len() - 1, pieces(s).last() + t) =~= ps.push(t)) by {
        assert(empty + t =~= t);
    }
    let qs = ps.push(t);
    assert(pieces(s + t) == qs);
    lemma_indices_of_equal_prefix(qs, ps, ps.len());
    assert(typed_indices(s + t) == indices_of_pieces(ps, ps.len()) + seq![v]);
    assert(typed_indices(s + t) =~= typed_indices(input).push(v));
}

} // verus!
