use vstd::prelude::*;
use vstd::string::*;
use crate::model::exercise::{ClassificationItem, Exercise, ExerciseView, ScenarioChoice, ItemView, ChoiceView};
use crate::text::{
    contains_text, contains_text_before, decimal_string, decimal_text, is_blank, is_blank_text,
    texts,
};

verus! {

/// A single validation issue found in exercise data.
#[derive(Debug, Clone, PartialEq, Eq)]
pub struct ValidationIssue {
    /// Identifier of the exercise, if known.
    pub exercise_id: Option<String>,
    /// Field or aspect that failed validation.
    pub field: String,
    /// Human-friendly description of the issue.
    pub message: String,
}

/// What a validation issue holds, as text.
pub struct IssueView {
    pub exercise_id: Option<Seq<char>>,
    pub field: Seq<char>,
    pub message: Seq<char>,
}

pub open spec fn optional_text(o: Option<String>) -> Option<Seq<char>> {
    match o {
        Some(s) => Some(s@),
        None => None,
    }
}

pub open spec fn optional_str(o: Option<&str>) -> Option<Seq<char>> {
    match o {
        Some(s) => Some(s@),
        None => None,
    }
}

impl View for ValidationIssue {
    type V = IssueView;

    open spec fn view(&self) -> IssueView {
        IssueView {
            exercise_id: optional_text(self.exercise_id),
            field: self.field@,
            message: self.message@,
        }
    }
}

/// The issue with the given parts.
pub open spec fn issue(id: Option<Seq<char>>, field: Seq<char>, message: Seq<char>) -> IssueView {
    IssueView { exercise_id: id, field, message }
}

/// The views of a list of issues, in order.
pub open spec fn issues_view(v: Seq<ValidationIssue>) -> Seq<IssueView> {
    v.map_values(|i: ValidationIssue| i@)
}

fn owned_optional(o: Option<&str>) -> (r: Option<String>)
    ensures
        optional_text(r) == optional_str(o),
{
    match o {
        Some(s) => Some(s.to_owned()),
        None => None,
    }
}

impl ValidationIssue {
    /// An issue about `field` of the exercise `exercise_id`.
    pub fn new(exercise_id: Option<&str>, field: &str, message: &str) -> (r: ValidationIssue)
        ensures
            r@ == issue(optional_str(exercise_id), field@, message@),
    {
        ValidationIssue {
            exercise_id: owned_optional(exercise_id),
            field: field.to_owned(),
            message: message.to_owned(),
        }
    }

    /// The text shown for this issue: `[id] field: message`, or `field: message` without id.
    pub fn describe(&self) -> (r: String)
        ensures
            r@ == describe_issue(self@),
    {
        let mut r = String::new();
        match &self.exercise_id {
            Some(id) => {
                r.append("[");
                r.append(id.as_str());
                r.append("] ");
            },
            None => {},
        }
        r.append(self.field.as_str());
        r.append(": ");
        r.append(self.message.as_str());
        r
    }
}

/// How an issue is written for people.
pub open spec fn describe_issue(i: IssueView) -> Seq<char> {
    match i.exercise_id {
        Some(id) => "["@ + id + "] "@ + i.field + ": "@ + i.message,
        None => Seq::empty() + i.field + ": "@ + i.message,
    }
}

/// Collection of validation issues for one source.
#[derive(Debug, Clone, PartialEq, Eq)]
pub struct ValidationErrorReport {
    pub source: Option<String>,
    pub issues: Vec<ValidationIssue>,
}

impl ValidationErrorReport {
    pub fn new(source: Option<String>, issues: Vec<ValidationIssue>) -> (r: ValidationErrorReport)
        ensures
            r.source == source,
            r.issues == issues,
    {
        ValidationErrorReport { source, issues }
    }

    /// The text shown for this report: a heading line, then one `- issue` line per issue.
    pub fn describe(&self) -> (r: String)
        ensures
            r@ == describe_report(optional_text(self.source), issues_view(self.issues@)),
    {
        let mut r = String::new();
        match &self.source {
            Some(src) => {
                r.append("Validation failed for ");
                r.append(src.as_str());
                r.append(":\n");
            },
            None => {
                r.append("Validation failed:\n");
            },
        }
        let ghost head = r@;
        let ghost all = issues_view(self.issues@);
        let mut i: usize = 0;
        while i < self.issues.len()
            invariant
                i <= self.issues@.len(),
                all == issues_view(self.issues@),
                r@ == head + issue_lines(all.take(i as int)),
            decreases self.issues.len() - i,
        {
            let line = self.issues[i].describe();
            r.append("- ");
            r.append(line.as_str());
            r.append("\n");
            assert(all.take(i + 1).drop_last() =~= all.take(i as int));
            i = i + 1;
        }
        assert(all.take(self.issues@.len() as int) =~= all);
        r
    }
}

/// One `- issue` line per issue.
pub open spec fn issue_lines(issues: Seq<IssueView>) -> Seq<char>
    decreases issues.len(),
{
    if issues.len() == 0 {
        Seq::empty()
    } else {
        issue_lines(issues.drop_last()) + "- "@ + describe_issue(issues.last()) + "\n"@
    }
}

/// How a report is written for people.
pub open spec fn describe_report(source: Option<Seq<char>>, issues: Seq<IssueView>) -> Seq<char> {
    match source {
        Some(src) => "Validation failed for "@ + src + ":\n"@ + issue_lines(issues),
        None => "Validation failed:\n"@ + issue_lines(issues),
    }
}

// ---------------------------------------------------------------------------------------
// What validation reports, stated over exercise views
// ---------------------------------------------------------------------------------------

/// The issue for a blank value.
pub open spec fn blank_value_issues(value: Seq<char>, id: Option<Seq<char>>, field: Seq<char>) -> Seq<
    IssueView,
> {
    if is_blank_text(value) {
        seq![issue(id, field, "Value must not be empty"@)]
    } else {
        Seq::empty()
    }
}

/// The issues for entry `k` of a text collection: blank, then repeated.
pub open spec fn entry_issues(field: Seq<char>, values: Seq<Seq<char>>, id: Option<Seq<char>>, k: int) -> Seq<IssueView> {
    (if is_blank_text(values[k]) {
        seq![issue(id, field, "Entry "@ + decimal_text(k as nat) + " must not be empty"@)]
    } else {
        Seq::empty()
    }) + (if values.take(k).contains(values[k]) {
        seq![issue(id, field, "Duplicate entry: "@ + values[k])]
    } else {
        Seq::empty()
    })
}

/// The issues for the first `n` entries of a text collection.
pub open spec fn entries_issues(field: Seq<char>, values: Seq<Seq<char>>, id: Option<Seq<char>>, n: nat) -> Seq<IssueView>
    decreases n,
{
    if n == 0 {
        Seq::empty()
    } else {
        entries_issues(field, values, id, (n - 1) as nat) + entry_issues(field, values, id, n - 1)
    }
}

/// The issues for a collection of texts (categories or options).
pub open spec fn collection_issues(field: Seq<char>, values: Seq<Seq<char>>, id: Option<Seq<char>>) -> Seq<IssueView> {
    if values.len() == 0 {
        seq![issue(id, field, "Provide at least one entry"@)]
    } else {
        entries_issues(field, values, id, values.len())
    }
}

/// The issues for classification item `k`.
pub open spec fn item_issues(categories: Seq<Seq<char>>, items: Seq<ItemView>, id: Seq<char>, k: int) -> Seq<IssueView> {
    (if is_blank_text(items[k].text) {
        seq![issue(Some(id), "items"@, "Item "@ + decimal_text(k as nat) + " text must not be empty"@)]
    } else {
        Seq::empty()
    }) + (if !categories.contains(items[k].correct_category) {
        seq![
            issue(
                Some(id),
                "items"@,
                "Item "@ + decimal_text(k as nat) + " correct_category '"@ + items[k].correct_category
                    + "' is not listed in categories"@,
            ),
        ]
    } else {
        Seq::empty()
    })
}

pub open spec fn items_issues(categories: Seq<Seq<char>>, items: Seq<ItemView>, id: Seq<char>, n: nat) -> Seq<IssueView>
    decreases n,
{
    if n == 0 {
        Seq::empty()
    } else {
        items_issues(categories, items, id, (n - 1) as nat) + item_issues(categories, items, id, n - 1)
    }
}

/// The issues for scenario choice `k`.
pub open spec fn choice_issues(choices: Seq<ChoiceView>, id: Seq<char>, k: int) -> Seq<IssueView> {
    (if is_blank_text(choices[k].label) {
        seq![issue(Some(id), "choices"@, "Choice "@ + decimal_text(k as nat) + " label must not be empty"@)]
    } else {
        Seq::empty()
    }) + (if is_blank_text(choices[k].feedback) {
        seq![issue(Some(id), "choices"@, "Choice "@ + decimal_text(k as nat) + " feedback must not be empty"@)]
    } else {
        Seq::empty()
    })
}

pub open spec fn choices_each_issues(choices: Seq<ChoiceView>, id: Seq<char>, n: nat) -> Seq<IssueView>
    decreases n,
{
    if n == 0 {
        Seq::empty()
    } else {
        choices_each_issues(choices, id, (n - 1) as nat) + choice_issues(choices, id, n - 1)
    }
}

/// Whether some choice is marked correct.
pub open spec fn has_correct_choice(choices: Seq<ChoiceView>) -> bool {
    exists|k: int| 0 <= k < choices.len() && #[trigger] choices[k].is_correct
}

pub open spec fn choices_issues(choices: Seq<ChoiceView>, id: Seq<char>) -> Seq<IssueView> {
    choices_each_issues(choices, id, choices.len()) + if has_correct_choice(choices) {
        Seq::empty()
    } else {
        seq![issue(Some(id), "choices"@, "Mark at least one choice as correct"@)]
    }
}

/// The issue for correct index `k` when it is out of range.
pub open spec fn index_issues(correct_indices: Seq<usize>, option_count: nat, id: Seq<char>, k: int) -> Seq<IssueView> {
    if correct_indices[k] >= option_count {
        seq![
            issue(
                Some(id),
                "correct_indices"@,
                "Index "@ + decimal_text(correct_indices[k] as nat) + " is out of range for "@
                    + decimal_text(option_count) + " options"@,
            ),
        ]
    } else {
        Seq::empty()
    }
}

pub open spec fn indices_issues(correct_indices: Seq<usize>, option_count: nat, id: Seq<char>, n: nat) -> Seq<IssueView>
    decreases n,
{
    if n == 0 {
        Seq::empty()
    } else {
        indices_issues(correct_indices, option_count, id, (n - 1) as nat) + index_issues(
            correct_indices,
            option_count,
            id,
            n - 1,
        )
    }
}

pub open spec fn classification_issues(
    id: Seq<char>,
    title: Seq<char>,
    prompt: Seq<char>,
    categories: Seq<Seq<char>>,
    items: Seq<ItemView>,
) -> Seq<IssueView> {
    blank_value_issues(id, None, "id"@) + blank_value_issues(title, Some(id), "title"@)
        + blank_value_issues(prompt, Some(id), "prompt"@) + collection_issues(
        "categories"@,
        categories,
        Some(id),
    ) + (if categories.len() < 2 {
        seq![issue(Some(id), "categories"@, "Provide at least two categories to classify items"@)]
    } else {
        Seq::empty()
    }) + (if items.len() == 0 {
        seq![issue(Some(id), "items"@, "Include at least one item to classify"@)]
    } else {
        Seq::empty()
    }) + items_issues(categories, items, id, items.len())
}

pub open spec fn multiple_choice_issues(
    id: Seq<char>,
    title: Seq<char>,
    prompt: Seq<char>,
    options: Seq<Seq<char>>,
    correct_indices: Seq<usize>,
    multi_select: bool,
) -> Seq<IssueView> {
    blank_value_issues(id, None, "id"@) + blank_value_issues(title, Some(id), "title"@)
        + blank_value_issues(prompt, Some(id), "prompt"@) + collection_issues(
        "options"@,
        options,
        Some(id),
    ) + (if correct_indices.len() == 0 {
        seq![issue(Some(id), "correct_indices"@, "Provide at least one correct index"@)]
    } else {
        Seq::empty()
    }) + indices_issues(correct_indices, options.len(), id, correct_indices.len()) + (
    if !multi_select && correct_indices.len() > 1 {
        seq![
            issue(
                Some(id),
                "correct_indices"@,
                "Single-select exercises must have exactly one correct index"@,
            ),
        ]
    } else {
        Seq::empty()
    })
}

pub open spec fn scenario_issues(
    id: Seq<char>,
    title: Seq<char>,
    description: Seq<char>,
    prompt: Seq<char>,
    choices: Seq<ChoiceView>,
) -> Seq<IssueView> {
    blank_value_issues(id, None, "id"@) + blank_value_issues(title, Some(id), "title"@)
        + blank_value_issues(description, Some(id), "description"@) + blank_value_issues(
        prompt,
        Some(id),
        "prompt"@,
    ) + (if choices.len() == 0 {
        seq![issue(Some(id), "choices"@, "Provide at least one scenario choice"@)]
    } else {
        Seq::empty()
    }) + choices_issues(choices, id)
}

/// Every issue of one exercise, in the order validation reports them.
#[verifier::opaque]
pub open spec fn exercise_issues(ex: ExerciseView) -> Seq<IssueView> {
    match ex {
        ExerciseView::Classification { id, title, prompt, categories, items } => {
            classification_issues(id, title, prompt, categories, items)
        },
        ExerciseView::MultipleChoice { id, title, prompt, options, correct_indices, multi_select } => {
            multiple_choice_issues(id, title, prompt, options, correct_indices, multi_select)
        },
        ExerciseView::Scenario { id, title, description, prompt, choices } => {
            scenario_issues(id, title, description, prompt, choices)
        },
    }
}

/// The identifiers of a list of exercises, in order.
pub open spec fn exercise_ids(exercises: Seq<ExerciseView>) -> Seq<Seq<char>> {
    exercises.map_values(|e: ExerciseView| e.id())
}

/// The issue for exercise `k` when an earlier exercise has the same identifier.
pub open spec fn duplicate_id_issues(exercises: Seq<ExerciseView>, k: int) -> Seq<IssueView> {
    if exercise_ids(exercises).take(k).contains(exercises[k].id()) {
        seq![issue(Some(exercises[k].id()), "id"@, "Duplicate exercise identifier"@)]
    } else {
        Seq::empty()
    }
}

/// Every issue of the first `n` exercises, in the order validation reports them.
pub open spec fn all_issues(exercises: Seq<ExerciseView>, n: nat) -> Seq<IssueView>
    decreases n,
{
    if n == 0 {
        Seq::empty()
    } else {
        all_issues(exercises, (n - 1) as nat) + duplicate_id_issues(exercises, n - 1)
            + exercise_issues(exercises[n - 1])
    }
}

/// The views of a list of exercises, in order.
pub open spec fn exercises_view(exercises: Seq<Exercise>) -> Seq<ExerciseView> {
    exercises.map_values(|e: Exercise| e@)
}

/// Every issue of a list of exercises.
pub open spec fn validation_issues(exercises: Seq<Exercise>) -> Seq<IssueView> {
    all_issues(exercises_view(exercises), exercises.len())
}

// ---------------------------------------------------------------------------------------
// Validation
// ---------------------------------------------------------------------------------------

fn push_issue(issues: &mut Vec<ValidationIssue>, exercise_id: Option<&str>, field: &str, message: &str)
    ensures
        issues_view(final(issues)@) == issues_view(old(issues)@).push(
            issue(optional_str(exercise_id), field@, message@),
        ),
{
    issues.push(ValidationIssue::new(exercise_id, field, message));
    assert(issues_view(issues@) =~= issues_view(old(issues)@).push(
        issue(optional_str(exercise_id), field@, message@),
    ));
}

/// `prefix`, the decimal form of `n`, then `suffix`.
fn numbered_message(prefix: &str, n: u64, suffix: &str) -> (r: String)
    ensures
        r@ == prefix@ + decimal_text(n as nat) + suffix@,
{
    let mut r = prefix.to_owned();
    let digits = decimal_string(n);
    r.append(digits.as_str());
    r.append(suffix);
    r
}

/// Validate a list of exercises, returning structured issues.
pub fn validate_exercises(exercises: &[Exercise]) -> (r: Result<(), ValidationErrorReport>)
    ensures
        validation_issues(exercises@).len() == 0 <==> r is Ok,
        r matches Err(report) ==> report.source is None && issues_view(report.issues@)
            == validation_issues(exercises@),
{
    validate_exercises_with_source(exercises, None)
}

/// Validate a list of exercises under a source label (e.g. a file name).
pub fn validate_exercises_with_source(exercises: &[Exercise], source: Option<&str>) -> (r: Result<
    (),
    ValidationErrorReport,
>)
    ensures
        validation_issues(exercises@).len() == 0 <==> r is Ok,
        r matches Err(report) ==> optional_text(report.source) == optional_str(source)
            && issues_view(report.issues@) == validation_issues(exercises@),
{
    let ghost views = exercises_view(exercises@);
    let mut issues: Vec<ValidationIssue> = Vec::new();
    let mut seen_ids: Vec<String> = Vec::new();
    let mut i: usize = 0;
    while i < exercises.len()
        invariant
            i <= exercises@.len(),
            views == exercises_view(exercises@),
            texts(seen_ids@) == exercise_ids(views).take(i as int),
            issues_view(issues@) == all_issues(views, i as nat),
        decreases exercises.len() - i,
    {
        let exercise = &exercises[i];
        let id = exercise.id();
        let seen = contains_text(&seen_ids, id);
        assert(views[i as int] == exercise@);
        if seen {
            push_issue(&mut issues, Some(id), "id", "Duplicate exercise identifier");
        }
        assert(exercise_ids(views)[i as int] == id@);
        let ghost before = seen_ids@;
        seen_ids.push(id.to_owned());
        assert(texts(seen_ids@) =~= texts(before).push(id@));
        assert(exercise_ids(views).take(i + 1) =~= exercise_ids(views).take(i as int).push(id@));
        let ghost with_duplicate = issues_view(issues@);
        validate_exercise(exercise, &mut issues);
        assert(issues_view(issues@) == all_issues(views, (i + 1) as nat));
        i = i + 1;
    }
    if issues.len() == 0 {
        Ok(())
    } else {
        Err(ValidationErrorReport::new(owned_optional(source), issues))
    }
}

fn validate_exercise(exercise: &Exercise, issues: &mut Vec<ValidationIssue>)
    ensures
        issues_view(final(issues)@) == issues_view(old(issues)@) + exercise_issues(exercise@),
{
    reveal(exercise_issues);
    match exercise {
        Exercise::Classification { id, title, prompt, categories, items } => {
            validate_classification(id, title, prompt, categories, items, issues);
        },
        Exercise::MultipleChoice { id, title, prompt, options, correct_indices, multi_select } => {
            validate_multiple_choice(id, title, prompt, options, correct_indices, *multi_select, issues);
        },
        Exercise::Scenario { id, title, description, prompt, choices } => {
            validate_scenario(id, title, description, prompt, choices, issues);
        },
    }
}

#[verifier::rlimit(40)]
fn validate_classification(
    id: &String,
    title: &String,
    prompt: &String,
    categories: &Vec<String>,
    items: &Vec<ClassificationItem>,
    issues: &mut Vec<ValidationIssue>,
)
    ensures
        issues_view(final(issues)@) == issues_view(old(issues)@) + classification_issues(
            id@,
            title@,
            prompt@,
            texts(categories@),
            items@.map_values(|i: ClassificationItem| i@),
        ),
{
    let ghost start = issues_view(issues@);
    validate_non_empty(id.as_str(), None, "id", issues);
    validate_non_empty(title.as_str(), Some(id.as_str()), "title", issues);
    validate_non_empty(prompt.as_str(), Some(id.as_str()), "prompt", issues);
    validate_string_collection("categories", categories, Some(id.as_str()), issues);
    let ghost a = issues_view(issues@);
    if categories.len() < 2 {
        push_issue(
            issues,
            Some(id.as_str()),
            "categories",
            "Provide at least two categories to classify items",
        );
    }
    if items.len() == 0 {
        push_issue(issues, Some(id.as_str()), "items", "Include at least one item to classify");
    }
    validate_classification_items(categories, items, id.as_str(), issues);
    assert(issues_view(issues@) =~= start + classification_issues(
        id@,
        title@,
        prompt@,
        texts(categories@),
        items@.map_values(|i: ClassificationItem| i@),
    ));
}

#[verifier::rlimit(40)]
fn validate_multiple_choice(
    id: &String,
    title: &String,
    prompt: &String,
    options: &Vec<String>,
    correct_indices: &Vec<usize>,
    multi_select: bool,
    issues: &mut Vec<ValidationIssue>,
)
    ensures
        issues_view(final(issues)@) == issues_view(old(issues)@) + multiple_choice_issues(
            id@,
            title@,
            prompt@,
            texts(options@),
            correct_indices@,
            multi_select,
        ),
{
    let ghost start = issues_view(issues@);
    validate_non_empty(id.as_str(), None, "id", issues);
    validate_non_empty(title.as_str(), Some(id.as_str()), "title", issues);
    validate_non_empty(prompt.as_str(), Some(id.as_str()), "prompt", issues);
    validate_string_collection("options", options, Some(id.as_str()), issues);
    if correct_indices.len() == 0 {
        push_issue(issues, Some(id.as_str()), "correct_indices", "Provide at least one correct index");
    }
    validate_correct_indices(correct_indices, options.len(), id.as_str(), issues);
    if !multi_select && correct_indices.len() > 1 {
        push_issue(
            issues,
            Some(id.as_str()),
            "correct_indices",
            "Single-select exercises must have exactly one correct index",
        );
    }
    assert(texts(options@).len() == options.len());
    assert(issues_view(issues@) =~= start + multiple_choice_issues(
        id@,
        title@,
        prompt@,
        texts(options@),
        correct_indices@,
        multi_select,
    ));
}

#[verifier::rlimit(40)]
fn validate_scenario(
    id: &String,
    title: &String,
    description: &String,
    prompt: &String,
    choices: &Vec<ScenarioChoice>,
    issues: &mut Vec<ValidationIssue>,
)
    ensures
        issues_view(final(issues)@) == issues_view(old(issues)@) + scenario_issues(
            id@,
            title@,
            description@,
            prompt@,
            choices@.map_values(|c: ScenarioChoice| c@),
        ),
{
    let ghost start = issues_view(issues@);
    validate_non_empty(id.as_str(), None, "id", issues);
    validate_non_empty(title.as_str(), Some(id.as_str()), "title", issues);
    validate_non_empty(description.as_str(), Some(id.as_str()), "description", issues);
    validate_non_empty(prompt.as_str(), Some(id.as_str()), "prompt", issues);
    if choices.len() == 0 {
        push_issue(issues, Some(id.as_str()), "choices", "Provide at least one scenario choice");
    }
    validate_choices(choices, id.as_str(), issues);
    assert(issues_view(issues@) =~= start + scenario_issues(
        id@,
        title@,
        description@,
        prompt@,
        choices@.map_values(|c: ScenarioChoice| c@),
    ));
}

fn validate_non_empty(value: &str, exercise_id: Option<&str>, field: &str, issues: &mut Vec<ValidationIssue>)
    ensures
        issues_view(final(issues)@) == issues_view(old(issues)@) + blank_value_issues(
            value@,
            optional_str(exercise_id),
            field@,
        ),
{
    if is_blank(value) {
        push_issue(issues, exercise_id, field, "Value must not be empty");
        assert(issues_view(issues@) =~= issues_view(old(issues)@) + blank_value_issues(
            value@,
            optional_str(exercise_id),
            field@,
        ));
    } else {
        assert(issues_view(issues@) =~= issues_view(old(issues)@) + blank_value_issues(
            value@,
            optional_str(exercise_id),
            field@,
        ));
    }
}

fn validate_string_collection(
    field: &str,
    values: &Vec<String>,
    exercise_id: Option<&str>,
    issues: &mut Vec<ValidationIssue>,
)
    ensures
        issues_view(final(issues)@) == issues_view(old(issues)@) + collection_issues(
            field@,
            texts(values@),
            optional_str(exercise_id),
        ),
{
    let ghost start = issues_view(issues@);
    let ghost vals = texts(values@);
    let ghost id = optional_str(exercise_id);
    if values.len() == 0 {
        push_issue(issues, exercise_id, field, "Provide at least one entry");
        assert(issues_view(issues@) =~= start + collection_issues(field@, vals, id));
        return;
    }
    let mut idx: usize = 0;
    while idx < values.len()
        invariant
            idx <= values@.len(),
            vals == texts(values@),
            id == optional_str(exercise_id),
            issues_view(issues@) == start + entries_issues(field@, vals, id, idx as nat),
        decreases values.len() - idx,
    {
        let ghost before = issues_view(issues@);
        let value = values[idx].as_str();
        assert(vals[idx as int] == value@);
        if is_blank(value) {
            let message = numbered_message("Entry ", idx as u64, " must not be empty");
            push_issue(issues, exercise_id, field, message.as_str());
        }
        let ghost middle = issues_view(issues@);
        if contains_text_before(values, idx, value) {
            let mut message = String::from_str("Duplicate entry: ");
            message.append(value);
            push_issue(issues, exercise_id, field, message.as_str());
        }
        assert(issues_view(issues@) =~= before + entry_issues(field@, vals, id, idx as int));
        idx = idx + 1;
        assert(issues_view(issues@) =~= start + entries_issues(field@, vals, id, idx as nat));
    }
}

fn validate_correct_indices(
    correct_indices: &Vec<usize>,
    option_count: usize,
    id: &str,
    issues: &mut Vec<ValidationIssue>,
)
    ensures
        issues_view(final(issues)@) == issues_view(old(issues)@) + indices_issues(
            correct_indices@,
            option_count as nat,
            id@,
            correct_indices@.len(),
        ),
{
    let ghost start = issues_view(issues@);
    let mut k: usize = 0;
    while k < correct_indices.len()
        invariant
            k <= correct_indices@.len(),
            issues_view(issues@) == start + indices_issues(
                correct_indices@,
                option_count as nat,
                id@,
                k as nat,
            ),
        decreases correct_indices.len() - k,
    {
        let idx = correct_indices[k];
        if idx >= option_count {
            let mut message = numbered_message("Index ", idx as u64, " is out of range for ");
            let count = decimal_string(option_count as u64);
            message.append(count.as_str());
            message.append(" options");
            push_issue(issues, Some(id), "correct_indices", message.as_str());
        }
        k = k + 1;
        assert(issues_view(issues@) =~= start + indices_issues(
            correct_indices@,
            option_count as nat,
            id@,
            k as nat,
        ));
    }
}

fn validate_classification_items(
    categories: &Vec<String>,
    items: &Vec<ClassificationItem>,
    id: &str,
    issues: &mut Vec<ValidationIssue>,
)
    ensures
        issues_view(final(issues)@) == issues_view(old(issues)@) + items_issues(
            texts(categories@),
            items@.map_values(|i: ClassificationItem| i@),
            id@,
            items@.len(),
        ),
{
    let ghost start = issues_view(issues@);
    let ghost cats = texts(categories@);
    let ghost its = items@.map_values(|i: ClassificationItem| i@);
    let mut idx: usize = 0;
    while idx < items.len()
        invariant
            idx <= items@.len(),
            cats == texts(categories@),
            its == items@.map_values(|i: ClassificationItem| i@),
            issues_view(issues@) == start + items_issues(cats, its, id@, idx as nat),
        decreases items.len() - idx,
    {
        let ghost before = issues_view(issues@);
        let item = &items[idx];
        assert(its[idx as int] == item@);
        if is_blank(item.text.as_str()) {
            let message = numbered_message("Item ", idx as u64, " text must not be empty");
            push_issue(issues, Some(id), "items", message.as_str());
        }
        if !contains_text(categories, item.correct_category.as_str()) {
            let mut message = numbered_message("Item ", idx as u64, " correct_category '");
            message.append(item.correct_category.as_str());
            message.append("' is not listed in categories");
            push_issue(issues, Some(id), "items", message.as_str());
        }
        assert(issues_view(issues@) =~= before + item_issues(cats, its, id@, idx as int));
        idx = idx + 1;
        assert(issues_view(issues@) =~= start + items_issues(cats, its, id@, idx as nat));
    }
}

fn validate_choices(choices: &Vec<ScenarioChoice>, id: &str, issues: &mut Vec<ValidationIssue>)
    ensures
        issues_view(final(issues)@) == issues_view(old(issues)@) + choices_issues(
            choices@.map_values(|c: ScenarioChoice| c@),
            id@,
        ),
{
    let ghost start = issues_view(issues@);
    let ghost chs = choices@.map_values(|c: ScenarioChoice| c@);
    let mut correct_count: usize = 0;
    let mut idx: usize = 0;
    while idx < choices.len()
        invariant
            idx <= choices@.len(),
            chs == choices@.map_values(|c: ScenarioChoice| c@),
            correct_count <= idx,
            (correct_count == 0) <==> !(exists|k: int| 0 <= k < idx && #[trigger] chs[k].is_correct),
            issues_view(issues@) == start + choices_each_issues(chs, id@, idx as nat),
        decreases choices.len() - idx,
    {
        let ghost before = issues_view(issues@);
        let choice = &choices[idx];
        assert(chs[idx as int] == choice@);
        if is_blank(choice.label.as_str()) {
            let message = numbered_message("Choice ", idx as u64, " label must not be empty");
            push_issue(issues, Some(id), "choices", message.as_str());
        }
        if is_blank(choice.feedback.as_str()) {
            let message = numbered_message("Choice ", idx as u64, " feedback must not be empty");
            push_issue(issues, Some(id), "choices", message.as_str());
        }
        if choice.is_correct {
            assert(chs[idx as int].is_correct);
            correct_count = correct_count + 1;
        }
        assert(issues_view(issues@) =~= before + choice_issues(chs, id@, idx as int));
        idx = idx + 1;
        assert(issues_view(issues@) =~= start + choices_each_issues(chs, id@, idx as nat));
    }
    let ghost middle = issues_view(issues@);
    if correct_count == 0 {
        push_issue(issues, Some(id), "choices", "Mark at least one choice as correct");
    }
    assert(issues_view(issues@) =~= start + choices_issues(chs, id@));
}

} // verus!
