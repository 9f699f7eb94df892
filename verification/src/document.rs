//! Exercise documents: the tree that a JSON or TOML text parses to, and how exercises are
//! read from it.
use vstd::prelude::*;
use vstd::string::*;
use crate::model::exercise::{
    ChoiceView, ClassificationItem, Exercise, ExerciseView, ItemView, ScenarioChoice,
};
use crate::text::{same_text, texts};
use crate::validator::exercises_view;

verus! {

/// A parsed JSON or TOML value, as the exercise schema reads it.
#[derive(Debug)]
pub enum Node {
    /// A string.
    Text(String),
    /// A non-negative integer.
    Whole(u64),
    /// A boolean.
    Flag(bool),
    /// An array.
    List(Vec<Node>),
    /// A table (JSON object), as key/value entries.
    Table(Vec<(String, Node)>),
    /// Any other value (a negative or fractional number, a date, `null`).
    Other,
}

// ---------------------------------------------------------------------------------------
// Messages
// ---------------------------------------------------------------------------------------

pub open spec fn missing_field(key: Seq<char>) -> Seq<char> {
    "missing field `"@ + key + "`"@
}

pub open spec fn wrong_type(key: Seq<char>, expected: Seq<char>) -> Seq<char> {
    "invalid type for field `"@ + key + "`, expected "@ + expected
}

pub open spec fn wrong_length(what: Seq<char>, count: Seq<char>) -> Seq<char> {
    "invalid length for "@ + what + ", expected "@ + count + " values"@
}

pub open spec fn unknown_kind(kind: Seq<char>) -> Seq<char> {
    "unknown variant `"@ + kind + "`, expected one of `classification`, `multiple_choice`, `scenario`"@
}

fn missing_field_message(key: &str) -> (r: String)
    ensures
        r@ == missing_field(key@),
{
    let mut r = String::from_str("missing field `");
    r.append(key);
    r.append("`");
    r
}

fn wrong_type_message(key: &str, expected: &str) -> (r: String)
    ensures
        r@ == wrong_type(key@, expected@),
{
    let mut r = String::from_str("invalid type for field `");
    r.append(key);
    r.append("`, expected ");
    r.append(expected);
    r
}

fn wrong_length_message(what: &str, count: &str) -> (r: String)
    ensures
        r@ == wrong_length(what@, count@),
{
    let mut r = String::from_str("invalid length for ");
    r.append(what);
    r.append(", expected ");
    r.append(count);
    r.append(" values");
    r
}

// ---------------------------------------------------------------------------------------
// Fields of a table or a list
// ---------------------------------------------------------------------------------------

/// The value of the first entry from position `i` on whose key is `key`.
pub open spec fn lookup_from(entries: Seq<(String, Node)>, key: Seq<char>, i: int) -> Option<Node>
    decreases entries.len() - i,
{
    if i < 0 || i >= entries.len() {
        None
    } else if entries[i].0@ == key {
        Some(entries[i].1)
    } else {
        lookup_from(entries, key, i + 1)
    }
}

/// The value of the first entry whose key is `key`.
pub open spec fn lookup(entries: Seq<(String, Node)>, key: Seq<char>) -> Option<Node> {
    lookup_from(entries, key, 0)
}

fn find_entry<'a>(entries: &'a Vec<(String, Node)>, key: &str) -> (r: Option<&'a Node>)
    ensures
        deref_node(r) == lookup(entries@, key@),
{
    let mut i: usize = 0;
    while i < entries.len()
        invariant
            i <= entries@.len(),
            lookup(entries@, key@) == lookup_from(entries@, key@, i as int),
        decreases entries.len() - i,
    {
        if same_text(entries[i].0.as_str(), key) {
            return Some(&entries[i].1);
        }
        i = i + 1;
    }
    None
}

/// A found node, as a value.
pub open spec fn deref_node(found: Option<&Node>) -> Option<Node> {
    match found {
        Some(n) => Some(*n),
        None => None,
    }
}

/// The value a record gives for a field. A record is written either as a table, where the
/// field is the first entry with its key, or as a list of its values in declaration order,
/// where the field is the element at its position.
pub open spec fn field_of(form: Node, position: nat, key: Seq<char>) -> Option<Node> {
    match form {
        Node::Table(entries) => lookup(entries@, key),
        Node::List(values) => if position < values@.len() {
            Some(values@[position as int])
        } else {
            None
        },
        _ => None,
    }
}

fn field<'a>(form: &'a Node, position: usize, key: &str) -> (r: Option<&'a Node>)
    ensures
        deref_node(r) == field_of(*form, position as nat, key@),
{
    match form {
        Node::Table(entries) => find_entry(entries, key),
        Node::List(values) => if position < values.len() {
            Some(&values[position])
        } else {
            None
        },
        _ => None,
    }
}

/// Whether a record written as a list has exactly `n` values (a table always passes).
pub open spec fn has_length(form: Node, n: nat) -> bool {
    match form {
        Node::List(values) => values@.len() == n,
        _ => true,
    }
}

fn check_length(form: &Node, n: usize) -> (r: bool)
    ensures
        r == has_length(*form, n as nat),
{
    match form {
        Node::List(values) => values.len() == n,
        _ => true,
    }
}

pub open spec fn text_at(found: Option<Node>, key: Seq<char>) -> Result<Seq<char>, Seq<char>> {
    match found {
        None => Err(missing_field(key)),
        Some(Node::Text(s)) => Ok(s@),
        Some(_) => Err(wrong_type(key, "a string"@)),
    }
}

fn read_text(found: Option<&Node>, key: &str) -> (r: Result<String, String>)
    ensures
        match text_at(deref_node(found), key@) {
            Ok(v) => r matches Ok(s) && s@ == v,
            Err(m) => r matches Err(s) && s@ == m,
        },
{
    match found {
        None => Err(missing_field_message(key)),
        Some(Node::Text(s)) => Ok(s.clone()),
        Some(_) => Err(wrong_type_message(key, "a string")),
    }
}

pub open spec fn flag_at(found: Option<Node>, key: Seq<char>) -> Result<bool, Seq<char>> {
    match found {
        None => Err(missing_field(key)),
        Some(Node::Flag(b)) => Ok(b),
        Some(_) => Err(wrong_type(key, "a boolean"@)),
    }
}

fn read_flag(found: Option<&Node>, key: &str) -> (r: Result<bool, String>)
    ensures
        match flag_at(deref_node(found), key@) {
            Ok(v) => r == Ok::<bool, String>(v),
            Err(m) => r matches Err(s) && s@ == m,
        },
{
    match found {
        None => Err(missing_field_message(key)),
        Some(Node::Flag(b)) => Ok(*b),
        Some(_) => Err(wrong_type_message(key, "a boolean")),
    }
}

/// The strings of the first `n` nodes, if they are all strings.
pub open spec fn text_list(nodes: Seq<Node>, n: nat) -> Option<Seq<Seq<char>>>
    decreases n,
{
    if n == 0 {
        Some(Seq::empty())
    } else {
        match (text_list(nodes, (n - 1) as nat), nodes[n - 1]) {
            (Some(prefix), Node::Text(s)) => Some(prefix.push(s@)),
            _ => None,
        }
    }
}

pub open spec fn texts_at(found: Option<Node>, key: Seq<char>) -> Result<Seq<Seq<char>>, Seq<char>> {
    match found {
        None => Err(missing_field(key)),
        Some(Node::List(v)) => match text_list(v@, v@.len()) {
            Some(t) => Ok(t),
            None => Err(wrong_type(key, "a list of strings"@)),
        },
        Some(_) => Err(wrong_type(key, "a list of strings"@)),
    }
}

proof fn lemma_text_list_fails_onward(nodes: Seq<Node>, m: nat, n: nat)
    requires
        m <= n,
        text_list(nodes, m) is None,
    ensures
        text_list(nodes, n) is None,
    decreases n - m,
{
    if m < n {
        lemma_text_list_fails_onward(nodes, m, (n - 1) as nat);
    }
}

fn read_texts(found: Option<&Node>, key: &str) -> (r: Result<Vec<String>, String>)
    ensures
        match texts_at(deref_node(found), key@) {
            Ok(v) => r matches Ok(t) && texts(t@) == v,
            Err(m) => r matches Err(s) && s@ == m,
        },
{
    match found {
        None => Err(missing_field_message(key)),
        Some(Node::List(nodes)) => {
            let mut out: Vec<String> = Vec::new();
            assert(texts(out@) =~= Seq::<Seq<char>>::empty());
            let mut i: usize = 0;
            while i < nodes.len()
                invariant
                    i <= nodes@.len(),
                    deref_node(found) == Some(Node::List(*nodes)),
                    text_list(nodes@, i as nat) == Some(texts(out@)),
                decreases nodes.len() - i,
            {
                match &nodes[i] {
                    Node::Text(s) => {
                        let ghost before = out@;
                        out.push(s.clone());
                        assert(texts(out@) =~= texts(before).push(s@));
                    },
                    _ => {
                        proof {
                            assert(text_list(nodes@, (i + 1) as nat) is None);
                            lemma_text_list_fails_onward(nodes@, (i + 1) as nat, nodes@.len());
                        }
                        return Err(wrong_type_message(key, "a list of strings"));
                    },
                }
                i = i + 1;
            }
            Ok(out)
        },
        Some(_) => Err(wrong_type_message(key, "a list of strings")),
    }
}

/// The indices held by the first `n` nodes, if they are all integers that fit `usize`.
pub open spec fn index_list(nodes: Seq<Node>, n: nat) -> Option<Seq<usize>>
    decreases n,
{
    if n == 0 {
        Some(Seq::empty())
    } else {
        match (index_list(nodes, (n - 1) as nat), nodes[n - 1]) {
            (Some(prefix), Node::Whole(x)) => if x <= usize::MAX {
                Some(prefix.push(x as usize))
            } else {
                None
            },
            _ => None,
        }
    }
}

pub open spec fn indices_at(found: Option<Node>, key: Seq<char>) -> Result<Seq<usize>, Seq<char>> {
    match found {
        None => Err(missing_field(key)),
        Some(Node::List(v)) => match index_list(v@, v@.len()) {
            Some(t) => Ok(t),
            None => Err(wrong_type(key, "a list of indices"@)),
        },
        Some(_) => Err(wrong_type(key, "a list of indices"@)),
    }
}

proof fn lemma_index_list_fails_onward(nodes: Seq<Node>, m: nat, n: nat)
    requires
        m <= n,
        index_list(nodes, m) is None,
    ensures
        index_list(nodes, n) is None,
    decreases n - m,
{
    if m < n {
        lemma_index_list_fails_onward(nodes, m, (n - 1) as nat);
    }
}

fn read_indices(found: Option<&Node>, key: &str) -> (r: Result<Vec<usize>, String>)
    ensures
        match indices_at(deref_node(found), key@) {
            Ok(v) => r matches Ok(t) && t@ == v,
            Err(m) => r matches Err(s) && s@ == m,
        },
{
    match found {
        None => Err(missing_field_message(key)),
        Some(Node::List(nodes)) => {
            let mut out: Vec<usize> = Vec::new();
            assert(out@ =~= Seq::<usize>::empty());
            let mut i: usize = 0;
            while i < nodes.len()
                invariant
                    i <= nodes@.len(),
                    deref_node(found) == Some(Node::List(*nodes)),
                    index_list(nodes@, i as nat) == Some(out@),
                decreases nodes.len() - i,
            {
                let fits = match &nodes[i] {
                    Node::Whole(x) => *x as u128 <= usize::MAX as u128,
                    _ => false,
                };
                if !fits {
                    proof {
                        assert(index_list(nodes@, (i + 1) as nat) is None);
                        lemma_index_list_fails_onward(nodes@, (i + 1) as nat, nodes@.len());
                    }
                    return Err(wrong_type_message(key, "a list of indices"));
                }
                match &nodes[i] {
                    Node::Whole(x) => {
                        out.push(*x as usize);
                    },
                    _ => {},
                }
                i = i + 1;
            }
            Ok(out)
        },
        Some(_) => Err(wrong_type_message(key, "a list of indices")),
    }
}

// ---------------------------------------------------------------------------------------
// Items and choices
// ---------------------------------------------------------------------------------------

/// Whether a node can hold a record: a table, or a list of the record's values.
pub open spec fn is_record(node: Node) -> bool {
    node is Table || node is List
}

fn check_record(node: &Node) -> (r: bool)
    ensures
        r == is_record(*node),
{
    match node {
        Node::Table(_) => true,
        Node::List(_) => true,
        _ => false,
    }
}

pub open spec fn item_from(node: Node) -> Result<ItemView, Seq<char>> {
    if !is_record(node) {
        Err(wrong_type("items"@, "a table"@))
    } else if !has_length(node, 2) {
        Err(wrong_length("a classification item"@, "2"@))
    } else {
        match (
            text_at(field_of(node, 0, "text"@), "text"@),
            text_at(field_of(node, 1, "correct_category"@), "correct_category"@),
        ) {
            (Err(m), _) => Err(m),
            (Ok(_), Err(m)) => Err(m),
            (Ok(text), Ok(correct_category)) => Ok(ItemView { text, correct_category }),
        }
    }
}

pub open spec fn choice_from(node: Node) -> Result<ChoiceView, Seq<char>> {
    if !is_record(node) {
        Err(wrong_type("choices"@, "a table"@))
    } else if !has_length(node, 3) {
        Err(wrong_length("a scenario choice"@, "3"@))
    } else {
        match (
            text_at(field_of(node, 0, "label"@), "label"@),
            flag_at(field_of(node, 1, "is_correct"@), "is_correct"@),
            text_at(field_of(node, 2, "feedback"@), "feedback"@),
        ) {
            (Err(m), _, _) => Err(m),
            (Ok(_), Err(m), _) => Err(m),
            (Ok(_), Ok(_), Err(m)) => Err(m),
            (Ok(label), Ok(is_correct), Ok(feedback)) => Ok(
                ChoiceView { label, is_correct, feedback },
            ),
        }
    }
}

fn read_item(node: &Node) -> (r: Result<ClassificationItem, String>)
    ensures
        match item_from(*node) {
            Ok(v) => r matches Ok(i) && i@ == v,
            Err(m) => r matches Err(s) && s@ == m,
        },
{
    if !check_record(node) {
        return Err(wrong_type_message("items", "a table"));
    }
    if !check_length(node, 2) {
        return Err(wrong_length_message("a classification item", "2"));
    }
    let text = match read_text(field(node, 0, "text"), "text") {
        Ok(t) => t,
        Err(m) => {
            return Err(m);
        },
    };
    let correct_category = match read_text(field(node, 1, "correct_category"), "correct_category") {
        Ok(t) => t,
        Err(m) => {
            return Err(m);
        },
    };
    Ok(ClassificationItem { text, correct_category })
}

fn read_choice(node: &Node) -> (r: Result<ScenarioChoice, String>)
    ensures
        match choice_from(*node) {
            Ok(v) => r matches Ok(c) && c@ == v,
            Err(m) => r matches Err(s) && s@ == m,
        },
{
    if !check_record(node) {
        return Err(wrong_type_message("choices", "a table"));
    }
    if !check_length(node, 3) {
        return Err(wrong_length_message("a scenario choice", "3"));
    }
    let label = match read_text(field(node, 0, "label"), "label") {
        Ok(t) => t,
        Err(m) => {
            return Err(m);
        },
    };
    let is_correct = match read_flag(field(node, 1, "is_correct"), "is_correct") {
        Ok(b) => b,
        Err(m) => {
            return Err(m);
        },
    };
    let feedback = match read_text(field(node, 2, "feedback"), "feedback") {
        Ok(t) => t,
        Err(m) => {
            return Err(m);
        },
    };
    Ok(ScenarioChoice { label, is_correct, feedback })
}

/// The items read from the first `n` nodes, or the message of the first that fails.
pub open spec fn item_list(nodes: Seq<Node>, n: nat) -> Result<Seq<ItemView>, Seq<char>>
    decreases n,
{
    if n == 0 {
        Ok(Seq::empty())
    } else {
        match item_list(nodes, (n - 1) as nat) {
            Err(m) => Err(m),
            Ok(prefix) => match item_from(nodes[n - 1]) {
                Err(m) => Err(m),
                Ok(item) => Ok(prefix.push(item)),
            },
        }
    }
}

/// The choices read from the first `n` nodes, or the message of the first that fails.
pub open spec fn choice_list(nodes: Seq<Node>, n: nat) -> Result<Seq<ChoiceView>, Seq<char>>
    decreases n,
{
    if n == 0 {
        Ok(Seq::empty())
    } else {
        match choice_list(nodes, (n - 1) as nat) {
            Err(m) => Err(m),
            Ok(prefix) => match choice_from(nodes[n - 1]) {
                Err(m) => Err(m),
                Ok(choice) => Ok(prefix.push(choice)),
            },
        }
    }
}

pub open spec fn items_at(found: Option<Node>, key: Seq<char>) -> Result<Seq<ItemView>, Seq<char>> {
    match found {
        None => Err(missing_field(key)),
        Some(Node::List(v)) => item_list(v@, v@.len()),
        Some(_) => Err(wrong_type(key, "a list of tables"@)),
    }
}

pub open spec fn choices_at(found: Option<Node>, key: Seq<char>) -> Result<Seq<ChoiceView>, Seq<char>> {
    match found {
        None => Err(missing_field(key)),
        Some(Node::List(v)) => choice_list(v@, v@.len()),
        Some(_) => Err(wrong_type(key, "a list of tables"@)),
    }
}

proof fn lemma_item_list_fails_onward(nodes: Seq<Node>, m: nat, n: nat)
    requires
        m <= n,
        item_list(nodes, m) is Err,
    ensures
        item_list(nodes, n) == item_list(nodes, m),
    decreases n - m,
{
    if m < n {
        lemma_item_list_fails_onward(nodes, m, (n - 1) as nat);
    }
}

proof fn lemma_choice_list_fails_onward(nodes: Seq<Node>, m: nat, n: nat)
    requires
        m <= n,
        choice_list(nodes, m) is Err,
    ensures
        choice_list(nodes, n) == choice_list(nodes, m),
    decreases n - m,
{
    if m < n {
        lemma_choice_list_fails_onward(nodes, m, (n - 1) as nat);
    }
}

fn read_items(found: Option<&Node>, key: &str) -> (r: Result<Vec<ClassificationItem>, String>)
    ensures
        match items_at(deref_node(found), key@) {
            Ok(v) => r matches Ok(t) && t@.map_values(|i: ClassificationItem| i@) == v,
            Err(m) => r matches Err(s) && s@ == m,
        },
{
    match found {
        None => Err(missing_field_message(key)),
        Some(Node::List(nodes)) => {
            let mut out: Vec<ClassificationItem> = Vec::new();
            assert(out@.map_values(|i: ClassificationItem| i@) =~= Seq::<ItemView>::empty());
            let mut i: usize = 0;
            while i < nodes.len()
                invariant
                    i <= nodes@.len(),
                    deref_node(found) == Some(Node::List(*nodes)),
                    item_list(nodes@, i as nat) == Ok::<Seq<ItemView>, Seq<char>>(
                        out@.map_values(|i: ClassificationItem| i@),
                    ),
                decreases nodes.len() - i,
            {
                match read_item(&nodes[i]) {
                    Ok(item) => {
                        let ghost before = out@;
                        out.push(item);
                        assert(out@.map_values(|i: ClassificationItem| i@) =~= before.map_values(
                            |i: ClassificationItem| i@,
                        ).push(item@));
                    },
                    Err(m) => {
                        proof {
                            assert(item_list(nodes@, (i + 1) as nat) is Err);
                            lemma_item_list_fails_onward(nodes@, (i + 1) as nat, nodes@.len());
                        }
                        return Err(m);
                    },
                }
                i = i + 1;
            }
            Ok(out)
        },
        Some(_) => Err(wrong_type_message(key, "a list of tables")),
    }
}

fn read_choices(found: Option<&Node>, key: &str) -> (r: Result<Vec<ScenarioChoice>, String>)
    ensures
        match choices_at(deref_node(found), key@) {
            Ok(v) => r matches Ok(t) && t@.map_values(|c: ScenarioChoice| c@) == v,
            Err(m) => r matches Err(s) && s@ == m,
        },
{
    match found {
        None => Err(missing_field_message(key)),
        Some(Node::List(nodes)) => {
            let mut out: Vec<ScenarioChoice> = Vec::new();
            assert(out@.map_values(|c: ScenarioChoice| c@) =~= Seq::<ChoiceView>::empty());
            let mut i: usize = 0;
            while i < nodes.len()
                invariant
                    i <= nodes@.len(),
                    deref_node(found) == Some(Node::List(*nodes)),
                    choice_list(nodes@, i as nat) == Ok::<Seq<ChoiceView>, Seq<char>>(
                        out@.map_values(|c: ScenarioChoice| c@),
                    ),
                decreases nodes.len() - i,
            {
                match read_choice(&nodes[i]) {
                    Ok(choice) => {
                        let ghost before = out@;
                        out.push(choice);
                        assert(out@.map_values(|c: ScenarioChoice| c@) =~= before.map_values(
                            |c: ScenarioChoice| c@,
                        ).push(choice@));
                    },
                    Err(m) => {
                        proof {
                            assert(choice_list(nodes@, (i + 1) as nat) is Err);
                            lemma_choice_list_fails_onward(nodes@, (i + 1) as nat, nodes@.len());
                        }
                        return Err(m);
                    },
                }
                i = i + 1;
            }
            Ok(out)
        },
        Some(_) => Err(wrong_type_message(key, "a list of tables")),
    }
}

// ---------------------------------------------------------------------------------------
// Exercises
// ---------------------------------------------------------------------------------------

// An exercise written as a list holds its kind first, then its fields in declaration order.

pub open spec fn classification_from(form: Node) -> Result<ExerciseView, Seq<char>> {
    match (
        text_at(field_of(form, 1, "id"@), "id"@),
        text_at(field_of(form, 2, "title"@), "title"@),
        text_at(field_of(form, 3, "prompt"@), "prompt"@),
        texts_at(field_of(form, 4, "categories"@), "categories"@),
        items_at(field_of(form, 5, "items"@), "items"@),
    ) {
        (Err(m), _, _, _, _) => Err(m),
        (Ok(_), Err(m), _, _, _) => Err(m),
        (Ok(_), Ok(_), Err(m), _, _) => Err(m),
        (Ok(_), Ok(_), Ok(_), Err(m), _) => Err(m),
        (Ok(_), Ok(_), Ok(_), Ok(_), Err(m)) => Err(m),
        (Ok(id), Ok(title), Ok(prompt), Ok(categories), Ok(items)) => Ok(
            ExerciseView::Classification { id, title, prompt, categories, items },
        ),
    }
}

pub open spec fn multiple_choice_from(form: Node) -> Result<ExerciseView, Seq<char>> {
    match (
        text_at(field_of(form, 1, "id"@), "id"@),
        text_at(field_of(form, 2, "title"@), "title"@),
        text_at(field_of(form, 3, "prompt"@), "prompt"@),
        texts_at(field_of(form, 4, "options"@), "options"@),
        indices_at(field_of(form, 5, "correct_indices"@), "correct_indices"@),
        flag_at(field_of(form, 6, "multi_select"@), "multi_select"@),
    ) {
        (Err(m), _, _, _, _, _) => Err(m),
        (Ok(_), Err(m), _, _, _, _) => Err(m),
        (Ok(_), Ok(_), Err(m), _, _, _) => Err(m),
        (Ok(_), Ok(_), Ok(_), Err(m), _, _) => Err(m),
        (Ok(_), Ok(_), Ok(_), Ok(_), Err(m), _) => Err(m),
        (Ok(_), Ok(_), Ok(_), Ok(_), Ok(_), Err(m)) => Err(m),
        (Ok(id), Ok(title), Ok(prompt), Ok(options), Ok(correct_indices), Ok(multi_select)) => Ok(
            ExerciseView::MultipleChoice { id, title, prompt, options, correct_indices, multi_select },
        ),
    }
}

pub open spec fn scenario_from(form: Node) -> Result<ExerciseView, Seq<char>> {
    match (
        text_at(field_of(form, 1, "id"@), "id"@),
        text_at(field_of(form, 2, "title"@), "title"@),
        text_at(field_of(form, 3, "description"@), "description"@),
        text_at(field_of(form, 4, "prompt"@), "prompt"@),
        choices_at(field_of(form, 5, "choices"@), "choices"@),
    ) {
        (Err(m), _, _, _, _) => Err(m),
        (Ok(_), Err(m), _, _, _) => Err(m),
        (Ok(_), Ok(_), Err(m), _, _) => Err(m),
        (Ok(_), Ok(_), Ok(_), Err(m), _) => Err(m),
        (Ok(_), Ok(_), Ok(_), Ok(_), Err(m)) => Err(m),
        (Ok(id), Ok(title), Ok(description), Ok(prompt), Ok(choices)) => Ok(
            ExerciseView::Scenario { id, title, description, prompt, choices },
        ),
    }
}

/// The exercise a node describes: a table whose `kind` names the variant, or a list that
/// holds the kind and then the variant's fields in order.
pub open spec fn exercise_from(node: Node) -> Result<ExerciseView, Seq<char>> {
    if !is_record(node) {
        Err(wrong_type("exercise"@, "a table"@))
    } else {
        match text_at(field_of(node, 0, "kind"@), "kind"@) {
            Err(m) => Err(m),
            Ok(kind) => if kind == "classification"@ {
                if has_length(node, 6) {
                    classification_from(node)
                } else {
                    Err(wrong_length("a classification exercise"@, "6"@))
                }
            } else if kind == "multiple_choice"@ {
                if has_length(node, 7) {
                    multiple_choice_from(node)
                } else {
                    Err(wrong_length("a multiple-choice exercise"@, "7"@))
                }
            } else if kind == "scenario"@ {
                if has_length(node, 6) {
                    scenario_from(node)
                } else {
                    Err(wrong_length("a scenario exercise"@, "6"@))
                }
            } else {
                Err(unknown_kind(kind))
            },
        }
    }
}

fn read_classification(form: &Node) -> (r: Result<Exercise, String>)
    ensures
        match classification_from(*form) {
            Ok(v) => r matches Ok(x) && x@ == v,
            Err(m) => r matches Err(s) && s@ == m,
        },
{
    let id = match read_text(field(form, 1, "id"), "id") {
        Ok(t) => t,
        Err(m) => {
            return Err(m);
        },
    };
    let title = match read_text(field(form, 2, "title"), "title") {
        Ok(t) => t,
        Err(m) => {
            return Err(m);
        },
    };
    let prompt = match read_text(field(form, 3, "prompt"), "prompt") {
        Ok(t) => t,
        Err(m) => {
            return Err(m);
        },
    };
    let categories = match read_texts(field(form, 4, "categories"), "categories") {
        Ok(t) => t,
        Err(m) => {
            return Err(m);
        },
    };
    let items = match read_items(field(form, 5, "items"), "items") {
        Ok(t) => t,
        Err(m) => {
            return Err(m);
        },
    };
    Ok(Exercise::Classification { id, title, prompt, categories, items })
}

fn read_multiple_choice(form: &Node) -> (r: Result<Exercise, String>)
    ensures
        match multiple_choice_from(*form) {
            Ok(v) => r matches Ok(x) && x@ == v,
            Err(m) => r matches Err(s) && s@ == m,
        },
{
    let id = match read_text(field(form, 1, "id"), "id") {
        Ok(t) => t,
        Err(m) => {
            return Err(m);
        },
    };
    let title = match read_text(field(form, 2, "title"), "title") {
        Ok(t) => t,
        Err(m) => {
            return Err(m);
        },
    };
    let prompt = match read_text(field(form, 3, "prompt"), "prompt") {
        Ok(t) => t,
        Err(m) => {
            return Err(m);
        },
    };
    let options = match read_texts(field(form, 4, "options"), "options") {
        Ok(t) => t,
        Err(m) => {
            return Err(m);
        },
    };
    let correct_indices = match read_indices(field(form, 5, "correct_indices"), "correct_indices") {
        Ok(t) => t,
        Err(m) => {
            return Err(m);
        },
    };
    let multi_select = match read_flag(field(form, 6, "multi_select"), "multi_select") {
        Ok(b) => b,
        Err(m) => {
            return Err(m);
        },
    };
    Ok(Exercise::MultipleChoice { id, title, prompt, options, correct_indices, multi_select })
}

fn read_scenario(form: &Node) -> (r: Result<Exercise, String>)
    ensures
        match scenario_from(*form) {
            Ok(v) => r matches Ok(x) && x@ == v,
            Err(m) => r matches Err(s) && s@ == m,
        },
{
    let id = match read_text(field(form, 1, "id"), "id") {
        Ok(t) => t,
        Err(m) => {
            return Err(m);
        },
    };
    let title = match read_text(field(form, 2, "title"), "title") {
        Ok(t) => t,
        Err(m) => {
            return Err(m);
        },
    };
    let description = match read_text(field(form, 3, "description"), "description") {
        Ok(t) => t,
        Err(m) => {
            return Err(m);
        },
    };
    let prompt = match read_text(field(form, 4, "prompt"), "prompt") {
        Ok(t) => t,
        Err(m) => {
            return Err(m);
        },
    };
    let choices = match read_choices(field(form, 5, "choices"), "choices") {
        Ok(t) => t,
        Err(m) => {
            return Err(m);
        },
    };
    Ok(Exercise::Scenario { id, title, description, prompt, choices })
}

/// Read the exercise that `node` describes.
pub fn read_exercise(node: &Node) -> (r: Result<Exercise, String>)
    ensures
        match exercise_from(*node) {
            Ok(v) => r matches Ok(x) && x@ == v,
            Err(m) => r matches Err(s) && s@ == m,
        },
{
    if !check_record(node) {
        return Err(wrong_type_message("exercise", "a table"));
    }
    let kind = match read_text(field(node, 0, "kind"), "kind") {
        Ok(t) => t,
        Err(m) => {
            return Err(m);
        },
    };
    if same_text(kind.as_str(), "classification") {
        if check_length(node, 6) {
            read_classification(node)
        } else {
            Err(wrong_length_message("a classification exercise", "6"))
        }
    } else if same_text(kind.as_str(), "multiple_choice") {
        if check_length(node, 7) {
            read_multiple_choice(node)
        } else {
            Err(wrong_length_message("a multiple-choice exercise", "7"))
        }
    } else if same_text(kind.as_str(), "scenario") {
        if check_length(node, 6) {
            read_scenario(node)
        } else {
            Err(wrong_length_message("a scenario exercise", "6"))
        }
    } else {
        let mut m = String::from_str("unknown variant `");
        m.append(kind.as_str());
        m.append("`, expected one of `classification`, `multiple_choice`, `scenario`");
        Err(m)
    }
}

/// The exercises read from the first `n` nodes, or the message of the first that fails.
pub open spec fn exercise_list(nodes: Seq<Node>, n: nat) -> Result<Seq<ExerciseView>, Seq<char>>
    decreases n,
{
    if n == 0 {
        Ok(Seq::empty())
    } else {
        match exercise_list(nodes, (n - 1) as nat) {
            Err(m) => Err(m),
            Ok(prefix) => match exercise_from(nodes[n - 1]) {
                Err(m) => Err(m),
                Ok(x) => Ok(prefix.push(x)),
            },
        }
    }
}

proof fn lemma_exercise_list_fails_onward(nodes: Seq<Node>, m: nat, n: nat)
    requires
        m <= n,
        exercise_list(nodes, m) is Err,
    ensures
        exercise_list(nodes, n) == exercise_list(nodes, m),
    decreases n - m,
{
    if m < n {
        lemma_exercise_list_fails_onward(nodes, m, (n - 1) as nat);
    }
}

/// Read every exercise of a list of nodes.
pub fn read_exercise_list(nodes: &Vec<Node>) -> (r: Result<Vec<Exercise>, String>)
    ensures
        match exercise_list(nodes@, nodes@.len()) {
            Ok(v) => r matches Ok(x) && exercises_view(x@) == v,
            Err(m) => r matches Err(s) && s@ == m,
        },
{
    let mut out: Vec<Exercise> = Vec::new();
    assert(exercises_view(out@) =~= Seq::<ExerciseView>::empty());
    let mut i: usize = 0;
    while i < nodes.len()
        invariant
            i <= nodes@.len(),
            exercise_list(nodes@, i as nat) == Ok::<Seq<ExerciseView>, Seq<char>>(
                exercises_view(out@),
            ),
        decreases nodes.len() - i,
    {
        match read_exercise(&nodes[i]) {
            Ok(x) => {
                let ghost before = out@;
                out.push(x);
                assert(exercises_view(out@) =~= exercises_view(before).push(x@));
            },
            Err(m) => {
                proof {
                    assert(exercise_list(nodes@, (i + 1) as nat) is Err);
                    lemma_exercise_list_fails_onward(nodes@, (i + 1) as nat, nodes@.len());
                }
                return Err(m);
            },
        }
        i = i + 1;
    }
    Ok(out)
}

/// The exercises listed under `key` in a document whose root is a table.
pub open spec fn exercises_under(doc: Node, key: Seq<char>) -> Result<Seq<ExerciseView>, Seq<char>> {
    match doc {
        Node::Table(entries) => match lookup(entries@, key) {
            None => Err(missing_field(key)),
            Some(Node::List(v)) => exercise_list(v@, v@.len()),
            Some(_) => Err(wrong_type(key, "a list of exercises"@)),
        },
        _ => Err("invalid type, expected a table"@),
    }
}

/// The exercises of a document whose root is a list of exercises.
pub open spec fn exercise_sequence(doc: Node) -> Result<Seq<ExerciseView>, Seq<char>> {
    match doc {
        Node::List(v) => exercise_list(v@, v@.len()),
        _ => Err("invalid type, expected a list of exercises"@),
    }
}

/// Read the exercises listed under `key` in a document whose root is a table.
pub fn read_exercises_under(doc: &Node, key: &str) -> (r: Result<Vec<Exercise>, String>)
    ensures
        match exercises_under(*doc, key@) {
            Ok(v) => r matches Ok(x) && exercises_view(x@) == v,
            Err(m) => r matches Err(s) && s@ == m,
        },
{
    match doc {
        Node::Table(entries) => match find_entry(entries, key) {
            None => Err(missing_field_message(key)),
            Some(Node::List(nodes)) => read_exercise_list(nodes),
            Some(_) => Err(wrong_type_message(key, "a list of exercises")),
        },
        _ => Err(String::from_str("invalid type, expected a table")),
    }
}

/// Read the exercises of a document whose root is a list of exercises.
pub fn read_exercise_sequence(doc: &Node) -> (r: Result<Vec<Exercise>, String>)
    ensures
        match exercise_sequence(*doc) {
            Ok(v) => r matches Ok(x) && exercises_view(x@) == v,
            Err(m) => r matches Err(s) && s@ == m,
        },
{
    match doc {
        Node::List(nodes) => read_exercise_list(nodes),
        _ => Err(String::from_str("invalid type, expected a list of exercises")),
    }
}

} // verus!
