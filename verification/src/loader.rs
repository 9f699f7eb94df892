use vstd::prelude::*;
use vstd::string::*;
use crate::document::{
    exercise_sequence, exercises_under, read_exercise_sequence, read_exercises_under, Node,
};
use crate::error::PraxeumError;
use crate::model::exercise::{Exercise, ExerciseView};
use crate::text::{first_visible_char, leading_char};
use crate::validator::{
    all_issues, exercises_view, issues_view, optional_str, optional_text,
    validate_exercises_with_source, ValidationIssue,
};

verus! {

/// Supported data formats for exercise collections.
#[derive(Debug, Clone, Copy, PartialEq, Eq)]
pub enum DataFormat {
    Json,
    Toml,
    /// Infer from the file extension, or for text in memory from whether it is JSON.
    Auto,
}

/// The bundled starter exercise set (TOML): one exercise of each kind.
pub const BUNDLED_EXAMPLES: &'static str = "[[exercise]]
kind = \"classification\"
id = \"intro_action_event\"
title = \"Action vs Event\"
prompt = \"Classify each statement\"
categories = [\"action\", \"event\"]

[[exercise.items]]
text = \"Alice flips a coin\"
correct_category = \"action\"

[[exercise.items]]
text = \"A storm floods the valley\"
correct_category = \"event\"

[[exercise]]
kind = \"multiple_choice\"
id = \"opp_cost\"
title = \"Opportunity Cost\"
prompt = \"What is the cost of choosing to call a friend?\"
options = [\"Next-best forgone option\", \"All unchosen options\"]
correct_indices = [0]
multi_select = false

[[exercise]]
kind = \"scenario\"
id = \"exchange_direct_indirect\"
title = \"Find the trade line\"
description = \"Three castaways with different holdings\"
prompt = \"Which move gets A coconuts fastest?\"

[[exercise.choices]]
label = \"A trades fish directly to B for coconuts\"
is_correct = true
feedback = \"Direct exchange works here\"

[[exercise.choices]]
label = \"A waits for C to bring coconuts\"
is_correct = false
feedback = \"Waiting forgoes the trade that is available now\"
";

/// Helper for loading and checking exercise collections.
pub struct ExerciseLoader;

/// What a preflight run found: the resolved format, how many exercises were read, and the
/// validation issues.
#[derive(Debug, Clone)]
pub struct PreflightReport {
    pub source: Option<String>,
    pub format: DataFormat,
    pub exercise_count: usize,
    pub issues: Vec<ValidationIssue>,
}

impl PreflightReport {
    /// Whether validation found no issue.
    pub fn is_success(&self) -> (r: bool)
        ensures
            r == (self.issues@.len() == 0),
    {
        self.issues.len() == 0
    }
}

// ---------------------------------------------------------------------------------------
// Parsing, through serde_json and toml
// ---------------------------------------------------------------------------------------

/// Declares `serde_json::Value` to Verus; its contents stay opaque.
#[verifier::external_type_specification]
#[verifier::external_body]
pub struct ExJsonValue(serde_json::Value);

/// The document that `serde_json::from_str` reads from a text, if the text is JSON.
pub uninterp spec fn json_document(text: Seq<char>) -> Option<Node>;

/// The document that `toml::from_str` reads from a text, if the text is TOML.
pub uninterp spec fn toml_document(text: Seq<char>) -> Option<Node>;

/// Rewrites a `serde_json::Value` as a `Node`, variant for variant: strings, booleans,
/// arrays and objects (entry by entry, in the map's order) keep their contents, a number
/// that `Number::as_u64` reads becomes `Whole`, and `null` and other numbers become `Other`.
/// Nothing is stated of the result: the value it reads is opaque to Verus.
#[verifier::external_body]
fn node_from_value(value: serde_json::Value) -> Node {
    match value {
        serde_json::Value::String(s) => Node::Text(s),
        serde_json::Value::Number(n) => n.as_u64().map_or(Node::Other, Node::Whole),
        serde_json::Value::Bool(b) => Node::Flag(b),
        serde_json::Value::Array(items) => Node::List(items.into_iter().map(node_from_value).collect()),
        serde_json::Value::Object(map) => Node::Table(
            map.into_iter().map(|(k, v)| (k, node_from_value(v))).collect(),
        ),
        serde_json::Value::Null => Node::Other,
    }
}

/// Calls `serde_json::from_str` into a `serde_json::Value`. Claimed: the result depends on
/// the text alone (named `json_document`), and it fails exactly when that name gives `None`.
#[verifier::external_body]
fn parse_json(text: &str) -> (r: Result<Node, serde_json::Error>)
    ensures
        r matches Ok(doc) ==> json_document(text@) == Some(doc),
        r is Err ==> json_document(text@) is None,
{
    serde_json::from_str::<serde_json::Value>(text).map(node_from_value)
}

/// Calls `toml::from_str` into a `serde_json::Value`. Claimed: the result depends on the
/// text alone (named `toml_document`), and it fails exactly when that name gives `None`.
#[verifier::external_body]
fn parse_toml(text: &str) -> (r: Result<Node, toml::de::Error>)
    ensures
        r matches Ok(doc) ==> toml_document(text@) == Some(doc),
        r is Err ==> toml_document(text@) is None,
{
    toml::from_str::<serde_json::Value>(text).map(node_from_value)
}

/// Calls `serde::de::Error::custom` of `serde_json::Error` with the message. Nothing is
/// stated of the error value, which is opaque.
#[verifier::external_body]
fn json_error(message: &str) -> serde_json::Error {
    <serde_json::Error as serde::de::Error>::custom(message)
}

/// Calls `serde::de::Error::custom` of `toml::de::Error` with the message. Nothing is stated
/// of the error value, which is opaque.
#[verifier::external_body]
fn toml_error(message: &str) -> toml::de::Error {
    <toml::de::Error as serde::de::Error>::custom(message)
}

// ---------------------------------------------------------------------------------------
// What loading gives
// ---------------------------------------------------------------------------------------

/// The format a text in memory is read as: the given one, or for `Auto` JSON when the text
/// parses as JSON, TOML otherwise.
pub open spec fn content_format(contents: Seq<char>, format: DataFormat) -> DataFormat {
    match format {
        DataFormat::Auto => if json_document(contents) is Some {
            DataFormat::Json
        } else {
            DataFormat::Toml
        },
        other => other,
    }
}

/// The exercises a text holds in `format`: `None` when the text does not parse, else the
/// exercises or the message of the schema error.
///
/// JSON holds either a bare array of exercises (when its first visible character is `[`) or
/// an object with an `exercises` array; TOML holds an `exercise` array of tables.
pub open spec fn exercises_in(contents: Seq<char>, format: DataFormat) -> Option<Result<Seq<ExerciseView>, Seq<char>>> {
    match format {
        DataFormat::Json => match json_document(contents) {
            None => None,
            Some(doc) => Some(
                if leading_char(contents) == Some('[') {
                    exercise_sequence(doc)
                } else {
                    exercises_under(doc, "exercises"@)
                },
            ),
        },
        DataFormat::Toml => match toml_document(contents) {
            None => None,
            Some(doc) => Some(exercises_under(doc, "exercise"@)),
        },
        DataFormat::Auto => None,
    }
}

/// Whether `r` is an error of the parser for `format`.
pub open spec fn is_format_error<T>(format: DataFormat, r: Result<T, PraxeumError>) -> bool {
    match format {
        DataFormat::Json => r matches Err(PraxeumError::Json(_)),
        DataFormat::Toml => r matches Err(PraxeumError::Toml(_)),
        DataFormat::Auto => false,
    }
}

/// Whether `r` is what loading `contents` in the resolved `format` gives.
pub open spec fn loads_as(contents: Seq<char>, format: DataFormat, r: Result<Vec<Exercise>, PraxeumError>) -> bool {
    match exercises_in(contents, format) {
        Some(Ok(v)) => r matches Ok(x) && exercises_view(x@) == v,
        _ => is_format_error(format, r),
    }
}

/// Whether `s` spells the lowercase word `word` when ASCII case is ignored.
pub open spec fn spells_ignoring_case(s: Seq<char>, word: Seq<char>) -> bool {
    &&& s.len() == word.len()
    &&& forall|i: int|
        0 <= i < s.len() ==> (#[trigger] s[i] == word[i] || ('A' <= s[i] && s[i] <= 'Z' && (s[i] as u32)
            + 32 == word[i] as u32))
}

/// The format a file extension names, ignoring case: `json`, or `toml` and `tml`.
///
/// `to_lowercase` maps no character other than the ASCII capitals onto the letters of these
/// names, so ignoring ASCII case is the same as comparing lowercased text.
pub open spec fn extension_format(extension: Option<Seq<char>>) -> Option<DataFormat> {
    match extension {
        Some(e) => if spells_ignoring_case(e, "json"@) {
            Some(DataFormat::Json)
        } else if spells_ignoring_case(e, "toml"@) || spells_ignoring_case(e, "tml"@) {
            Some(DataFormat::Toml)
        } else {
            None
        },
        None => None,
    }
}

// ---------------------------------------------------------------------------------------
// Formats
// ---------------------------------------------------------------------------------------

/// The index of the last `c` in `s`, or -1 when there is none.
pub open spec fn last_index(s: Seq<char>, c: char) -> int
    decreases s.len(),
{
    if s.len() == 0 {
        -1
    } else if s.last() == c {
        s.len() - 1
    } else {
        last_index(s.drop_last(), c)
    }
}

/// The final component of a path written with `/`: the text after its last `/`.
pub open spec fn final_component(path: Seq<char>) -> Seq<char> {
    path.subrange(last_index(path, '/') + 1, path.len() as int)
}

/// Whether a path splits into components the same way on every platform and ends in a file
/// name: it holds no `\` and no `:` (no other separator and no drive prefix), does not begin
/// with `//` (a network prefix on some platforms), and its final component is neither empty
/// nor `.` nor `..`.
pub open spec fn is_plain_path(path: Seq<char>) -> bool {
    &&& !path.contains('\\')
    &&& !path.contains(':')
    &&& !(path.len() >= 2 && path[0] == '/' && path[1] == '/')
    &&& final_component(path) != Seq::<char>::empty()
    &&& final_component(path) != "."@
    &&& final_component(path) != ".."@
}

/// The extension of a file name: what follows its final `.`, unless that `.` is the first
/// character (a hidden file such as `.toml` has none).
pub open spec fn name_extension(name: Seq<char>) -> Option<Seq<char>> {
    let k = last_index(name, '.');
    if k > 0 {
        Some(name.subrange(k + 1, name.len() as int))
    } else {
        None
    }
}

/// The extension of the file a plain path names.
pub open spec fn path_extension(path: Seq<char>) -> Option<Seq<char>> {
    name_extension(final_component(path))
}

/// Calls `std::path::Path::extension` on the path and returns the extension as text.
/// Claimed, as its documentation gives it: an extension holds no `.` (it is what follows the
/// final `.` of the file name), and for a plain path, whose file name is its final component,
/// it is `name_extension` of that name. For other paths (with `\`, `:` or a leading `//`, or
/// ending in `/`, `.` or `..`) which extension comes back is left unstated: how they split
/// into components depends on the platform.
#[verifier::external_body]
fn file_extension(path: &str) -> (r: Option<String>)
    ensures
        r matches Some(e) ==> !e@.contains('.'),
        is_plain_path(path@) ==> match r {
            Some(e) => path_extension(path@) == Some(e@),
            None => path_extension(path@) is None,
        },
{
    std::path::Path::new(path).extension().and_then(|e| e.to_str()).map(|e| e.to_owned())
}

fn spells(s: &str, word: &str) -> (r: bool)
    ensures
        r == spells_ignoring_case(s@, word@),
{
    let a = crate::text::chars_of(s);
    let b = crate::text::chars_of(word);
    if a.len() != b.len() {
        return false;
    }
    let mut i: usize = 0;
    while i < a.len()
        invariant
            i <= a@.len(),
            a@ == s@,
            b@ == word@,
            a@.len() == b@.len(),
            forall|j: int|
                0 <= j < i ==> (#[trigger] a@[j] == b@[j] || ('A' <= a@[j] && a@[j] <= 'Z' && (
                a@[j] as u32) + 32 == b@[j] as u32)),
        decreases a.len() - i,
    {
        let c = a[i];
        let w = b[i];
        let matches_letter = c == w || ('A' <= c && c <= 'Z' && (c as u32) + 32 == w as u32);
        if !matches_letter {
            return false;
        }
        i = i + 1;
    }
    true
}

/// The format a file extension names, ignoring case; `UnsupportedFormat` for any other.
pub fn format_for_extension(extension: Option<&str>) -> (r: Result<DataFormat, PraxeumError>)
    ensures
        match extension_format(optional_str(extension)) {
            Some(f) => r == Ok::<DataFormat, PraxeumError>(f),
            None => r matches Err(PraxeumError::UnsupportedFormat),
        },
{
    match extension {
        None => Err(PraxeumError::UnsupportedFormat),
        Some(e) => {
            if spells(e, "json") {
                Ok(DataFormat::Json)
            } else if spells(e, "toml") || spells(e, "tml") {
                Ok(DataFormat::Toml)
            } else {
                Err(PraxeumError::UnsupportedFormat)
            }
        },
    }
}

/// The format the extension of the file a plain path names, if any.
pub open spec fn path_format(path: Seq<char>) -> Option<DataFormat> {
    extension_format(path_extension(path))
}

/// The format named by the extension of the file at `path` (what `format_for_extension`
/// gives for it): JSON or TOML, or `UnsupportedFormat`.
pub fn infer_format(path: &str) -> (r: Result<DataFormat, PraxeumError>)
    ensures
        r matches Ok(f) ==> f == DataFormat::Json || f == DataFormat::Toml,
        r is Err ==> r matches Err(PraxeumError::UnsupportedFormat),
        is_plain_path(path@) ==> match path_format(path@) {
            Some(f) => r == Ok::<DataFormat, PraxeumError>(f),
            None => r matches Err(PraxeumError::UnsupportedFormat),
        },
{
    let extension = file_extension(path);
    match &extension {
        Some(e) => format_for_extension(Some(e.as_str())),
        None => format_for_extension(None),
    }
}

/// The format a text in memory is read as.
pub fn resolve_content_format(contents: &str, format: DataFormat) -> (r: DataFormat)
    ensures
        r == content_format(contents@, format),
{
    match format {
        DataFormat::Auto => match parse_json(contents) {
            Ok(_) => DataFormat::Json,
            Err(_) => DataFormat::Toml,
        },
        other => other,
    }
}

/// The format a file is read as: the given one, or for `Auto` the one its extension names;
/// `UnsupportedFormat` when `Auto` finds no known extension.
pub fn resolve_file_format(path: &str, format: DataFormat) -> (r: Result<DataFormat, PraxeumError>)
    ensures
        format != DataFormat::Auto ==> r == Ok::<DataFormat, PraxeumError>(format),
        format == DataFormat::Auto ==> (r matches Ok(f) ==> f == DataFormat::Json || f
            == DataFormat::Toml),
        r is Err ==> r matches Err(PraxeumError::UnsupportedFormat),
        format == DataFormat::Auto && is_plain_path(path@) ==> match path_format(path@) {
            Some(f) => r == Ok::<DataFormat, PraxeumError>(f),
            None => r matches Err(PraxeumError::UnsupportedFormat),
        },
{
    match format {
        DataFormat::Auto => infer_format(path),
        other => Ok(other),
    }
}

// ---------------------------------------------------------------------------------------
// Loading
// ---------------------------------------------------------------------------------------

/// Read the exercises of a text in a resolved format (JSON or TOML).
fn load_in_format(contents: &str, format: DataFormat) -> (r: Result<Vec<Exercise>, PraxeumError>)
    requires
        format != DataFormat::Auto,
    ensures
        loads_as(contents@, format, r),
{
    match format {
        DataFormat::Toml => match parse_toml(contents) {
            Err(e) => Err(PraxeumError::Toml(e)),
            Ok(doc) => match read_exercises_under(&doc, "exercise") {
                Ok(x) => Ok(x),
                Err(m) => Err(PraxeumError::Toml(toml_error(m.as_str()))),
            },
        },
        _ => match parse_json(contents) {
            Err(e) => Err(PraxeumError::Json(e)),
            Ok(doc) => {
                let bare = first_visible_char(contents) == Some('[');
                let read = if bare {
                    read_exercise_sequence(&doc)
                } else {
                    read_exercises_under(&doc, "exercises")
                };
                match read {
                    Ok(x) => Ok(x),
                    Err(m) => Err(PraxeumError::Json(json_error(m.as_str()))),
                }
            },
        },
    }
}

/// The preflight report for exercises read from `source` in `format`.
fn preflight_of(exercises: &Vec<Exercise>, format: DataFormat, source: Option<&str>) -> (r: PreflightReport)
    ensures
        optional_text(r.source) == optional_str(source),
        r.format == format,
        r.exercise_count == exercises@.len(),
        issues_view(r.issues@) == all_issues(exercises_view(exercises@), exercises@.len()),
{
    let issues = match validate_exercises_with_source(exercises.as_slice(), source) {
        Ok(()) => {
            let v: Vec<ValidationIssue> = Vec::new();
            assert(issues_view(v@) =~= Seq::empty());
            v
        },
        Err(report) => report.issues,
    };
    let owned = match source {
        Some(s) => Some(s.to_owned()),
        None => None,
    };
    PreflightReport { source: owned, format, exercise_count: exercises.len(), issues }
}

/// Whether `r` is what checking the exercises of `contents` (resolved `format`) gives:
/// the exercises when they load and validate, the loading error, or the validation report.
pub open spec fn validates_as(contents: Seq<char>, format: DataFormat, source: Option<Seq<char>>, r: Result<Vec<Exercise>, PraxeumError>) -> bool {
    match exercises_in(contents, format) {
        Some(Ok(v)) => if all_issues(v, v.len()).len() == 0 {
            r matches Ok(x) && exercises_view(x@) == v
        } else {
            r matches Err(PraxeumError::Validation(report)) && optional_text(report.source)
                == source && issues_view(report.issues@) == all_issues(v, v.len())
        },
        _ => is_format_error(format, r),
    }
}

/// Whether `r` is the preflight report of `contents` (resolved `format`), or its loading error.
pub open spec fn preflights_as(contents: Seq<char>, format: DataFormat, source: Option<Seq<char>>, r: Result<PreflightReport, PraxeumError>) -> bool {
    match exercises_in(contents, format) {
        Some(Ok(v)) => r matches Ok(report) && {
            &&& optional_text(report.source) == source
            &&& report.format == format
            &&& report.exercise_count == v.len()
            &&& issues_view(report.issues@) == all_issues(v, v.len())
        },
        _ => is_format_error(format, r),
    }
}

fn check_in_format(contents: &str, format: DataFormat, source: Option<&str>) -> (r: Result<Vec<Exercise>, PraxeumError>)
    requires
        format != DataFormat::Auto,
    ensures
        validates_as(contents@, format, optional_str(source), r),
{
    let exercises = match load_in_format(contents, format) {
        Ok(x) => x,
        Err(e) => {
            return Err(e);
        },
    };
    match validate_exercises_with_source(exercises.as_slice(), source) {
        Ok(()) => Ok(exercises),
        Err(report) => Err(PraxeumError::Validation(report)),
    }
}

fn preflight_in_format(contents: &str, format: DataFormat, source: Option<&str>) -> (r: Result<PreflightReport, PraxeumError>)
    requires
        format != DataFormat::Auto,
    ensures
        preflights_as(contents@, format, optional_str(source), r),
{
    let exercises = match load_in_format(contents, format) {
        Ok(x) => x,
        Err(e) => {
            return Err(e);
        },
    };
    Ok(preflight_of(&exercises, format, source))
}

impl ExerciseLoader {
    /// Load exercises from a text. JSON is a top-level array or an object with an
    /// `exercises` array; TOML is an `[[exercise]]` array of tables.
    pub fn load_from_str(contents: &str, format: DataFormat) -> (r: Result<Vec<Exercise>, PraxeumError>)
        ensures
            loads_as(contents@, content_format(contents@, format), r),
    {
        load_in_format(contents, resolve_content_format(contents, format))
    }

    /// Load exercises from the contents of the file at `path`; `Auto` infers the format from
    /// the file extension.
    pub fn load_from_file_contents(path: &str, contents: &str, format: DataFormat) -> (r: Result<
        Vec<Exercise>,
        PraxeumError,
    >)
        ensures
            format != DataFormat::Auto ==> loads_as(contents@, format, r),
            format == DataFormat::Auto ==> (r matches Err(PraxeumError::UnsupportedFormat))
                || loads_as(contents@, DataFormat::Json, r) || loads_as(
                contents@,
                DataFormat::Toml,
                r,
            ),
            format == DataFormat::Auto && is_plain_path(path@) ==> match path_format(path@) {
                Some(f) => loads_as(contents@, f, r),
                None => r matches Err(PraxeumError::UnsupportedFormat),
            },
    {
        match resolve_file_format(path, format) {
            Ok(f) => load_in_format(contents, f),
            Err(e) => Err(e),
        }
    }

    /// Load and validate exercises from a text; validation issues come back as
    /// `PraxeumError::Validation`.
    pub fn validate_str(contents: &str, format: DataFormat) -> (r: Result<Vec<Exercise>, PraxeumError>)
        ensures
            validates_as(contents@, content_format(contents@, format), None, r),
    {
        check_in_format(contents, resolve_content_format(contents, format), None)
    }

    /// Load and validate exercises from the contents of the file at `path`, with the path as
    /// the report's source.
    pub fn validate_file_contents(path: &str, contents: &str, format: DataFormat) -> (r: Result<
        Vec<Exercise>,
        PraxeumError,
    >)
        ensures
            format != DataFormat::Auto ==> validates_as(contents@, format, Some(path@), r),
            format == DataFormat::Auto ==> (r matches Err(PraxeumError::UnsupportedFormat))
                || validates_as(contents@, DataFormat::Json, Some(path@), r) || validates_as(
                contents@,
                DataFormat::Toml,
                Some(path@),
                r,
            ),
            format == DataFormat::Auto && is_plain_path(path@) ==> match path_format(path@) {
                Some(f) => validates_as(contents@, f, Some(path@), r),
                None => r matches Err(PraxeumError::UnsupportedFormat),
            },
    {
        match resolve_file_format(path, format) {
            Ok(f) => check_in_format(contents, f, Some(path)),
            Err(e) => Err(e),
        }
    }

    /// Load a text and report how many exercises it holds and what validation finds,
    /// without failing on validation issues.
    pub fn preflight_str(contents: &str, format: DataFormat, source: Option<&str>) -> (r: Result<
        PreflightReport,
        PraxeumError,
    >)
        ensures
            preflights_as(contents@, content_format(contents@, format), optional_str(source), r),
    {
        preflight_in_format(contents, resolve_content_format(contents, format), source)
    }

    /// Preflight the contents of the file at `path`, with the path as the report's source.
    pub fn preflight_file_contents(path: &str, contents: &str, format: DataFormat) -> (r: Result<
        PreflightReport,
        PraxeumError,
    >)
        ensures
            format != DataFormat::Auto ==> preflights_as(contents@, format, Some(path@), r),
            format == DataFormat::Auto ==> (r matches Err(PraxeumError::UnsupportedFormat))
                || preflights_as(contents@, DataFormat::Json, Some(path@), r) || preflights_as(
                contents@,
                DataFormat::Toml,
                Some(path@),
                r,
            ),
            format == DataFormat::Auto && is_plain_path(path@) ==> match path_format(path@) {
                Some(f) => preflights_as(contents@, f, Some(path@), r),
                None => r matches Err(PraxeumError::UnsupportedFormat),
            },
    {
        match resolve_file_format(path, format) {
            Ok(f) => preflight_in_format(contents, f, Some(path)),
            Err(e) => Err(e),
        }
    }
}

} // verus!
