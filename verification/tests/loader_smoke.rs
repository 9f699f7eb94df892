use praxeum_core::loader::{infer_format, DataFormat, ExerciseLoader};
use praxeum_core::{ExerciseEngine, PraxeumError, BUNDLED_EXAMPLES};
use praxeum_core::model::exercise::Exercise;

#[test]
fn loads_examples_and_counts_exercises() {
    let exercises = ExerciseLoader::load_from_str(BUNDLED_EXAMPLES, DataFormat::Auto)
        .expect("example file should load");
    assert!(!exercises.is_empty(), "example set should not be empty");

    let engine = ExerciseEngine::new(exercises);
    assert_eq!(engine.len(), 3);
}

#[test]
fn infers_format_from_extension() {
    assert_eq!(infer_format("a/b/set.json").unwrap(), DataFormat::Json);
    assert_eq!(infer_format("set.Toml").unwrap(), DataFormat::Toml);
    assert_eq!(infer_format("set.tml").unwrap(), DataFormat::Toml);
    assert!(matches!(infer_format("set.yaml"), Err(PraxeumError::UnsupportedFormat)));
    assert!(matches!(infer_format("set"), Err(PraxeumError::UnsupportedFormat)));
    assert!(matches!(infer_format(".toml"), Err(PraxeumError::UnsupportedFormat)));
}

#[test]
fn bare_names_take_the_text_after_the_last_dot() {
    assert_eq!(infer_format("unit.v2.JSON").unwrap(), DataFormat::Json);
    assert_eq!(infer_format("..json").unwrap(), DataFormat::Json);
    assert!(matches!(infer_format("set."), Err(PraxeumError::UnsupportedFormat)));
    assert!(matches!(infer_format("set.json.bak"), Err(PraxeumError::UnsupportedFormat)));
    let ok = ExerciseLoader::load_from_file_contents("set.toml", BUNDLED_EXAMPLES, DataFormat::Auto)
        .expect("extension names TOML");
    assert_eq!(ok.len(), 3);
}

#[test]
fn paths_with_directories_take_the_file_name_extension() {
    assert_eq!(infer_format("content/set.toml").unwrap(), DataFormat::Toml);
    assert_eq!(infer_format("/srv/lessons.v1/unit.JSON").unwrap(), DataFormat::Json);
    assert!(matches!(infer_format("data.json/set"), Err(PraxeumError::UnsupportedFormat)));
    assert!(matches!(infer_format("content/.toml"), Err(PraxeumError::UnsupportedFormat)));
    let ok = ExerciseLoader::load_from_file_contents("content/set.toml", BUNDLED_EXAMPLES, DataFormat::Auto)
        .expect("extension names TOML");
    assert_eq!(ok.len(), 3);
    let report = ExerciseLoader::preflight_file_contents("content/set.json", BUNDLED_EXAMPLES, DataFormat::Auto);
    assert!(matches!(report, Err(PraxeumError::Json(_))));
}

#[test]
fn file_contents_need_a_known_extension() {
    let r = ExerciseLoader::load_from_file_contents("set.txt", BUNDLED_EXAMPLES, DataFormat::Auto);
    assert!(matches!(r, Err(PraxeumError::UnsupportedFormat)));
    let ok = ExerciseLoader::load_from_file_contents("set.txt", BUNDLED_EXAMPLES, DataFormat::Toml)
        .expect("explicit format");
    assert_eq!(ok.len(), 3);
}

#[test]
fn parse_and_schema_errors_keep_their_format() {
    assert!(matches!(
        ExerciseLoader::load_from_str("not = [valid", DataFormat::Toml),
        Err(PraxeumError::Toml(_))
    ));
    assert!(matches!(
        ExerciseLoader::load_from_str("[{\"kind\": \"quiz\"}]", DataFormat::Auto),
        Err(PraxeumError::Json(_))
    ));
    assert!(matches!(
        ExerciseLoader::load_from_str("title = \"no exercises\"", DataFormat::Auto),
        Err(PraxeumError::Toml(_))
    ));
    match ExerciseLoader::load_from_str(
        "[{\"kind\": \"scenario\", \"id\": \"s\", \"title\": \"t\", \"description\": \"d\", \"prompt\": \"p\"}]",
        DataFormat::Json,
    ) {
        Err(PraxeumError::Json(e)) => assert!(e.to_string().contains("missing field `choices`")),
        other => panic!("unexpected: {other:?}"),
    }
    match ExerciseLoader::load_from_str("[[exercise]]\nkind = \"scenario\"\n", DataFormat::Toml) {
        Err(PraxeumError::Toml(e)) => assert!(e.to_string().contains("missing field `id`")),
        other => panic!("unexpected: {other:?}"),
    }
}

#[test]
fn json_bare_array_loads() {
    let json = r#"  [
  {"kind": "multiple_choice", "id": "m", "title": "T", "prompt": "P",
   "options": ["a", "b"], "correct_indices": [1], "multi_select": false}
]"#;
    let loaded = ExerciseLoader::load_from_str(json, DataFormat::Auto).expect("json loads");
    assert_eq!(loaded.len(), 1);
    assert_eq!(loaded[0].id(), "m");
}

#[test]
fn records_written_as_lists_load_in_field_order() {
    let json = r#"[
  ["scenario", "s", "Trade", "Two traders", "Which move?", [["Swap", true, "Both gain"]]],
  {"kind": "classification", "id": "c", "title": "T", "prompt": "P",
   "categories": ["action", "event"], "items": [["Alice acts", "action"]]},
  ["multiple_choice", "m", "T", "P", ["a", "b"], [1], false]
]"#;
    let loaded = ExerciseLoader::load_from_str(json, DataFormat::Json).expect("list forms load");
    assert_eq!(loaded.len(), 3);
    match &loaded[0] {
        Exercise::Scenario { id, choices, .. } => {
            assert_eq!(id, "s");
            assert_eq!(choices[0].label, "Swap");
            assert!(choices[0].is_correct);
            assert_eq!(choices[0].feedback, "Both gain");
        }
        other => panic!("unexpected: {other:?}"),
    }
    match &loaded[1] {
        Exercise::Classification { items, .. } => {
            assert_eq!(items[0].text, "Alice acts");
            assert_eq!(items[0].correct_category, "action");
        }
        other => panic!("unexpected: {other:?}"),
    }
    match &loaded[2] {
        Exercise::MultipleChoice { correct_indices, multi_select, .. } => {
            assert_eq!(correct_indices, &vec![1]);
            assert!(!multi_select);
        }
        other => panic!("unexpected: {other:?}"),
    }
    let toml = "exercise = [[\"classification\", \"c\", \"T\", \"P\", [\"a\", \"b\"], [[\"x\", \"a\"]]]]\n";
    let from_toml = ExerciseLoader::load_from_str(toml, DataFormat::Toml).expect("toml list form");
    assert_eq!(from_toml[0].id(), "c");
}

#[test]
fn records_written_as_lists_need_every_field() {
    for json in [
        r#"[["scenario", "s", "T", "D", "P"]]"#,
        r#"[["scenario", "s", "T", "D", "P", [], "extra"]]"#,
        r#"[["scenario", "s", "T", "D", "P", [["Swap", true]]]]"#,
        r#"[[]]"#,
        r#"[["quiz", "q"]]"#,
    ] {
        assert!(
            matches!(ExerciseLoader::load_from_str(json, DataFormat::Json), Err(PraxeumError::Json(_))),
            "{json}"
        );
    }
}
