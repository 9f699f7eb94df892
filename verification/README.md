# praxeum_core

A learning engine for Austrian-economics exercises, verified with Verus.

Exercises come in three kinds (classification, multiple choice, scenario) and are written
in TOML or JSON. The library reads them, validates them against the content schema,
evaluates learners' answers, and keeps session metrics, points and events.

## Layout

- `src/` — the verified library.
  - `model/` — exercises, answers, evaluations, session metrics and progress snapshots,
    each with a mathematical view.
  - `document.rs` — the parsed document tree and how exercises are read from it.
  - `loader.rs` — formats, parsing through `serde_json` and `toml`, loading, validation
    and preflight of exercise texts.
  - `validator.rs` — the schema checks, with the exact list of issues they report.
  - `engine.rs` — the exercise cursor and answer evaluation.
  - `scoring.rs` — points and the session tracker with its events.
  - `selection.rs` — filtering, shuffling and limiting the exercises of a session.
  - `interaction.rs` — reading typed index lists, drawing rules.
  - `text.rs` — white space, decimal and list formatting, text comparison.
  - `laws.rs` — properties that hold across operations.
- `tests/` — tests of the library.
- `app/` — the command-line player: argument parsing, files, terminal menus and display,
  and serde copies of the progress types for persistence.

Scores are exact fractions; the player shows them as percentages.
