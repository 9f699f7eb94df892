use vstd::prelude::*;
use crate::validator::ValidationErrorReport;

verus! {

/// Declares `std::io::Error` to Verus; its contents stay opaque.
#[verifier::external_type_specification]
#[verifier::external_body]
pub struct ExIoError(std::io::Error);

/// Declares `serde_json::Error` to Verus; its contents stay opaque.
#[verifier::external_type_specification]
#[verifier::external_body]
pub struct ExJsonError(serde_json::Error);

/// Declares `toml::de::Error` to Verus; its contents stay opaque.
#[verifier::external_type_specification]
#[verifier::external_body]
pub struct ExTomlError(toml::de::Error);

/// Errors of the library.
#[derive(Debug)]
pub enum PraxeumError {
    /// Reading a file failed.
    Io(std::io::Error),
    /// The text is not JSON, or not JSON of the exercise schema.
    Json(serde_json::Error),
    /// The text is not TOML, or not TOML of the exercise schema.
    Toml(toml::de::Error),
    /// The format could not be determined.
    UnsupportedFormat,
    /// The answer does not fit the exercise.
    InvalidAnswer(String),
    /// There is no exercise to answer.
    NoExercises,
    /// The exercises failed validation.
    Validation(ValidationErrorReport),
}

} // verus!
