pub mod document;
pub mod engine;
pub mod error;
pub mod interaction;
pub mod laws;
pub mod loader;
pub mod model;
pub mod scoring;
pub mod selection;
pub mod validator;
pub mod text;

pub use crate::engine::ExerciseEngine;
pub use crate::error::PraxeumError;
pub use crate::loader::{DataFormat, ExerciseLoader, PreflightReport, BUNDLED_EXAMPLES};
pub use crate::model::{
    answer::Answer,
    evaluation::{Evaluation, Fraction},
    exercise::Exercise,
    session::{ProgressSnapshot, SessionMetrics},
};
pub use crate::scoring::{ScoreOutcome, SessionEvent, SessionTracker};
pub use crate::validator::{validate_exercises, ValidationErrorReport, ValidationIssue};
