pub mod answer;
pub mod evaluation;
pub mod exercise;
pub mod session;
