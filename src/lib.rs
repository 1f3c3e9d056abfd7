//! Parsing and dispatch of workout-logging chat messages.

pub mod error;
pub mod text;
pub mod workout_model;
pub mod process_task;
