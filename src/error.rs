//! Errors of parsing and validating a workout message.

use vstd::prelude::*;

verus! {

/// Why a message could not be turned into a workout or an exercise.
#[derive(Debug, Clone, Copy, PartialEq, Eq, Structural)]
pub enum ParseWorkoutError {
    /// The message has no newline between its command and its content.
    MissingBody,
    /// The workout header does not hold date, type and targeted muscles.
    MalformedMetadata,
    /// An exercise line lacks a number, or one of its numbers does not parse.
    MalformedExerciseField,
}

/// Why a parsed workout was not accepted.
#[derive(Debug, Clone, Copy, PartialEq, Eq, Structural)]
pub enum ValidationError {
    /// A workout of the same type is already on record for that date.
    DuplicateDay,
}

} // verus!
