//! Errors reported by the library.

use vstd::prelude::*;

verus! {

/// Errors of the organizer, each with the path or message it concerns.
#[derive(Debug, Clone, PartialEq, Eq)]
pub enum Error {
    PathNotFound(String),
    NotADirectory(String),
    RollbackConflict(String),
    ExecuteError(String),
    PlanValidationError(String),
    Other(String),
}

} // verus!
