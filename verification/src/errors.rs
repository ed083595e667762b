//! The error taxonomy shared by every fallible operation of the crate.

use vstd::prelude::*;

verus! {

/// Why an operation was refused.
///
/// - `NotFound`: the named template or instance does not exist.
/// - `Conflict`: a duplicate identifier, a duplicate port, or a second
///   instance of a template that supports only one.
/// - `Validation`: an empty or otherwise invalid identifier field.
/// - `ProcessFailure`: spawning, signalling or running a command failed,
///   including a process that died immediately after starting.
/// - `PersistenceFailure`: the configuration could not be read or written.
#[derive(Clone, Copy, Debug, PartialEq, Eq, Structural)]
pub enum UsmError {
    NotFound,
    Conflict,
    Validation,
    ProcessFailure,
    PersistenceFailure,
}

impl UsmError {
    /// A short machine-readable name for the error, for boundary layers
    /// that print or log it.
    pub fn name(&self) -> (r: &'static str)
        ensures
            r@ == self.spec_name(),
    {
        match self {
            UsmError::NotFound => "not_found",
            UsmError::Conflict => "conflict",
            UsmError::Validation => "validation",
            UsmError::ProcessFailure => "process_failure",
            UsmError::PersistenceFailure => "persistence_failure",
        }
    }

    pub open spec fn spec_name(&self) -> Seq<char> {
        match self {
            UsmError::NotFound => "not_found"@,
            UsmError::Conflict => "conflict"@,
            UsmError::Validation => "validation"@,
            UsmError::ProcessFailure => "process_failure"@,
            UsmError::PersistenceFailure => "persistence_failure"@,
        }
    }
}

} // verus!
