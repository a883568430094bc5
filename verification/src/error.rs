//! The ways in which a conformance run fails. Each of them ends the run.

use vstd::prelude::*;

verus! {

/// Why a run was given up.
#[derive(Clone, Copy, Debug, PartialEq, Eq, Structural)]
pub enum HarnessError {
    /// A registered vector file could not be opened.
    VectorFileNotFound,
    /// Reading from an opened vector file failed.
    VectorFileUnreadable,
    /// The vector file breaks the grammar. `line` counts from zero and is
    /// the line at which the fault showed; for a block cut short by the
    /// end of the stream it is the number of lines in the stream.
    MalformedVectorFile { line: usize },
    /// The primitive rejected the record with this `count`, or recovered
    /// another message than the record holds.
    VerificationFailed { count: u64 },
    /// The command line is not understood.
    UsageError,
}

impl HarnessError {
    /// The name of the failure, for reports.
    pub fn name(&self) -> (r: &'static str)
        ensures
            r@ == match *self {
                HarnessError::VectorFileNotFound => "VectorFileNotFound"@,
                HarnessError::VectorFileUnreadable => "VectorFileUnreadable"@,
                HarnessError::MalformedVectorFile { .. } => "MalformedVectorFile"@,
                HarnessError::VerificationFailed { .. } => "VerificationFailed"@,
                HarnessError::UsageError => "UsageError"@,
            },
    {
        match self {
            HarnessError::VectorFileNotFound => "VectorFileNotFound",
            HarnessError::VectorFileUnreadable => "VectorFileUnreadable",
            HarnessError::MalformedVectorFile { .. } => "MalformedVectorFile",
            HarnessError::VerificationFailed { .. } => "VerificationFailed",
            HarnessError::UsageError => "UsageError",
        }
    }
}

} // verus!
