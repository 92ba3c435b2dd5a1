//! The failures that a caller of the engine can be handed.

use vstd::prelude::*;
use vstd::string::StringExecFns;

verus! {

/// Why the analyzer could not be reached or did not answer.
///
/// A mismatch between the number of tokens sent and received is not among
/// them: it yields a result with an empty alignment.
#[derive(Debug, Clone, Copy, PartialEq, Eq, Structural)]
pub enum CoreError {
    /// The analyzer could not be started.
    LaunchFailure,
    /// One of the analyzer's streams ended before it had said what was
    /// awaited: the readiness marker during startup, or an answer during
    /// an exchange.
    ProcessTerminatedEarly,
    /// The location of the analyzer's packaged artifact could not be
    /// resolved. The engine never reports this itself: the path is resolved
    /// before an engine is made.
    InvalidConfiguration,
}

impl CoreError {
    /// A short description for logs and reports.
    pub fn describe(&self) -> (text: String)
        ensures
            text@ == match *self {
                CoreError::LaunchFailure => "failed to start the analyzer process"@,
                CoreError::ProcessTerminatedEarly => "the analyzer process exited unexpectedly"@,
                CoreError::InvalidConfiguration => "the analyzer artifact could not be located"@,
            },
    {
        match self {
            CoreError::LaunchFailure => String::from_str("failed to start the analyzer process"),
            CoreError::ProcessTerminatedEarly => String::from_str(
                "the analyzer process exited unexpectedly",
            ),
            CoreError::InvalidConfiguration => String::from_str(
                "the analyzer artifact could not be located",
            ),
        }
    }
}

} // verus!
