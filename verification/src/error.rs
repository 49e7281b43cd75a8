//! Error taxonomy of the pipeline.
//!
//! Every failure of a run is terminal and carried as an [`ErrorMessage`]:
//! a kind that tells the caller which remedy applies, together with a
//! human-readable description.

use vstd::prelude::*;

verus! {

/// The distinct failure classes of a pipeline run.
#[derive(Clone, Copy, Debug, PartialEq, Eq, Structural)]
pub enum ErrorKind {
    /// The source document is missing or is not a document of the expected format.
    InvalidInput,
    /// Creating, filling or removing the temporary workspace failed.
    WorkspaceIOFailure,
    /// An external tool is absent from the executable search path.
    ExecutableNotFound,
    /// An external tool ran but exited with a non-zero status.
    ExternalToolFailed,
    /// An external tool's process could not be started for a reason other
    /// than a missing binary, such as lacking permissions.
    SpawnFailed,
    /// A configuration value is malformed, such as a resolution that is
    /// not a positive integer.
    InvalidConfiguration,
    /// The page count of the source document could not be determined.
    PageCountUnavailable,
}

/// A terminal error of a run: its class and a description for the user.
#[derive(Debug)]
pub struct ErrorMessage {
    /// The failure class.
    pub kind: ErrorKind,
    /// A single human-readable line naming what failed and why.
    pub message: String,
}

impl ErrorMessage {
    /// Builds an error of the given class from its description.
    pub fn new(kind: ErrorKind, message: String) -> (r: ErrorMessage)
        ensures
            r.kind == kind,
            r.message@ == message@,
    {
        ErrorMessage { kind, message }
    }

    /// The description line, for display by the caller.
    pub fn text(&self) -> (r: &String)
        ensures
            r@ == self.message@,
    {
        &self.message
    }
}

} // verus!
