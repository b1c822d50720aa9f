//! The ways in which an operation of the lifecycle core fails.

use vstd::prelude::*;

verus! {

/// Why an operation was refused. A refused operation leaves the state as it was.
#[derive(Clone, Copy, Debug, PartialEq, Eq, Structural)]
pub enum WorkspaceError {
    /// The workspace, tab or file that was named does not exist.
    NotFound,
    /// What was to be created is there already.
    AlreadyExists,
    /// A descriptor does not parse, breaks its invariant, or a directory
    /// that has to be there is missing.
    Corrupt,
    /// The tab already has its view.
    AlreadyLoaded,
    /// The home workspace cannot be removed.
    CannotRemoveHome,
    /// The workspace list could not be set up; there is nothing to go on with.
    Fatal,
}

impl WorkspaceError {
    /// A sentence that says what went wrong.
    pub fn message(&self) -> (text: &'static str)
        ensures
            text@ == self.spec_message(),
    {
        match self {
            WorkspaceError::NotFound => "the workspace, tab or file does not exist",
            WorkspaceError::AlreadyExists => "the workspace or tab exists already",
            WorkspaceError::Corrupt => "the stored workspace is damaged",
            WorkspaceError::AlreadyLoaded => "the tab is loaded already",
            WorkspaceError::CannotRemoveHome => "the home workspace cannot be removed",
            WorkspaceError::Fatal => "the workspace list could not be set up",
        }
    }

    /// The sentence that `message` returns.
    pub open spec fn spec_message(&self) -> Seq<char> {
        match self {
            WorkspaceError::NotFound => "the workspace, tab or file does not exist"@,
            WorkspaceError::AlreadyExists => "the workspace or tab exists already"@,
            WorkspaceError::Corrupt => "the stored workspace is damaged"@,
            WorkspaceError::AlreadyLoaded => "the tab is loaded already"@,
            WorkspaceError::CannotRemoveHome => "the home workspace cannot be removed"@,
            WorkspaceError::Fatal => "the workspace list could not be set up"@,
        }
    }
}

} // verus!
