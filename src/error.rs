//! Why an operation stopped.
use vstd::prelude::*;

verus! {

#[derive(Debug, Clone, Copy, PartialEq, Eq, Structural)]
pub enum ShakeError {
    /// The remote reference lacks a `:` or, after it, a `/`.
    InvalidUri,
    /// Neither the starting directory nor any directory above it holds a bare store.
    NoEnclosingProject,
    /// The bare clone of the remote did not succeed.
    CloneFailed,
    /// The first worktree of a cloned project could not be created.
    WorktreeFailed,
    /// The step at this position of the operation's plan did not succeed.
    StepFailed { step: usize },
}

} // verus!
