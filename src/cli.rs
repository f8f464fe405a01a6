//! The four operations as a command line names them.
use vstd::prelude::*;

verus! {

#[derive(Debug)]
pub struct Cli {
    pub subcmd: SubCommand,
}

#[derive(Debug)]
pub enum SubCommand {
    /// Create a new project in the current directory.
    Init { cargo: bool, go: bool, lfs: bool, rye: bool, npm: bool, dotnet: bool },
    /// Create a new project in a directory with the given name.
    New { name: String, cargo: bool, go: bool, lfs: bool, rye: bool, npm: bool, dotnet: bool },
    /// Create a project from the repository at the given remote reference.
    Clone { uri: String, branch: String },
    /// Add a worktree for a branch to the enclosing project.
    Checkout { branch: String, b: bool, force: bool },
}

} // verus!
