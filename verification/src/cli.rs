//! Command-line surface of the tool, as plain data.
//!
//! Argument parsing itself happens outside the library; these types carry
//! the parsed invocation.

use vstd::prelude::*;

verus! {

/// Arguments for adding a new worktree.
#[derive(Debug, Clone)]
pub struct AddArgs {
    /// The new branch's name. Slashes are replaced with dashes by the
    /// caller to avoid folder nesting.
    pub new_branch_name: String,
    /// Force checkout, even if the branch already exists locally.
    pub force: bool,
}

/// Arguments for removing a worktree.
#[derive(Debug, Clone)]
pub struct RmArgs {}

/// Arguments for configuring per-repository helpers.
#[derive(Debug, Clone)]
pub struct ConfigArgs {
    /// Commands to run after every successful new worktree.
    pub create_commands: Vec<String>,
    /// Commands to run after every successful worktree removal.
    pub remove_commands: Vec<String>,
}

/// Arguments for opening a worktree in an external tool.
#[derive(Debug, Clone)]
pub struct OpenArgs {}

/// The subcommand selected on the command line.
#[derive(Debug, Clone)]
pub enum Commands {
    Add(AddArgs),
    Rm(RmArgs),
    Config(ConfigArgs),
    Open(OpenArgs),
}

/// A parsed invocation of the tool.
#[derive(Debug, Clone)]
pub struct Cli {
    pub command: Commands,
}

impl Cli {
    /// Wraps an already-parsed subcommand as a full invocation.
    pub fn new(command: Commands) -> (r: Self)
        ensures
            r.command == command,
    {
        Cli { command }
    }
}

} // verus!
