//! The commands an operator can give.

use vstd::prelude::*;

verus! {

/// What the operator asked for.
#[derive(Clone, Copy, Debug, PartialEq, Eq, Structural)]
pub enum Commands {
    /// Runs the configuration wizard.
    Init,
    /// Runs a backup immediately.
    RunNow,
    /// Simulates a backup: commits without writing and never pushes.
    DryRun,
    /// Shows the current configuration.
    Status,
}

/// A parsed command line.
#[derive(Clone, Copy, Debug, PartialEq, Eq, Structural)]
pub struct Cli {
    pub command: Option<Commands>,
    pub verbose: bool,
}

} // verus!
