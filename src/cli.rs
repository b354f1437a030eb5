//! The command-line surface, as plain values.

use vstd::prelude::*;

verus! {

/// What the command line asks for.
#[derive(Debug)]
pub enum Commands {
    /// Run the proxy servers and the admin endpoint.
    Run,
    /// Load a rules file and report whether it loads.
    Check { rules: String },
    /// Ask the admin endpoint to reload every engine.
    Reload,
    /// Ask the admin endpoint for statistics.
    Stats,
    /// Show information about this program.
    Info,
}

/// The parsed command line.
#[derive(Debug)]
pub struct Cli {
    pub command: Commands,
}

} // verus!
