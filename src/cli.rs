use vstd::prelude::*;

use crate::path::FsPath;

verus! {

/// The parsed command line.
pub struct Cli {
    pub command: Option<Commands>,
}

/// The subcommands.
pub enum Commands {
    /// Create the default configuration file.
    Init { path: Option<FsPath>, force: bool },
    /// Organize the configured roots, once or as a daemon.
    Run { once: bool, daemon: bool },
    /// Show what would be done without changing anything.
    DryRun,
    /// Show whether the daemon is running.
    Status,
    /// Check the configuration file.
    Validate,
}

} // verus!
