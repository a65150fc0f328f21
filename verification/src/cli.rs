//! The command line.
use vstd::prelude::*;

verus! {

/// Parsed command-line arguments.
#[derive(Debug)]
pub struct Cli {
    pub command: Option<Commands>,
}

#[derive(Debug)]
pub enum Commands {
    /// Launch the TUI dashboard (default when no args provided)
    Dashboard {
        /// Optional specific paths to scan
        paths: Vec<String>,
    },
    /// Scan for reclaimable space and print a report
    Scan {
        json: bool,
        /// Optional specific paths to scan
        paths: Vec<String>,
    },
    /// Clean specific caches
    Clean {
        /// Target ecosystem to clean (e.g., xcode, node, all)
        target: String,
    },
    /// Run diagnostics
    Doctor,
    /// Show statistics
    Stats,
    /// Plugin management
    Plugin { cmd: PluginCommands },
}

#[derive(Debug)]
pub enum PluginCommands {
    List,
    Validate,
}

/// What the program does for a command line.
#[derive(Debug)]
pub enum MainAction {
    /// Print a scan report of the given paths.
    Scan { json: bool, paths: Vec<String> },
    /// Announce the cleaning of a target.
    Clean { target: String },
    /// Run the dashboard on the given paths.
    Dashboard { paths: Vec<String> },
    /// Say that the command is not implemented yet.
    Unimplemented,
}

impl Cli {
    /// The action for this command line: no command runs the dashboard with
    /// no paths; `doctor`, `stats` and `plugin` are not implemented yet.
    pub fn action(self) -> (r: MainAction)
        ensures
            match self.command {
                None => r matches MainAction::Dashboard { paths } && paths@.len() == 0,
                Some(Commands::Dashboard { paths }) => r matches MainAction::Dashboard { paths: p }
                    && p@ == paths@,
                Some(Commands::Scan { json, paths }) => r matches MainAction::Scan {
                    json: j,
                    paths: p,
                } && j == json && p@ == paths@,
                Some(Commands::Clean { target }) => r matches MainAction::Clean { target: t } && t
                    == target,
                _ => r is Unimplemented,
            },
    {
        match self.command {
            None => MainAction::Dashboard { paths: Vec::new() },
            Some(Commands::Dashboard { paths }) => MainAction::Dashboard { paths },
            Some(Commands::Scan { json, paths }) => MainAction::Scan { json, paths },
            Some(Commands::Clean { target }) => MainAction::Clean { target },
            Some(_) => MainAction::Unimplemented,
        }
    }
}

} // verus!
