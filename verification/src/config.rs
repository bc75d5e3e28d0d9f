//! The pre-parsed command-line surface: which command was asked for and the
//! global flags. The callers that parse a real command line build this value.

use vstd::prelude::*;

verus! {

/// The parsed invocation: an optional subcommand and the global flags.
/// Without a subcommand the full aggregated report is produced.
#[derive(Debug)]
pub struct Args {
    pub command: Option<Commands>,
    /// Case-insensitive substring filter on commit authors.
    pub author: Option<String>,
    /// Explicit lookback window in days; without it the window is one day,
    /// or three when the local day is Monday.
    pub days: Option<u64>,
    /// Surface per-repository extraction errors instead of skipping silently.
    pub verbose: bool,
}

/// The subcommands.
#[derive(Debug)]
pub enum Commands {
    /// Discover and register repositories under a directory.
    Scan { path: String },
    /// Report on a single ad-hoc repository without registering it.
    Check { path: String },
    /// Print all tracked repository paths.
    List,
    /// Append a manual note.
    Note { message: String },
    /// Pipe the report text to the summarization service.
    Summarize,
    /// View or update the summarization settings.
    Config {
        set_key: Option<String>,
        set_url: Option<String>,
        set_model: Option<String>,
        set_prompt: Option<String>,
        set_lang: Option<String>,
    },
}

} // verus!
