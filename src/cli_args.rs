//! The command line, as plain values.

use vstd::prelude::*;

verus! {

/// The options of the command line.
#[derive(Clone, Debug)]
pub struct Cli {
    /// Classify each file and summarise it before writing the message.
    pub ask: bool,
    /// Stage all changes first.
    pub stage: bool,
    /// Write the message to `.git/COMMIT_EDITMSG`.
    pub apply: bool,
    /// The cap on concurrent requests.
    pub max: Option<usize>,
    pub model: Option<String>,
    pub api_key: Option<String>,
    pub provider: Option<String>,
    pub url: Option<String>,
    pub stream: Option<bool>,
    /// How many times `-v` was given.
    pub verbose: u8,
    pub command: Option<Command>,
}

/// The subcommands.
#[derive(Clone, Debug)]
pub enum Command {
    /// Describe the commits between `base` and `from` (default: the current
    /// branch) as a pull request.
    Pr { base: String, from: Option<String>, pr_mode: bool, commit_mode: bool },
    /// Free words after the options: a summary of the ticket.
    Summary(Vec<String>),
}

} // verus!
