//! The command line of the debugger, once parsed.

use vstd::prelude::*;

verus! {

/// The arguments of one invocation.
#[derive(Debug)]
pub struct CliArgs {
    /// Path of a debug script to run.
    pub debug_file: Option<String>,
    /// Whether to debug the program interactively.
    pub debug: bool,
    /// Whether to trace execution.
    pub verbose: bool,
    /// Path of the executable.
    pub program_path: String,
}

impl CliArgs {
    /// Whether the program runs under the debugger: interactive debugging was
    /// asked for, or a debug script was given.
    pub fn debug_mode(&self) -> (debugging: bool)
        ensures
            debugging == (self.debug || self.debug_file is Some),
    {
        self.debug || self.debug_file.is_some()
    }
}

} // verus!
