use vstd::prelude::*;

verus! {

/// One subcommand of the journal command line.
#[derive(Debug)]
pub enum Action {
    /// Write a task to the journal file.
    Add { text: String },
    /// Remove an entry from the journal file by its position.
    Done { position: usize },
    /// List all tasks.
    List,
}

/// A parsed journal command line: the chosen subcommand and an optional
/// path to a journal file other than the default.
#[derive(Debug)]
pub struct CommandLineArgs {
    pub action: Action,
    pub journal_file: Option<String>,
}

} // verus!
