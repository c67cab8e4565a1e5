//! The settings that the library reads.

use std::path::PathBuf;
use vstd::prelude::*;

verus! {

/// Whether messages are written to the history file.
#[derive(Debug, Clone, Copy, PartialEq, Eq, Structural)]
pub enum HistoryPersistence {
    /// Save all history entries to disk.
    SaveAll,
    /// Do not write history to disk.
    SaveNone,
}

/// Settings of the message history.
#[derive(Debug, Clone, Copy)]
pub struct History {
    pub persistence: HistoryPersistence,
}

/// The settings of a session.
#[derive(Debug)]
pub struct Config {
    /// The directory that holds all state of the program.
    pub codex_home: PathBuf,
    pub history: History,
}

} // verus!
