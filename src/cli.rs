//! The commands the program accepts, as plain values.

use vstd::prelude::*;

verus! {

/// The program's arguments: the log file, and what to do with it.
#[derive(Debug, Clone)]
pub struct App {
    /// Which file to record the hours in.
    pub file: Option<String>,
    pub command: Commands,
}

#[derive(Debug, Clone)]
pub enum Commands {
    /// Record a punch at the current time.
    Record { auto: bool, project: Option<String> },
    /// Report the days of a project.
    Show {
        project: Option<String>,
        /// Display time in decimal hours: 1 hour and 45 minutes is 1.75.
        decimal: bool,
    },
}

} // verus!
