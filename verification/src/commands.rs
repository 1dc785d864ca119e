//! The control surface: the commands a user can ask of the journal.
//!
//! These are the bare command values. The executable front end parses the
//! command line into its own mirror of these types and converts, so the
//! core can speak of a command without any parser attached.

use vstd::prelude::*;

verus! {

/// A parsed invocation: exactly one command.
pub struct Cli {
    pub command: Commands,
}

/// What the user asked for. `Record` with no name falls back to a
/// formatted current timestamp, chosen by the front end.
pub enum Commands {
    Record { name: Option<String> },
    List {},
    Play { name: String },
    Delete { name: String },
}

} // verus!
