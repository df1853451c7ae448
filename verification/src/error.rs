//! The ways in which running a file can fail, each with its message.

use vstd::prelude::*;
use crate::text::owned;

verus! {

/// Why a run produced no output.
#[derive(Debug, PartialEq, Eq)]
pub enum RunError {
    /// No tier of the configuration holds a command for the file.
    ResolutionMiss,
    /// The command holds no token, so there is no program to start.
    Tokenize,
    /// The system could not start the program; holds the system's reason.
    Launch(String),
    /// The program ran and ended with a failure status; holds what it wrote
    /// to its error stream.
    NonZeroExit(String),
}

/// The message that a caller is shown for an error.
pub open spec fn message_of(e: RunError) -> Seq<char> {
    match e {
        RunError::ResolutionMiss => "No matching run command found."@,
        RunError::Tokenize => "Empty command string"@,
        RunError::Launch(reason) => reason@,
        RunError::NonZeroExit(text) => text@,
    }
}

impl RunError {
    /// The error as text for a person to read.
    pub fn message(&self) -> (r: String)
        ensures
            r@ == message_of(*self),
    {
        match self {
            RunError::ResolutionMiss => owned("No matching run command found."),
            RunError::Tokenize => owned("Empty command string"),
            RunError::Launch(reason) => reason.clone(),
            RunError::NonZeroExit(text) => text.clone(),
        }
    }
}

} // verus!
