//! The ways in which loading stations or generating measurements can fail.

use vstd::prelude::*;
use vstd::string::StringExecFns;

verus! {

/// Why an operation was abandoned. No failure is retried or recovered from.
#[derive(Clone, Copy, Debug, PartialEq, Eq, Structural)]
pub enum ErrorKind {
    /// A file could not be opened, read or written.
    Io,
    /// A line of the station file has no characters, so it holds no id.
    Parse,
    /// A station was to be drawn from an empty collection.
    EmptyInput,
}

impl ErrorKind {
    /// The text that describes this kind of failure.
    pub open spec fn message_text(self) -> Seq<char> {
        match self {
            ErrorKind::Io => "Could not open file"@,
            ErrorKind::Parse => "No id"@,
            ErrorKind::EmptyInput => "No stations"@,
        }
    }

    /// A human-readable description of the failure.
    pub fn message(&self) -> (text: String)
        ensures
            text@ == self.message_text(),
    {
        match self {
            ErrorKind::Io => String::from_str("Could not open file"),
            ErrorKind::Parse => String::from_str("No id"),
            ErrorKind::EmptyInput => String::from_str("No stations"),
        }
    }
}

} // verus!
