//! The error type of every fallible operation.
use vstd::prelude::*;
use crate::text::concat2;

verus! {

/// Error types for ntree operations.
#[derive(Debug, Clone)]
pub enum NTreeError {
    /// IO-related errors (file reading, permissions, etc.), with the system's message
    IoError(String),
    /// Parsing-related errors (invalid syntax, language setup, etc.)
    ParseError(String),
    /// Invalid input or configuration
    InvalidInput(String),
}

/// The text that displaying an error shows.
pub open spec fn error_text(e: NTreeError) -> Seq<char> {
    match e {
        NTreeError::IoError(m) => "IO Error: "@ + m@,
        NTreeError::ParseError(m) => "Parse Error: "@ + m@,
        NTreeError::InvalidInput(m) => "Invalid Input: "@ + m@,
    }
}

impl NTreeError {
    /// A copy of the error.
    pub fn duplicate(&self) -> (e: NTreeError)
        ensures
            e == *self,
    {
        match self {
            NTreeError::IoError(m) => NTreeError::IoError(m.clone()),
            NTreeError::ParseError(m) => NTreeError::ParseError(m.clone()),
            NTreeError::InvalidInput(m) => NTreeError::InvalidInput(m.clone()),
        }
    }

    /// The error as displayed: its kind, a colon and its message.
    pub fn to_string(&self) -> (s: String)
        ensures
            s@ == error_text(*self),
    {
        match self {
            NTreeError::IoError(m) => concat2("IO Error: ", m.as_str()),
            NTreeError::ParseError(m) => concat2("Parse Error: ", m.as_str()),
            NTreeError::InvalidInput(m) => concat2("Invalid Input: ", m.as_str()),
        }
    }
}

} // verus!
