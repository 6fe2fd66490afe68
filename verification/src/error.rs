//! The error kinds of the engine.
//!
//! `ConfigError` is fatal at construction (an empty vocabulary), `DomainError`
//! marks scoring input the formulas reject (zero time or zero characters),
//! `InvalidStateError` marks an operation invoked in a state that forbids it,
//! `IOError` stands for a failed read or write of a backing file, and
//! `ParseError` marks a history line that does not decode.

use vstd::prelude::*;
use vstd::string::StringExecFns;

verus! {

#[derive(Clone, Copy, Debug, PartialEq, Eq, Structural)]
pub enum ErrorKind {
    ConfigError,
    DomainError,
    InvalidStateError,
    IOError,
    ParseError,
}

impl ErrorKind {
    /// A short human-readable label for the error, for the UI layer to show.
    pub fn describe(&self) -> (r: String)
        ensures
            r@ == self.spec_describe(),
    {
        match self {
            ErrorKind::ConfigError => String::from_str("empty vocabulary"),
            ErrorKind::DomainError => String::from_str("scoring input out of domain"),
            ErrorKind::InvalidStateError => String::from_str("operation invalid in this state"),
            ErrorKind::IOError => String::from_str("file could not be read or written"),
            ErrorKind::ParseError => String::from_str("malformed history line"),
        }
    }

    pub open spec fn spec_describe(&self) -> Seq<char> {
        match self {
            ErrorKind::ConfigError => "empty vocabulary"@,
            ErrorKind::DomainError => "scoring input out of domain"@,
            ErrorKind::InvalidStateError => "operation invalid in this state"@,
            ErrorKind::IOError => "file could not be read or written"@,
            ErrorKind::ParseError => "malformed history line"@,
        }
    }
}

} // verus!
