//! Error type of the library.
use vstd::prelude::*;

verus! {

/// The kinds of failure that a session can report.
#[derive(Debug, Clone, PartialEq, Eq)]
pub enum Error {
    /// The line does not match the command grammar.
    UnsupportedCommand,
    /// The configured dataset path does not exist.
    InvalidDatabasePathError,
    /// A lookup was issued before any dataset was loaded.
    UnloadedDatabaseError,
    /// A range field was present but could not be decoded.
    ParseError,
    /// No range of the dataset contains the address.
    LookupError,
    /// A failure of the storage or connection layer, with its message.
    BackendError(String),
}

} // verus!
