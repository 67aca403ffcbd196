//! Errors reported by the library.
use vstd::prelude::*;

verus! {

/// What went wrong.
#[derive(Debug, PartialEq, Eq)]
pub enum AudioError {
    /// A parameter is out of its valid range; the message says which.
    InvalidParameter(String),

    /// The stream holds data that cannot be used as asked; the message says why.
    InvalidData(String),

    /// The requested sample format is not the one the data is in.
    FormatMismatch,

    /// The decoder needs more input before it can deliver another frame.
    Eagain,
}

} // verus!
