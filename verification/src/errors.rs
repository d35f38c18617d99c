//! The error taxonomy: an input-layer failure, a file I/O failure, and
//! corrupt persisted data are distinct, and none is ever silently swallowed.
use vstd::prelude::*;

verus! {

use crate::codec::DecodeError;

/// What went wrong, as surfaced to the controlling application. `Io` and
/// `Corrupt` are distinct so a caller can tell an unreadable file from a
/// readable file holding bytes that are not a saved tree.
#[derive(Debug, Copy, Clone, PartialEq, Eq, Structural)]
pub enum AppError {
    /// A file could not be opened, read, or written.
    Io,
    /// The input layer refused or failed a press, release, move, or query.
    Input,
    /// Persisted bytes do not decode to a tree.
    Corrupt,
}

impl AppError {
    /// Every decoding failure surfaces as corrupt data, never as I/O.
    pub fn from_decode(e: DecodeError) -> (r: AppError)
        ensures
            r == AppError::Corrupt,
    {
        match e {
            DecodeError::UnsupportedVersion => AppError::Corrupt,
            DecodeError::Malformed => AppError::Corrupt,
        }
    }
}

} // verus!
