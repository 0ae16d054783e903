//! The error taxonomy of the library.

use vstd::prelude::*;
use vstd::string::StringExecFns;

verus! {

/// Every failure the library reports. All failures surface to the caller as
/// one of these variants; none are silently swallowed and nothing is retried.
#[derive(Debug, Clone)]
pub enum HashassinError {
    /// An underlying file or stream failure, carried as its message.
    IoError(String),
    /// An unrecognized algorithm name, carried as the offending name.
    InvalidAlgorithm(String),
    /// A malformed or truncated hash container, or a field too large for
    /// its one-byte encoding.
    InvalidOutputFormat,
    /// A zero numeric input, or inconsistent password lengths in a batch.
    InvalidParameters(String),
    /// The lock on the shared result collection was poisoned.
    ThreadLockError,
    /// A worker thread could not be joined.
    ThreadJoinError,
}

impl HashassinError {
    /// A human-readable description of the error.
    pub fn message(&self) -> (m: String)
        ensures
            m@ == match *self {
                HashassinError::IoError(e) => "IO error: "@ + e@,
                HashassinError::InvalidAlgorithm(a) => "Invalid algorithm: "@ + a@,
                HashassinError::InvalidOutputFormat => "Invalid output file format"@,
                HashassinError::InvalidParameters(msg) => "Invalid parameters: "@ + msg@,
                HashassinError::ThreadLockError => "Thread lock error"@,
                HashassinError::ThreadJoinError => "Thread join error"@,
            },
    {
        match self {
            HashassinError::IoError(e) => "IO error: ".to_owned().concat(e.as_str()),
            HashassinError::InvalidAlgorithm(a) => {
                "Invalid algorithm: ".to_owned().concat(a.as_str())
            },
            HashassinError::InvalidOutputFormat => "Invalid output file format".to_owned(),
            HashassinError::InvalidParameters(msg) => {
                "Invalid parameters: ".to_owned().concat(msg.as_str())
            },
            HashassinError::ThreadLockError => "Thread lock error".to_owned(),
            HashassinError::ThreadJoinError => "Thread join error".to_owned(),
        }
    }
}

} // verus!
