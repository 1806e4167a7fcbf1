use vstd::prelude::*;

verus! {

/// The error taxonomy of the library.
///
/// - `CommandFailed` carries a message naming the offending command or
///   context (an external process could not be launched, or exited with
///   a non-success status).
/// - `NotFound` means a required lookup (a profile name, the installed
///   tool) did not resolve.
/// - `IoError` wraps the text of the underlying filesystem error; the
///   caller that performed the read or write supplies it.
/// - `ParseError` means a persisted document could not be decoded into
///   the expected structure.
#[derive(Debug)]
pub enum GitError {
    CommandFailed(String),
    NotFound,
    IoError(String),
    ParseError,
}

} // verus!
