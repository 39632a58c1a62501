//! The error taxonomy surfaced to callers of the dispatcher.
//!
//! Every rejection is terminal for its single request: the dispatcher never
//! retries, and a failed request leaves all session state untouched.

use vstd::prelude::*;

verus! {

/// One error kind per rejection condition of the request protocol.
///
/// The payload, where present, is the offending datum as raw bytes (a
/// language name, a URI scheme, a path), so a transport adapter can build a
/// human-readable message without the library owning any formatting.
#[derive(Debug)]
pub enum ProtoError {
    /// The request envelope was malformed or truncated.
    DecodeError,
    /// The envelope carried an unrecognized request tag (the payload).
    UnknownCommand(u8),
    /// `InitRequest` named a language that is not compiled in.
    UnknownLanguage(Vec<u8>),
    /// `FileRequest` carried a URI whose scheme is not `file`.
    UnsupportedScheme(Vec<u8>),
    /// A `file:` URI that cannot be turned into a local path.
    InvalidFilePath(Vec<u8>),
    /// The resolved path names a directory, not a regular file.
    NotAFile(Vec<u8>),
    /// The resolved path does not exist.
    FileNotFound(Vec<u8>),
    /// The file existed but reading it failed mid-way.
    IoError(Vec<u8>),
    /// A `FileRequest` arrived before any successful `InitRequest`.
    EngineNotConfigured,
    /// The external engine rejected its configuration or returned no tree.
    EngineFailure,
}

impl ProtoError {
    /// Protocol-level faults of the request itself are client errors; decode,
    /// I/O and engine failures are server errors.
    pub open spec fn spec_status_code(&self) -> u16 {
        match self {
            ProtoError::DecodeError => 500,
            ProtoError::IoError(_) => 500,
            ProtoError::EngineFailure => 500,
            _ => 400,
        }
    }

    /// The stable external status for this error kind.
    pub fn status_code(&self) -> (code: u16)
        ensures
            code == self.spec_status_code(),
    {
        match self {
            ProtoError::DecodeError => 500,
            ProtoError::IoError(_) => 500,
            ProtoError::EngineFailure => 500,
            _ => 400,
        }
    }
}

} // verus!
