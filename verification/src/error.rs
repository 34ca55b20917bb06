//! Error vocabulary of the record decoder.

use vstd::prelude::*;

verus! {

/// Failure of one decode or projection call.
///
/// A single malformed record fails only its own decode call; nothing is
/// retried and no shared state is poisoned.
#[derive(Debug, Clone, PartialEq, Eq)]
pub enum UsnError {
    /// Structural violation of a fixed-shape record: a bad length or version
    /// on a strict single-shape entry point, or a name length that exceeds
    /// the stated record length.
    InvalidRecord(String),
    /// Recognized-but-unimplemented or unrecognized major version.
    UnsupportedVersion(u16),
    /// A name payload that could not be decoded; carries diagnostic context.
    /// Name decoding drops undecodable code units instead of failing, so no
    /// input produced by the decoder's entry points reaches this variant; it
    /// completes the error vocabulary for callers that match on it.
    Utf16DecodeError(String),
    /// The input buffer ended before the record did.
    IoError,
    /// Internal invariant violation while assembling the structured value.
    /// The typed projection cannot produce a non-object value, so no input
    /// reaches this variant either.
    ProjectionError,
}

} // verus!
