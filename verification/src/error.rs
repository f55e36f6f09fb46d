use vstd::prelude::*;

verus! {

/// The typed failures of format detection and layout resolution.
///
/// All of them are recoverable: the caller is expected to decline to apply
/// this format to the image, never to abort.
#[derive(Clone, Copy, Debug, PartialEq, Eq, Structural)]
pub enum ResolveError {
    /// No recognized format tag is present at the tag offset; the image does
    /// not belong to this firmware family and resolution should not be run.
    UnsupportedFormat,
    /// The image is too short to contain a required header field (the tag
    /// window, the version window, or the base-address field).
    Truncated,
    /// The version window is not valid UTF-8 text.
    InvalidVersionEncoding,
    /// The leading dot-separated component of the version text cannot be
    /// parsed as an unsigned 64-bit integer.
    InvalidVersionFormat,
}

} // verus!
