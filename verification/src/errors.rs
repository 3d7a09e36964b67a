//! Error taxonomy of the pipeline.

use vstd::prelude::*;

verus! {

/// One failure kind per pipeline stage: unreadable source bytes,
/// bytes that are not a valid image, a geometry mismatch, or a
/// corrupted embedded model blob.
#[derive(Clone, Copy, Debug, PartialEq, Eq, Structural)]
pub enum CaptchaError {
    /// The source bytes could not be read at all (missing file,
    /// invalid base64).
    InputError,
    /// The bytes are not a valid image in the expected encoding.
    DecodeError,
    /// A buffer length, grid shape, or block rectangle does not match
    /// the fixed expected geometry.
    ShapeError,
    /// The embedded model blob could not be parsed.
    ModelLoadError,
}

} // verus!
