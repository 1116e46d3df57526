use vstd::prelude::*;

verus! {

/// The errors that the adapter reports to its host.
#[derive(Debug, Clone, PartialEq, Eq)]
pub enum CodecError {
    /// The operation needs a prior successful initialisation.
    NotInitialized,
    /// The decoder rejected the image; its diagnostic message is kept.
    BadImage(String),
    /// The frame index is out of range, or rendering that frame failed.
    FrameMissing,
    /// The destination cannot represent the source channel layout.
    UnsupportedPixelFormat,
    /// The operation is intentionally not implemented.
    UnsupportedOperation,
    /// The codec does not carry embedded thumbnails.
    NoThumbnail,
    /// An absent or out-of-range rectangle, or a buffer too small for it.
    InvalidArgument,
    /// The underlying byte source failed; its status code is kept.
    IoError(i32),
}

} // verus!
