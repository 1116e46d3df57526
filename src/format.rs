use vstd::prelude::*;

use crate::error::CodecError;

verus! {

/// Channel layout of a decoded frame.
#[derive(Debug, Clone, Copy, PartialEq, Eq, Structural)]
pub enum PixelFormat {
    Gray,
    GrayAlpha,
    Rgb,
    Rgba,
    Cmyk,
    Cmyka,
}

/// Destination pixel formats that a frame can be copied out as.
#[derive(Debug, Clone, Copy, PartialEq, Eq, Structural)]
pub enum WicPixelFormat {
    /// One 16-bit gray channel.
    Gray16,
    /// Three 16-bit channels, red, green, blue.
    Rgb48,
    /// Four 16-bit channels, red, green, blue, alpha.
    Rgba64,
    /// Four 16-bit channels, cyan, magenta, yellow, black.
    Cmyk64,
    /// Five 16-bit channels, cyan, magenta, yellow, black, alpha.
    CmykAlpha80,
    /// Four 8-bit channels in blue, green, red, alpha order.
    Bgra32,
}

pub open spec fn channel_count_spec(f: PixelFormat) -> nat {
    match f {
        PixelFormat::Gray => 1,
        PixelFormat::GrayAlpha => 2,
        PixelFormat::Rgb => 3,
        PixelFormat::Rgba => 4,
        PixelFormat::Cmyk => 4,
        PixelFormat::Cmyka => 5,
    }
}

/// The 16-bit destination format for each channel layout; gray with alpha
/// has none.
pub open spec fn wide_format_spec(f: PixelFormat) -> Option<WicPixelFormat> {
    match f {
        PixelFormat::Gray => Some(WicPixelFormat::Gray16),
        PixelFormat::GrayAlpha => None,
        PixelFormat::Rgb => Some(WicPixelFormat::Rgb48),
        PixelFormat::Rgba => Some(WicPixelFormat::Rgba64),
        PixelFormat::Cmyk => Some(WicPixelFormat::Cmyk64),
        PixelFormat::Cmyka => Some(WicPixelFormat::CmykAlpha80),
    }
}

impl PixelFormat {
    /// Number of interleaved channels of a pixel in this layout.
    pub fn channel_count(self) -> (r: usize)
        ensures
            r == channel_count_spec(self),
            1 <= r <= 5,
    {
        match self {
            PixelFormat::Gray => 1,
            PixelFormat::GrayAlpha => 2,
            PixelFormat::Rgb => 3,
            PixelFormat::Rgba => 4,
            PixelFormat::Cmyk => 4,
            PixelFormat::Cmyka => 5,
        }
    }

    /// The 16-bit destination format that frames of this layout are copied
    /// out as; gray with alpha is rejected.
    pub fn wide_format(self) -> (r: Result<WicPixelFormat, CodecError>)
        ensures
            match wide_format_spec(self) {
                Some(w) => r == Ok::<WicPixelFormat, CodecError>(w),
                None => r == Err::<WicPixelFormat, CodecError>(CodecError::UnsupportedPixelFormat),
            },
    {
        match self {
            PixelFormat::Gray => Ok(WicPixelFormat::Gray16),
            PixelFormat::GrayAlpha => Err(CodecError::UnsupportedPixelFormat),
            PixelFormat::Rgb => Ok(WicPixelFormat::Rgb48),
            PixelFormat::Rgba => Ok(WicPixelFormat::Rgba64),
            PixelFormat::Cmyk => Ok(WicPixelFormat::Cmyk64),
            PixelFormat::Cmyka => Ok(WicPixelFormat::CmykAlpha80),
        }
    }
}

} // verus!
