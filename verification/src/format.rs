//! Pixel formats supported for shared-memory buffers, and the number of
//! bytes each one occupies per pixel.

use vstd::prelude::*;

verus! {

/// A pixel format a shared-memory buffer can carry.
#[derive(Clone, Copy, Debug, PartialEq, Eq, Structural)]
pub enum PixelFormat {
    Argb8888,
    Xrgb8888,
    Abgr8888,
    Xbgr8888,
    Argb4444,
    Xrgb4444,
    Argb1555,
    Xrgb1555,
    Rgb565,
    Rgb888,
}

/// Bytes per pixel of a format, as a mathematical function.
pub open spec fn spec_bytes_per_pixel(format: PixelFormat) -> u32 {
    match format {
        PixelFormat::Argb8888 => 4,
        PixelFormat::Xrgb8888 => 4,
        PixelFormat::Abgr8888 => 4,
        PixelFormat::Xbgr8888 => 4,
        PixelFormat::Argb4444 => 2,
        PixelFormat::Xrgb4444 => 2,
        PixelFormat::Argb1555 => 2,
        PixelFormat::Xrgb1555 => 2,
        PixelFormat::Rgb565 => 2,
        PixelFormat::Rgb888 => 3,
    }
}

/// Returns how many bytes one pixel of `format` occupies.
pub fn bytes_per_pixel(format: PixelFormat) -> (r: u32)
    ensures
        r == spec_bytes_per_pixel(format),
        2 <= r <= 4,
{
    match format {
        PixelFormat::Argb8888 => 4,
        PixelFormat::Xrgb8888 => 4,
        PixelFormat::Abgr8888 => 4,
        PixelFormat::Xbgr8888 => 4,
        PixelFormat::Argb4444 => 2,
        PixelFormat::Xrgb4444 => 2,
        PixelFormat::Argb1555 => 2,
        PixelFormat::Xrgb1555 => 2,
        PixelFormat::Rgb565 => 2,
        PixelFormat::Rgb888 => 3,
    }
}

} // verus!
