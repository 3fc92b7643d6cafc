//! Pixel formats and RGB pixels.

use vstd::prelude::*;

verus! {

/// The pixel layouts a framebuffer can use.
#[derive(Clone, Copy, Debug, PartialEq, Eq, Structural)]
pub enum PixelFormat {
    /// One byte of gray level per pixel (8 bpp).
    Grayscale8,
    /// 16-bit RGB 5:6:5 (16 bpp).
    Rgb565,
    /// 24-bit RGB 8:8:8 (24 bpp).
    Rgb888,
    /// 32-bit BGR with one reserved byte (32 bpp).
    BgrReserved,
}

/// The number of bytes that one pixel of the given format occupies.
pub open spec fn format_nbytes(format: PixelFormat) -> nat {
    match format {
        PixelFormat::Grayscale8 => 1,
        PixelFormat::Rgb565 => 2,
        PixelFormat::Rgb888 => 3,
        PixelFormat::BgrReserved => 4,
    }
}

impl PixelFormat {
    /// Returns the number of bytes per pixel.
    pub fn nbytes(&self) -> (n: usize)
        ensures
            n == format_nbytes(*self),
            1 <= n <= 4,
    {
        match self {
            PixelFormat::Grayscale8 => 1,
            PixelFormat::Rgb565 => 2,
            PixelFormat::Rgb888 => 3,
            PixelFormat::BgrReserved => 4,
        }
    }
}

/// An RGB pixel with 8 bits per channel.
#[derive(Clone, Copy, Debug, PartialEq, Eq, Structural)]
pub struct Pixel {
    pub red: u8,
    pub green: u8,
    pub blue: u8,
}

/// The black pixel.
pub open spec fn black() -> Pixel {
    Pixel { red: 0, green: 0, blue: 0 }
}

} // verus!
