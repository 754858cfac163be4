//! Pixel and image interfaces of the screen-capture side.
//!
//! The pixel type here mirrors the 32-bit `0x00RRGGBB` layout that both
//! capture backends hand over, which is why its fields sit in b, g, r
//! order. It is distinct from the LED strip's color type in
//! [`crate::types`].

use vstd::prelude::*;

verus! {

/// One screen pixel; the field order matches the capture backends' native
/// `0x00RRGGBB` words.
#[derive(Debug, Default, Copy, Clone, Eq, PartialEq, Structural)]
pub struct RGB {
    /// Blue channel.
    pub b: u8,
    /// Green channel.
    pub g: u8,
    /// Red channel.
    pub r: u8,
}

impl RGB {
    /// The pixel packed in an `0x00RRGGBB` word.
    pub fn from_i32(v: i32) -> (p: RGB)
        ensures
            p.r == ((v >> 16) & 0xFF) as u8,
            p.g == ((v >> 8) & 0xFF) as u8,
            p.b == (v & 0xFF) as u8,
    {
        proof {
            assert(0 <= (v >> 16) & 0xFF < 256 && 0 <= (v >> 8) & 0xFF < 256 && 0 <= v & 0xFF
                < 256) by (bit_vector);
        }
        RGB { r: ((v >> 16) & 0xFF) as u8, g: ((v >> 8) & 0xFF) as u8, b: (v & 0xFF) as u8 }
    }

    /// All channels zero.
    pub fn black() -> (p: RGB)
        ensures
            p == (RGB { r: 0, g: 0, b: 0 }),
    {
        RGB { r: 0, g: 0, b: 0 }
    }

    /// Full red and green.
    pub fn yellow() -> (p: RGB)
        ensures
            p == (RGB { r: 255, g: 255, b: 0 }),
    {
        RGB { r: 255, g: 255, b: 0 }
    }

    /// Full green and blue.
    pub fn cyan() -> (p: RGB)
        ensures
            p == (RGB { r: 0, g: 255, b: 255 }),
    {
        RGB { r: 0, g: 255, b: 255 }
    }

    /// Full red and blue.
    pub fn magenta() -> (p: RGB)
        ensures
            p == (RGB { r: 255, g: 0, b: 255 }),
    {
        RGB { r: 255, g: 0, b: 255 }
    }

    /// All channels full.
    pub fn white() -> (p: RGB)
        ensures
            p == (RGB { r: 255, g: 255, b: 255 }),
    {
        RGB { r: 255, g: 255, b: 255 }
    }
}

/// A desktop resolution.
#[derive(Debug, Default, Copy, Clone, Eq, PartialEq, Structural)]
pub struct Resolution {
    /// Width in pixels.
    pub width: u32,
    /// Height in pixels.
    pub height: u32,
}

/// Read access to a rectangular pixel grid. Capture backends implement
/// this; so does [`crate::raster_image::RasterImage`].
pub trait Image {
    /// The implementation's internal consistency; pixel access asks for it.
    spec fn inv(&self) -> bool;

    /// The width, as the specification sees it.
    spec fn spec_width(&self) -> u32;

    /// The height, as the specification sees it.
    spec fn spec_height(&self) -> u32;

    /// The pixel value at a coordinate, as the specification sees it.
    spec fn spec_pixel(&self, x: int, y: int) -> RGB;

    /// The width of the image.
    fn get_width(&self) -> (r: u32)
        requires
            self.inv(),
        ensures
            r == self.spec_width(),
    ;

    /// The height of the image.
    fn get_height(&self) -> (r: u32)
        requires
            self.inv(),
        ensures
            r == self.spec_height(),
    ;

    /// The pixel at `(x, y)`; the coordinate must lie inside the image.
    fn get_pixel(&self, x: u32, y: u32) -> (r: RGB)
        requires
            self.inv(),
            x < self.spec_width(),
            y < self.spec_height(),
        ensures
            r == self.spec_pixel(x as int, y as int),
    ;
}

} // verus!
