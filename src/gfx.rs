//! Pixels of the framebuffer: points and packed colours.
use vstd::prelude::*;

verus! {

#[derive(Debug, Clone, Copy, PartialEq, Eq, Structural)]
pub struct Point {
    pub x: i32,
    pub y: i32,
}

/// A rectangle with its top-left corner, width and height.
#[derive(Debug, Clone, Copy, PartialEq, Eq, Structural)]
pub struct Rect {
    pub x: i32,
    pub y: i32,
    pub w: i32,
    pub h: i32,
}

/// A pixel colour split into channels.
#[derive(Debug, Clone, Copy, PartialEq, Eq, Structural)]
pub struct Color {
    pub r: u8,
    pub g: u8,
    pub b: u8,
    pub a: u8,
}

impl Color {
    /// An opaque colour from `0x..RRGGBB`; the top byte is ignored.
    pub fn from_rgb(rgb: u32) -> (res: Self)
        ensures
            res == (Color {
                r: ((rgb & 0xFF0000u32) >> 16u32) as u8,
                g: ((rgb & 0x00FF00u32) >> 8u32) as u8,
                b: (rgb & 0x0000FFu32) as u8,
                a: 255,
            }),
    {
        Self {
            r: ((rgb & 0xFF0000u32) >> 16u32) as u8,
            g: ((rgb & 0x00FF00u32) >> 8u32) as u8,
            b: (rgb & 0x0000FFu32) as u8,
            a: 255,
        }
    }

    /// A colour from `0xAARRGGBB`.
    pub fn from_argb(argb: u32) -> (res: Self)
        ensures
            res == (Color {
                r: ((argb & 0x00FF0000u32) >> 16u32) as u8,
                g: ((argb & 0x0000FF00u32) >> 8u32) as u8,
                b: (argb & 0x000000FFu32) as u8,
                a: ((argb & 0xFF000000u32) >> 24u32) as u8,
            }),
    {
        Self {
            r: ((argb & 0x00FF0000u32) >> 16u32) as u8,
            g: ((argb & 0x0000FF00u32) >> 8u32) as u8,
            b: (argb & 0x000000FFu32) as u8,
            a: ((argb & 0xFF000000u32) >> 24u32) as u8,
        }
    }

    /// The colour packed as `0x00RRGGBB`, without its alpha.
    pub fn to_rgb(&self) -> (res: u32)
        ensures
            res == ((self.r as u32) << 16u32) | ((self.g as u32) << 8u32) | (self.b as u32),
    {
        ((self.r as u32) << 16u32) | ((self.g as u32) << 8u32) | (self.b as u32)
    }
}

} // verus!
