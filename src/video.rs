//! Video modes.
use vstd::prelude::*;

verus! {

/// A resolution and a colour depth in bits per pixel.
#[derive(Debug, Clone, Copy, PartialEq, Eq, Structural)]
pub struct VideoMode {
    pub width: usize,
    pub height: usize,
    pub bpp: u16,
}

} // verus!
