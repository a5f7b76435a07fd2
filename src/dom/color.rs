//! Colours of the document model.
use vstd::prelude::*;
use vstd::string::*;

verus! {

/// A colour with an alpha channel.
#[derive(Debug, Clone, Copy, PartialEq, Eq, Structural)]
pub struct Color {
    pub r: u8,
    pub g: u8,
    pub b: u8,
    pub a: u8,
}

/// The colour packed as `0xAARRGGBB`.
pub open spec fn argb_of(c: Color) -> u32 {
    ((c.a as u32) << 24u32) | ((c.r as u32) << 16u32) | ((c.g as u32) << 8u32) | (c.b as u32)
}

/// The opaque colour a lower-case name stands for.
pub open spec fn named_color(name: Seq<char>) -> Option<Color> {
    if name == "black"@ {
        Some(Color { r: 0, g: 0, b: 0, a: 255 })
    } else if name == "white"@ {
        Some(Color { r: 255, g: 255, b: 255, a: 255 })
    } else if name == "red"@ {
        Some(Color { r: 255, g: 0, b: 0, a: 255 })
    } else if name == "green"@ {
        Some(Color { r: 0, g: 255, b: 0, a: 255 })
    } else if name == "blue"@ {
        Some(Color { r: 0, g: 0, b: 255, a: 255 })
    } else {
        None
    }
}

/// What `str::to_lowercase` makes of a string.
pub uninterp spec fn lower_of(s: Seq<char>) -> Seq<char>;

/// Relies on str::to_lowercase: the lower-case form depends on the
/// characters alone.
#[verifier::external_body]
fn lowercase(s: &str) -> (r: String)
    ensures
        r@ == lower_of(s@),
{
    s.to_lowercase()
}

impl Color {
    pub fn new(r: u8, g: u8, b: u8, a: u8) -> (res: Self)
        ensures
            res == (Color { r, g, b, a }),
    {
        Self { r, g, b, a }
    }

    /// The colour packed as `0xAARRGGBB`.
    pub fn to_argb(&self) -> (res: u32)
        ensures
            res == argb_of(*self),
    {
        ((self.a as u32) << 24u32) | ((self.r as u32) << 16u32) | ((self.g as u32) << 8u32) | (
        self.b as u32)
    }

    /// The colour a lower-case name stands for.
    pub fn from_lower_name(name: &str) -> (res: Option<Color>)
        ensures
            res == named_color(name@),
    {
        let n = String::from_str(name);
        proof {
            reveal_strlit("black");
            reveal_strlit("white");
            reveal_strlit("red");
            reveal_strlit("green");
            reveal_strlit("blue");
        }
        if n == String::from_str("black") {
            Some(Color::new(0, 0, 0, 255))
        } else if n == String::from_str("white") {
            Some(Color::new(255, 255, 255, 255))
        } else if n == String::from_str("red") {
            Some(Color::new(255, 0, 0, 255))
        } else if n == String::from_str("green") {
            Some(Color::new(0, 255, 0, 255))
        } else if n == String::from_str("blue") {
            Some(Color::new(0, 0, 255, 255))
        } else {
            None
        }
    }

    /// The colour a name stands for, in any case.
    pub fn try_from_name(name: &str) -> (res: Result<Color, ()>)
        ensures
            res == (match named_color(lower_of(name@)) {
                Some(c) => Ok::<Color, ()>(c),
                None => Err::<Color, ()>(()),
            }),
    {
        let lower = lowercase(name);
        match Color::from_lower_name(lower.as_str()) {
            Some(c) => Ok(c),
            None => Err(()),
        }
    }
}

} // verus!
