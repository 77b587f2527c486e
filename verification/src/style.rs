//! Style vocabulary shared by the recorder, the classifier and the expander.

use vstd::prelude::*;

verus! {

/// An 8-bit RGBA colour.
#[derive(Copy, Clone, Debug, PartialEq, Eq, Structural)]
pub struct Color {
    pub r: u8,
    pub g: u8,
    pub b: u8,
    pub a: u8,
}

impl Color {
    /// Builds a colour from its four channels.
    pub fn rgba(r: u8, g: u8, b: u8, a: u8) -> (c: Color)
        ensures
            c == (Color { r, g, b, a }),
    {
        Color { r, g, b, a }
    }
}

/// Orientation requested for a sub-path.
#[derive(Copy, Clone, Debug, PartialEq, Eq, Structural)]
pub enum Winding {
    CCW,
    CW,
}

/// Shape of the two ends of an open sub-path.
#[derive(Copy, Clone, Debug, PartialEq, Eq, Structural)]
pub enum LineCap {
    Butt,
    Round,
    Square,
}

/// Shape of the corner between two segments.
#[derive(Copy, Clone, Debug, PartialEq, Eq, Structural)]
pub enum LineJoin {
    Round,
    Bevel,
    Miter,
}

/// `a` limited to the interval from `mn` to `mx`; the lower limit is tested
/// first, so it wins where the interval is empty and `a` lies below it.
pub open spec fn clamp_spec(a: int, mn: int, mx: int) -> int {
    if a < mn {
        mn
    } else if a > mx {
        mx
    } else {
        a
    }
}

/// Limits `a` to the interval from `mn` to `mx`.
pub fn clamp(a: usize, mn: usize, mx: usize) -> (r: usize)
    ensures
        r == clamp_spec(a as int, mn as int, mx as int),
{
    if a < mn {
        mn
    } else {
        if a > mx {
            mx
        } else {
            a
        }
    }
}

} // verus!
