//! Display colors as plain red/green/blue triples. The engine never
//! interprets them; they are carried on tiles, entities and log entries for
//! whatever renderer sits outside.

use vstd::prelude::*;

verus! {

/// An opaque display attribute: a 24-bit color.
#[derive(Clone, Copy, Debug, PartialEq, Eq, Structural)]
pub struct Color {
    pub r: u8,
    pub g: u8,
    pub b: u8,
}

pub open spec fn white_color() -> Color {
    Color { r: 255, g: 255, b: 255 }
}

pub open spec fn red_color() -> Color {
    Color { r: 255, g: 0, b: 0 }
}

pub open spec fn dark_red_color() -> Color {
    Color { r: 191, g: 0, b: 0 }
}

pub open spec fn orange_color() -> Color {
    Color { r: 255, g: 127, b: 0 }
}

pub open spec fn desaturated_green_color() -> Color {
    Color { r: 63, g: 127, b: 63 }
}

pub open spec fn darker_green_color() -> Color {
    Color { r: 0, g: 127, b: 0 }
}

pub fn white() -> (c: Color)
    ensures
        c == white_color(),
{
    Color { r: 255, g: 255, b: 255 }
}

pub fn red() -> (c: Color)
    ensures
        c == red_color(),
{
    Color { r: 255, g: 0, b: 0 }
}

pub fn dark_red() -> (c: Color)
    ensures
        c == dark_red_color(),
{
    Color { r: 191, g: 0, b: 0 }
}

pub fn orange() -> (c: Color)
    ensures
        c == orange_color(),
{
    Color { r: 255, g: 127, b: 0 }
}

pub fn desaturated_green() -> (c: Color)
    ensures
        c == desaturated_green_color(),
{
    Color { r: 63, g: 127, b: 63 }
}

pub fn darker_green() -> (c: Color)
    ensures
        c == darker_green_color(),
{
    Color { r: 0, g: 127, b: 0 }
}

} // verus!
