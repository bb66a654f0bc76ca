//! Images as characters that fill half a cell each.
use vstd::prelude::*;

pub mod laws;
pub mod primitive;

verus! {

/// A color of the terminal.
#[derive(Clone, Copy, Debug, PartialEq, Eq, Structural)]
pub enum Color {
    Reset,
    Black,
    Red,
    Green,
    Yellow,
    Blue,
    Magenta,
    Cyan,
    Gray,
    DarkGray,
    LightRed,
    LightGreen,
    LightYellow,
    LightBlue,
    LightMagenta,
    LightCyan,
    White,
    Rgb(u8, u8, u8),
    Indexed(u8),
}

/// A cell: a character in the color `upper`, on a background of the color `lower`.
#[derive(Clone, Copy, Debug, PartialEq, Eq, Structural)]
pub struct HalfBlock {
    pub upper: Color,
    pub lower: Color,
    pub char: char,
}

} // verus!
