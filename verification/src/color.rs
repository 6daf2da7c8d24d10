//! Colors a glyph can be drawn in.

use vstd::prelude::*;

verus! {

/// A terminal color: the sixteen base colors, the terminal's own default,
/// a 24-bit color, or an entry of the 256-color palette.
#[derive(Clone, Copy, Debug, PartialEq, Eq, Structural, Hash)]
pub enum Color {
    /// The terminal's default color.
    Reset,
    Black,
    DarkGrey,
    Red,
    DarkRed,
    Green,
    DarkGreen,
    Yellow,
    DarkYellow,
    Blue,
    DarkBlue,
    Magenta,
    DarkMagenta,
    Cyan,
    DarkCyan,
    White,
    Grey,
    /// A 24-bit color.
    Rgb { r: u8, g: u8, b: u8 },
    /// An entry of the 256-color palette.
    AnsiValue(u8),
}

} // verus!
