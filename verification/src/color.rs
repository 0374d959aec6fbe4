//! The color palette and the packed attribute byte of a cell.

use vstd::prelude::*;

verus! {

/// The 16-entry text-mode palette. Each entry has a fixed 4-bit
/// numeric code (0 through 15, in declaration order) that is part of
/// the hardware attribute-byte format, so the codes are stated
/// explicitly by [`Color::spec_code`] rather than left to the
/// compiler's layout choices.
#[derive(Debug, Clone, Copy, PartialEq, Eq, Structural)]
pub enum Color {
    Black,
    Blue,
    Green,
    Cyan,
    Red,
    Magenta,
    Brown,
    LightGray,
    DarkGray,
    LightBlue,
    LightGreen,
    LightCyan,
    LightRed,
    Pink,
    Yellow,
    White,
}

impl Color {
    /// The stable numeric code of this palette entry.
    pub open spec fn spec_code(self) -> u8 {
        match self {
            Color::Black => 0,
            Color::Blue => 1,
            Color::Green => 2,
            Color::Cyan => 3,
            Color::Red => 4,
            Color::Magenta => 5,
            Color::Brown => 6,
            Color::LightGray => 7,
            Color::DarkGray => 8,
            Color::LightBlue => 9,
            Color::LightGreen => 10,
            Color::LightCyan => 11,
            Color::LightRed => 12,
            Color::Pink => 13,
            Color::Yellow => 14,
            Color::White => 15,
        }
    }

    /// Returns the 4-bit hardware code of this color.
    pub fn code(self) -> (c: u8)
        ensures
            c == self.spec_code(),
    {
        match self {
            Color::Black => 0,
            Color::Blue => 1,
            Color::Green => 2,
            Color::Cyan => 3,
            Color::Red => 4,
            Color::Magenta => 5,
            Color::Brown => 6,
            Color::LightGray => 7,
            Color::DarkGray => 8,
            Color::LightBlue => 9,
            Color::LightGreen => 10,
            Color::LightCyan => 11,
            Color::LightRed => 12,
            Color::Pink => 13,
            Color::Yellow => 14,
            Color::White => 15,
        }
    }
}

/// A packed color-attribute byte: the background color's code in the
/// high nibble, the foreground color's code in the low nibble. Both
/// nibbles are always valid palette codes because a `ColorCode` can
/// only be built by [`ColorCode::new`] from two `Color` values.
#[derive(Debug, Clone, Copy, PartialEq, Eq, Structural)]
pub struct ColorCode(u8);

impl ColorCode {
    /// The packed byte, as stored beside each glyph in the grid.
    pub closed spec fn spec_value(self) -> u8 {
        self.0
    }

    /// Packs a foreground and a background color into one attribute
    /// byte: sixteen times the background code plus the foreground
    /// code, i.e. background in the high nibble, foreground in the low.
    pub fn new(foreground: Color, background: Color) -> (cc: ColorCode)
        ensures
            cc.spec_value() == background.spec_code() * 16 + foreground.spec_code(),
    {
        let fg: u8 = foreground.code();
        let bg: u8 = background.code();
        assert(fg < 16 && bg < 16 ==> ((bg << 4) | fg) == bg * 16 + fg) by (bit_vector);
        ColorCode((bg << 4) | fg)
    }

    /// Rebuilds a packed attribute from its byte, for reading cells
    /// back out of the grid. Any byte is a valid packing: both of its
    /// nibbles are codes of palette entries.
    pub(crate) fn from_byte(v: u8) -> (cc: ColorCode)
        ensures
            cc.spec_value() == v,
    {
        ColorCode(v)
    }

    /// Returns the packed attribute byte.
    pub fn value(self) -> (v: u8)
        ensures
            v == self.spec_value(),
    {
        self.0
    }
}

} // verus!
