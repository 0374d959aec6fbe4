//! One character cell: a glyph byte and an attribute byte, packed
//! into the two-byte unit the display hardware expects.

use vstd::prelude::*;

use crate::color::ColorCode;

verus! {

/// One on-screen character: an ASCII glyph and its color attribute.
#[derive(Debug, Clone, Copy, PartialEq, Eq, Structural)]
pub struct ScreenChar {
    pub ascii_character: u8,
    pub color_code: ColorCode,
}

/// The two-byte wire format of a cell: the glyph in the low byte,
/// the attribute in the high byte.
pub open spec fn encode_cell(glyph: u8, attr: u8) -> u16 {
    (attr * 256 + glyph) as u16
}

/// The glyph byte of a packed cell.
pub open spec fn cell_glyph(cell: u16) -> u8 {
    (cell % 256) as u8
}

/// The attribute byte of a packed cell.
pub open spec fn cell_attr(cell: u16) -> u8 {
    (cell / 256) as u8
}

/// Packing a glyph and an attribute and reading either back returns
/// what was packed.
pub proof fn lemma_cell_roundtrip(glyph: u8, attr: u8)
    ensures
        cell_glyph(encode_cell(glyph, attr)) == glyph,
        cell_attr(encode_cell(glyph, attr)) == attr,
{
    let v: int = attr * 256 + glyph;
    assert(v % 256 == glyph && v / 256 == attr) by (nonlinear_arith)
        requires
            v == attr * 256 + glyph,
            0 <= glyph < 256,
            0 <= attr < 256,
    ;
}

} // verus!
