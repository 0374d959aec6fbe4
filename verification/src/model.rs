//! The mathematical model of the console: what one byte, or a whole
//! byte sequence, does to the grid and the cursor column.

use vstd::prelude::*;

use crate::cell::encode_cell;

verus! {

/// Number of rows in the grid.
pub const BUFFER_HEIGHT: usize = 25;

/// Number of columns in the grid.
pub const BUFFER_WIDTH: usize = 80;

/// Number of cells in the whole row-major grid.
pub const GRID_CELLS: usize = BUFFER_HEIGHT * BUFFER_WIDTH;

/// The newline byte, which scrolls instead of being stored.
pub const NEWLINE: u8 = 0x0a;

/// The glyph stored in place of a byte outside printable ASCII.
pub const REPLACEMENT_GLYPH: u8 = 0xfe;

/// The glyph of an empty cell.
pub const BLANK_GLYPH: u8 = 0x20;

/// Whether a byte is printable ASCII.
pub open spec fn is_printable(b: u8) -> bool {
    0x20 <= b <= 0x7e
}

/// The index of the cell at (row, col) in the row-major grid.
pub open spec fn cell_index(row: int, col: int) -> int {
    row * BUFFER_WIDTH + col
}

/// An empty cell: a space glyph under the given attribute.
pub open spec fn blank_cell(attr: u8) -> u16 {
    encode_cell(BLANK_GLYPH, attr)
}

/// The grid after one scroll: every cell takes the value one row
/// below it, and the bottom row becomes blank under the given
/// attribute. The old top row is discarded.
pub open spec fn scroll(g: Seq<u16>, attr: u8) -> Seq<u16> {
    Seq::new(
        g.len(),
        |i: int|
            if i < g.len() - BUFFER_WIDTH {
                g[i + BUFFER_WIDTH]
            } else {
                blank_cell(attr)
            },
    )
}

/// The (grid, column) state after one byte lands: a newline scrolls
/// and resets the column; any other byte first scrolls if the bottom
/// row is full, then is stored at the cursor, advancing it.
pub open spec fn byte_step(g: Seq<u16>, col: nat, attr: u8, byte: u8) -> (Seq<u16>, nat) {
    if byte == NEWLINE {
        (scroll(g, attr), 0nat)
    } else if col >= BUFFER_WIDTH {
        (
            scroll(g, attr).update(
                cell_index(BUFFER_HEIGHT - 1, 0),
                encode_cell(byte, attr),
            ),
            1nat,
        )
    } else {
        (
            g.update(cell_index(BUFFER_HEIGHT - 1, col as int), encode_cell(byte, attr)),
            col + 1,
        )
    }
}

/// The normalization applied to each byte of a written string:
/// printable ASCII and newline pass through unchanged; every other
/// byte becomes the replacement glyph.
pub open spec fn normalize_byte(b: u8) -> u8 {
    if is_printable(b) || b == NEWLINE {
        b
    } else {
        REPLACEMENT_GLYPH
    }
}

/// The (grid, column) state after a whole byte sequence is written,
/// each byte normalized and then applied in order.
pub open spec fn string_step(g: Seq<u16>, col: nat, attr: u8, bytes: Seq<u8>) -> (Seq<u16>, nat)
    decreases bytes.len(),
{
    if bytes.len() == 0 {
        (g, col)
    } else {
        let next = byte_step(g, col, attr, normalize_byte(bytes[0]));
        string_step(next.0, next.1, attr, bytes.drop_first())
    }
}

} // verus!
