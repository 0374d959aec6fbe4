//! A text-mode console driver for a fixed-size character grid.
//!
//! The grid is `HEIGHT` rows by `WIDTH` columns of two-byte cells
//! (one glyph byte, one color-attribute byte). Writes land in the
//! bottom row; a newline or a full row scrolls everything up by one
//! row and blanks the bottom row. Every cell store goes through a
//! volatile write so that a memory-mapped display observes each one.

mod cell;
mod color;
mod laws;
mod model;
mod vram;
mod writer;

pub use cell::ScreenChar;
pub use cell::cell_attr;
pub use cell::cell_glyph;
pub use cell::encode_cell;
pub use color::Color;
pub use color::ColorCode;
pub use laws::lemma_consecutive_newlines_blank;
pub use laws::lemma_fill_bottom_row;
pub use laws::lemma_newline_only_scrolls;
pub use laws::lemma_row_overflow;
pub use laws::lemma_string_step_append;
pub use laws::lemma_unprintable_byte_replaced;
pub use laws::lemma_write_byte_at_cursor;
pub use laws::newlines;
pub use model::BLANK_GLYPH;
pub use model::BUFFER_HEIGHT;
pub use model::BUFFER_WIDTH;
pub use model::GRID_CELLS;
pub use model::NEWLINE;
pub use model::REPLACEMENT_GLYPH;
pub use model::blank_cell;
pub use model::byte_step;
pub use model::cell_index;
pub use model::is_printable;
pub use model::normalize_byte;
pub use model::scroll;
pub use model::string_step;
pub use writer::Writer;
