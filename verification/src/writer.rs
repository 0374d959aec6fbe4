//! The console writer: byte- and string-level writes into the bottom
//! row of the grid, with scroll-on-newline and scroll-on-overflow.

use vstd::prelude::*;
use vstd::string::StringSliceAdditionalSpecFns;

use crate::cell::ScreenChar;
use crate::cell::cell_attr;
use crate::cell::cell_glyph;
use crate::cell::encode_cell;
use crate::color::Color;
use crate::color::ColorCode;
use crate::model::BLANK_GLYPH;
use crate::model::BUFFER_HEIGHT;
use crate::model::BUFFER_WIDTH;
use crate::model::GRID_CELLS;
use crate::model::NEWLINE;
use crate::model::REPLACEMENT_GLYPH;
use crate::model::blank_cell;
use crate::model::byte_step;
use crate::model::cell_index;
use crate::model::scroll;
use crate::model::string_step;
use crate::model::normalize_byte;
use crate::vram::vol_new;
use crate::vram::vol_read;
use crate::vram::vol_val;
use crate::vram::vol_write;

verus! {

/// The console writer: a grid of volatile cells, the cursor column in
/// the bottom row, and the active color attribute.
pub struct Writer {
    column_position: usize,
    color_code: ColorCode,
    buffer: Vec<volatile::Volatile<u16>>,
}

impl Writer {
    /// The grid as a row-major sequence of packed cells.
    pub closed spec fn grid(self) -> Seq<u16> {
        self.buffer@.map_values(|c: volatile::Volatile<u16>| vol_val(c))
    }

    /// The current cursor column (`BUFFER_WIDTH` means the row is full).
    pub closed spec fn spec_column(self) -> nat {
        self.column_position as nat
    }

    /// The active attribute byte.
    pub closed spec fn spec_attr(self) -> u8 {
        self.color_code.spec_value()
    }

    /// The packed cell stored at (row, col).
    pub open spec fn spec_cell(self, row: int, col: int) -> u16 {
        self.grid()[cell_index(row, col)]
    }

    /// Well-formedness: the grid holds every cell and the cursor has
    /// not left the row.
    pub open spec fn wf(self) -> bool {
        self.grid().len() == GRID_CELLS && self.spec_column() <= BUFFER_WIDTH
    }

    /// Creates a writer over a blank grid: every cell a space under
    /// the attribute packed from the two colors, cursor at column 0.
    pub fn new(foreground: Color, background: Color) -> (w: Writer)
        ensures
            w.wf(),
            w.spec_column() == 0,
            w.spec_attr() == background.spec_code() * 16 + foreground.spec_code(),
            forall|i: int| 0 <= i < GRID_CELLS ==> w.grid()[i] == blank_cell(w.spec_attr()),
    {
        let color_code = ColorCode::new(foreground, background);
        let attr = color_code.value();
        let blank: u16 = (attr as u16) * 256 + (BLANK_GLYPH as u16);
        assert(blank == blank_cell(attr));
        let mut buffer: Vec<volatile::Volatile<u16>> = Vec::new();
        let mut i: usize = 0;
        while i < GRID_CELLS
            invariant
                i <= GRID_CELLS,
                buffer@.len() == i,
                forall|j: int| 0 <= j < i ==> vol_val(buffer@[j]) == blank,
                blank == blank_cell(attr),
            decreases GRID_CELLS - i,
        {
            buffer.push(vol_new(blank));
            i = i + 1;
        }
        let w = Writer { column_position: 0, color_code, buffer };
        assert(forall|j: int| 0 <= j < GRID_CELLS ==> w.grid()[j] == blank_cell(attr));
        w
    }

    /// Reads the packed cell at (row, col) with a volatile load.
    fn get_cell(&self, row: usize, col: usize) -> (v: u16)
        requires
            self.wf(),
            row < BUFFER_HEIGHT,
            col < BUFFER_WIDTH,
        ensures
            v == self.spec_cell(row as int, col as int),
    {
        let idx = row * BUFFER_WIDTH + col;
        vol_read(&self.buffer, idx)
    }

    /// Stores one packed cell at (row, col) with a volatile store.
    fn set_cell(&mut self, row: usize, col: usize, value: u16)
        requires
            old(self).wf(),
            row < BUFFER_HEIGHT,
            col < BUFFER_WIDTH,
        ensures
            final(self).wf(),
            final(self).grid() == old(self).grid().update(
                cell_index(row as int, col as int),
                value,
            ),
            final(self).spec_column() == old(self).spec_column(),
            final(self).spec_attr() == old(self).spec_attr(),
    {
        let idx = row * BUFFER_WIDTH + col;
        vol_write(&mut self.buffer, idx, value);
        assert(self.grid() =~= old(self).grid().update(
            cell_index(row as int, col as int),
            value,
        ));
    }

    /// Reads the cell at (row, col) back as a glyph and its attribute.
    pub fn read_cell(&self, row: usize, col: usize) -> (sc: ScreenChar)
        requires
            self.wf(),
            row < BUFFER_HEIGHT,
            col < BUFFER_WIDTH,
        ensures
            sc.ascii_character == cell_glyph(self.spec_cell(row as int, col as int)),
            sc.color_code.spec_value() == cell_attr(self.spec_cell(row as int, col as int)),
    {
        let v = self.get_cell(row, col);
        ScreenChar {
            ascii_character: (v % 256) as u8,
            color_code: ColorCode::from_byte((v / 256) as u8),
        }
    }

    /// The current cursor column.
    pub fn column_position(&self) -> (c: usize)
        ensures
            c == self.spec_column(),
    {
        self.column_position
    }

    /// The active color attribute.
    pub fn color_code(&self) -> (cc: ColorCode)
        ensures
            cc.spec_value() == self.spec_attr(),
    {
        self.color_code
    }

    /// Overwrites every cell of the given row with a blank cell under
    /// the active attribute; nothing else changes.
    fn clear_row(&mut self, row: usize)
        requires
            old(self).wf(),
            row < BUFFER_HEIGHT,
        ensures
            final(self).wf(),
            final(self).spec_column() == old(self).spec_column(),
            final(self).spec_attr() == old(self).spec_attr(),
            forall|c: int|
                0 <= c < BUFFER_WIDTH ==> final(self).grid()[cell_index(row as int, c)]
                    == blank_cell(old(self).spec_attr()),
            forall|i: int|
                0 <= i < GRID_CELLS && !(cell_index(row as int, 0) <= i < cell_index(
                    row as int,
                    0,
                ) + BUFFER_WIDTH) ==> final(self).grid()[i] == old(self).grid()[i],
    {
        let attr = self.color_code.value();
        let blank: u16 = (attr as u16) * 256 + (BLANK_GLYPH as u16);
        assert(blank == blank_cell(attr));
        let mut col: usize = 0;
        while col < BUFFER_WIDTH
            invariant
                self.wf(),
                col <= BUFFER_WIDTH,
                row < BUFFER_HEIGHT,
                blank == blank_cell(old(self).spec_attr()),
                self.spec_column() == old(self).spec_column(),
                self.spec_attr() == old(self).spec_attr(),
                forall|c: int|
                    0 <= c < col ==> self.grid()[cell_index(row as int, c)] == blank_cell(
                        old(self).spec_attr(),
                    ),
                forall|i: int|
                    0 <= i < GRID_CELLS && !(cell_index(row as int, 0) <= i < cell_index(
                        row as int,
                        0,
                    ) + col) ==> self.grid()[i] == old(self).grid()[i],
            decreases BUFFER_WIDTH - col,
        {
            self.set_cell(row, col, blank);
            col = col + 1;
        }
    }

    /// Scrolls: every row moves up by one, the bottom row is blanked
    /// under the active attribute, and the cursor returns to column 0.
    fn new_line(&mut self)
        requires
            old(self).wf(),
        ensures
            final(self).wf(),
            final(self).spec_attr() == old(self).spec_attr(),
            final(self).grid() == scroll(old(self).grid(), old(self).spec_attr()),
            final(self).spec_column() == 0,
    {
        let mut row: usize = 1;
        while row < BUFFER_HEIGHT
            invariant
                self.wf(),
                1 <= row <= BUFFER_HEIGHT,
                self.spec_attr() == old(self).spec_attr(),
                forall|i: int|
                    0 <= i < (row - 1) * BUFFER_WIDTH ==> self.grid()[i] == old(self).grid()[i
                        + BUFFER_WIDTH],
                forall|i: int|
                    (row - 1) * BUFFER_WIDTH <= i < GRID_CELLS ==> self.grid()[i] == old(
                        self,
                    ).grid()[i],
            decreases BUFFER_HEIGHT - row,
        {
            let mut col: usize = 0;
            while col < BUFFER_WIDTH
                invariant
                    self.wf(),
                    1 <= row < BUFFER_HEIGHT,
                    col <= BUFFER_WIDTH,
                    self.spec_attr() == old(self).spec_attr(),
                    forall|i: int|
                        0 <= i < (row - 1) * BUFFER_WIDTH + col ==> self.grid()[i] == old(
                            self,
                        ).grid()[i + BUFFER_WIDTH],
                    forall|i: int|
                        (row - 1) * BUFFER_WIDTH + col <= i < GRID_CELLS ==> self.grid()[i] == old(
                            self,
                        ).grid()[i],
                decreases BUFFER_WIDTH - col,
            {
                let character = self.get_cell(row, col);
                self.set_cell(row - 1, col, character);
                col = col + 1;
            }
            row = row + 1;
        }
        self.clear_row(BUFFER_HEIGHT - 1);
        self.column_position = 0;
        proof {
            let attr = old(self).spec_attr();
            let last = (BUFFER_HEIGHT - 1) as int;
            assert forall|i: int| 0 <= i < GRID_CELLS implies self.grid()[i] == scroll(
                old(self).grid(),
                attr,
            )[i] by {
                if i >= cell_index(last, 0) {
                    let c = i - cell_index(last, 0);
                    assert(cell_index(last, c) == i);
                    assert(self.grid()[cell_index(last, c)] == blank_cell(attr));
                }
            }
            assert(self.grid() =~= scroll(old(self).grid(), attr));
        }
    }

    /// Writes one byte at the cursor in the bottom row. A newline only
    /// scrolls; any other byte is stored under the active attribute
    /// (scrolling first if the row is full) and advances the cursor.
    pub fn write_byte(&mut self, byte: u8)
        requires
            old(self).wf(),
        ensures
            final(self).wf(),
            final(self).spec_attr() == old(self).spec_attr(),
            final(self).grid() == byte_step(
                old(self).grid(),
                old(self).spec_column(),
                old(self).spec_attr(),
                byte,
            ).0,
            final(self).spec_column() == byte_step(
                old(self).grid(),
                old(self).spec_column(),
                old(self).spec_attr(),
                byte,
            ).1,
    {
        if byte == NEWLINE {
            self.new_line();
        } else {
            if self.column_position >= BUFFER_WIDTH {
                self.new_line();
            }
            let row = BUFFER_HEIGHT - 1;
            let col = self.column_position;
            let attr = self.color_code.value();
            let cell: u16 = (attr as u16) * 256 + (byte as u16);
            assert(cell == encode_cell(byte, attr));
            self.set_cell(row, col, cell);
            self.column_position = self.column_position + 1;
        }
    }

    /// Writes a string: each byte of its UTF-8 form is forwarded to
    /// `write_byte`, with every byte outside printable ASCII that is
    /// not a newline replaced by the replacement glyph first.
    pub fn write_string(&mut self, s: &str)
        requires
            old(self).wf(),
        ensures
            final(self).wf(),
            final(self).spec_attr() == old(self).spec_attr(),
            final(self).grid() == string_step(
                old(self).grid(),
                old(self).spec_column(),
                old(self).spec_attr(),
                s.spec_bytes(),
            ).0,
            final(self).spec_column() == string_step(
                old(self).grid(),
                old(self).spec_column(),
                old(self).spec_attr(),
                s.spec_bytes(),
            ).1,
    {
        let bytes: &[u8] = s.as_bytes();
        let n = bytes.len();
        assert(bytes@.skip(0) =~= bytes@);
        let mut i: usize = 0;
        while i < n
            invariant
                self.wf(),
                i <= n,
                n == bytes@.len(),
                bytes@ == s.spec_bytes(),
                self.spec_attr() == old(self).spec_attr(),
                string_step(self.grid(), self.spec_column(), self.spec_attr(), bytes@.skip(i as int))
                    == string_step(
                    old(self).grid(),
                    old(self).spec_column(),
                    old(self).spec_attr(),
                    bytes@,
                ),
            decreases n - i,
        {
            let byte = bytes[i];
            let out = if (0x20 <= byte && byte <= 0x7e) || byte == NEWLINE {
                byte
            } else {
                REPLACEMENT_GLYPH
            };
            proof {
                assert(out == normalize_byte(bytes@[i as int]));
                assert(bytes@.skip(i as int)[0] == bytes@[i as int]);
                assert(bytes@.skip(i as int).drop_first() =~= bytes@.skip(i as int + 1));
            }
            self.write_byte(out);
            i = i + 1;
        }
        assert(bytes@.skip(n as int) =~= Seq::<u8>::empty());
    }
}

} // verus!
