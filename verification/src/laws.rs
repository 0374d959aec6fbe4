//! Laws of the console model: what single writes, row-filling writes
//! and runs of newlines do to the grid, proved once over all inputs.

use vstd::prelude::*;

use crate::cell::cell_attr;
use crate::cell::cell_glyph;
use crate::cell::encode_cell;
use crate::cell::lemma_cell_roundtrip;
use crate::model::BLANK_GLYPH;
use crate::model::BUFFER_HEIGHT;
use crate::model::BUFFER_WIDTH;
use crate::model::GRID_CELLS;
use crate::model::NEWLINE;
use crate::model::REPLACEMENT_GLYPH;
use crate::model::blank_cell;
use crate::model::byte_step;
use crate::model::cell_index;
use crate::model::is_printable;
use crate::model::normalize_byte;
use crate::model::scroll;
use crate::model::string_step;

verus! {

/// A run of newline bytes of the given length.
pub open spec fn newlines(n: nat) -> Seq<u8> {
    Seq::new(n, |i: int| NEWLINE)
}

/// Law: a non-newline byte lands at the cursor. After one byte step
/// the cell just left of the new cursor holds that glyph under the
/// active attribute, and while the row has space the cursor only
/// advances by one.
pub proof fn lemma_write_byte_at_cursor(g: Seq<u16>, col: nat, attr: u8, byte: u8)
    requires
        g.len() == GRID_CELLS,
        col <= BUFFER_WIDTH,
        byte != NEWLINE,
    ensures
        ({
            let (g2, col2) = byte_step(g, col, attr, byte);
            &&& g2.len() == GRID_CELLS
            &&& 1 <= col2 <= BUFFER_WIDTH
            &&& col < BUFFER_WIDTH ==> col2 == col + 1
            &&& cell_glyph(g2[cell_index((BUFFER_HEIGHT - 1) as int, col2 - 1)]) == byte
            &&& cell_attr(g2[cell_index((BUFFER_HEIGHT - 1) as int, col2 - 1)]) == attr
        }),
{
    lemma_cell_roundtrip(byte, attr);
}

/// Law: a byte outside printable ASCII that is not a newline is never
/// stored itself; writing it as a one-byte string stores the
/// replacement glyph at the cursor instead.
pub proof fn lemma_unprintable_byte_replaced(g: Seq<u16>, col: nat, attr: u8, byte: u8)
    requires
        g.len() == GRID_CELLS,
        col <= BUFFER_WIDTH,
        !is_printable(byte),
        byte != NEWLINE,
    ensures
        ({
            let (g2, col2) = string_step(g, col, attr, seq![byte]);
            &&& 1 <= col2 <= BUFFER_WIDTH
            &&& cell_glyph(g2[cell_index((BUFFER_HEIGHT - 1) as int, col2 - 1)])
                == REPLACEMENT_GLYPH
            &&& cell_attr(g2[cell_index((BUFFER_HEIGHT - 1) as int, col2 - 1)]) == attr
        }),
{
    assert(normalize_byte(byte) == REPLACEMENT_GLYPH);
    assert(seq![byte].drop_first() =~= Seq::<u8>::empty());
    let step = byte_step(g, col, attr, REPLACEMENT_GLYPH);
    assert(string_step(g, col, attr, seq![byte]) == string_step(
        step.0,
        step.1,
        attr,
        seq![byte].drop_first(),
    ));
    assert(string_step(step.0, step.1, attr, Seq::<u8>::empty()) == (step.0, step.1));
    lemma_write_byte_at_cursor(g, col, attr, REPLACEMENT_GLYPH);
}

/// Law: a newline stores no cell. It only shifts every row up by one,
/// blanks the bottom row under the active attribute, and resets the
/// cursor to column 0.
pub proof fn lemma_newline_only_scrolls(g: Seq<u16>, col: nat, attr: u8)
    requires
        g.len() == GRID_CELLS,
    ensures
        byte_step(g, col, attr, NEWLINE).0 == scroll(g, attr),
        byte_step(g, col, attr, NEWLINE).1 == 0,
        forall|r: int, c: int|
            0 <= r < BUFFER_HEIGHT - 1 && 0 <= c < BUFFER_WIDTH ==> scroll(g, attr)[cell_index(
                r,
                c,
            )] == g[cell_index(r + 1, c)],
        forall|c: int|
            0 <= c < BUFFER_WIDTH ==> #[trigger] scroll(g, attr)[cell_index(
                (BUFFER_HEIGHT - 1) as int,
                c,
            )] == blank_cell(attr),
{
    assert forall|r: int, c: int|
        0 <= r < BUFFER_HEIGHT - 1 && 0 <= c < BUFFER_WIDTH implies scroll(g, attr)[cell_index(
        r,
        c,
    )] == g[cell_index(r + 1, c)] by {
        assert(cell_index(r, c) + BUFFER_WIDTH == cell_index(r + 1, c));
    }
}

/// Law: writing a concatenation is writing the first part and then
/// the second from the state the first part left behind.
pub proof fn lemma_string_step_append(g: Seq<u16>, col: nat, attr: u8, a: Seq<u8>, b: Seq<u8>)
    ensures
        ({
            let mid = string_step(g, col, attr, a);
            string_step(g, col, attr, a + b) == string_step(mid.0, mid.1, attr, b)
        }),
    decreases a.len(),
{
    if a.len() == 0 {
        assert(a + b =~= b);
    } else {
        assert((a + b)[0] == a[0]);
        assert((a + b).drop_first() =~= a.drop_first() + b);
        let next = byte_step(g, col, attr, normalize_byte(a[0]));
        lemma_string_step_append(next.0, next.1, attr, a.drop_first(), b);
    }
}

/// Law: a run of non-newline bytes that fits in the space left of the
/// bottom row lands there left to right, in order and normalized,
/// with no scroll and nothing else touched.
pub proof fn lemma_fill_bottom_row(g: Seq<u16>, col: nat, attr: u8, bytes: Seq<u8>)
    requires
        g.len() == GRID_CELLS,
        col + bytes.len() <= BUFFER_WIDTH,
        forall|k: int| 0 <= k < bytes.len() ==> bytes[k] != NEWLINE,
    ensures
        ({
            let (g2, col2) = string_step(g, col, attr, bytes);
            &&& g2.len() == GRID_CELLS
            &&& col2 == col + bytes.len()
            &&& forall|k: int|
                0 <= k < bytes.len() ==> g2[cell_index((BUFFER_HEIGHT - 1) as int, col + k)]
                    == encode_cell(normalize_byte(bytes[k]), attr)
            &&& forall|i: int|
                0 <= i < GRID_CELLS && !(cell_index((BUFFER_HEIGHT - 1) as int, col as int) <= i
                    < cell_index((BUFFER_HEIGHT - 1) as int, col as int) + bytes.len()) ==> g2[i]
                    == g[i]
        }),
    decreases bytes.len(),
{
    let last = (BUFFER_HEIGHT - 1) as int;
    if bytes.len() > 0 {
        let b0 = normalize_byte(bytes[0]);
        assert(b0 != NEWLINE);
        let g1 = g.update(cell_index(last, col as int), encode_cell(b0, attr));
        let rest = bytes.drop_first();
        lemma_fill_bottom_row(g1, col + 1, attr, rest);
        let (g2, col2) = string_step(g, col, attr, bytes);
        assert forall|k: int| 0 <= k < bytes.len() implies g2[cell_index(last, col + k)]
            == encode_cell(normalize_byte(bytes[k]), attr) by {
            if k == 0 {
                assert(g2[cell_index(last, col as int)] == g1[cell_index(last, col as int)]);
            } else {
                assert(g2[cell_index(last, (col + 1) + (k - 1))] == encode_cell(
                    normalize_byte(rest[k - 1]),
                    attr,
                ));
            }
        }
    }
}

/// Law: when the bottom row is already full, the next non-newline
/// byte first scrolls exactly once and then lands at column 0 of the
/// new bottom row. Stated of a whole row's worth of bytes plus one:
/// the first row's worth ends up one row higher, the extra byte at
/// the start of the bottom row, the cursor at column 1.
pub proof fn lemma_row_overflow(g: Seq<u16>, attr: u8, bytes: Seq<u8>)
    requires
        g.len() == GRID_CELLS,
        bytes.len() == BUFFER_WIDTH + 1,
        forall|k: int| 0 <= k < bytes.len() ==> bytes[k] != NEWLINE,
    ensures
        ({
            let (g2, col2) = string_step(g, 0, attr, bytes);
            &&& col2 == 1
            &&& g2[cell_index((BUFFER_HEIGHT - 1) as int, 0)] == encode_cell(
                normalize_byte(bytes[BUFFER_WIDTH as int]),
                attr,
            )
            &&& forall|k: int|
                0 <= k < BUFFER_WIDTH ==> g2[cell_index((BUFFER_HEIGHT - 2) as int, k)]
                    == encode_cell(normalize_byte(bytes[k]), attr)
        }),
{
    let last = (BUFFER_HEIGHT - 1) as int;
    let above = (BUFFER_HEIGHT - 2) as int;
    let first = bytes.take(BUFFER_WIDTH as int);
    let extra = seq![bytes[BUFFER_WIDTH as int]];
    assert(bytes =~= first + extra);
    lemma_string_step_append(g, 0, attr, first, extra);
    lemma_fill_bottom_row(g, 0, attr, first);
    let mid = string_step(g, 0, attr, first);
    let g1 = mid.0;
    assert(mid.1 == BUFFER_WIDTH);
    assert(extra.drop_first() =~= Seq::<u8>::empty());
    let b = normalize_byte(bytes[BUFFER_WIDTH as int]);
    assert(b != NEWLINE);
    let step = byte_step(g1, mid.1, attr, b);
    assert(string_step(g1, mid.1, attr, extra) == string_step(step.0, step.1, attr, extra.drop_first()));
    assert(string_step(step.0, step.1, attr, Seq::<u8>::empty()) == (step.0, step.1));
    let (g2, col2) = string_step(g, 0, attr, bytes);
    assert(g2 == scroll(g1, attr).update(cell_index(last, 0), encode_cell(b, attr)));
    assert forall|k: int| 0 <= k < BUFFER_WIDTH implies g2[cell_index(above, k)] == encode_cell(
        normalize_byte(bytes[k]),
        attr,
    ) by {
        assert(cell_index(above, k) + BUFFER_WIDTH == cell_index(last, k));
        assert(cell_index(above, k) < cell_index(last, 0));
        assert(scroll(g1, attr)[cell_index(above, k)] == g1[cell_index(last, k)]);
        assert(g1[cell_index(last, 0 + k)] == encode_cell(normalize_byte(first[k]), attr));
    }
}

/// After a run of newlines every row has moved up by that many places
/// and the freed bottom rows are blank under the active attribute.
proof fn lemma_newlines_shift(g: Seq<u16>, col: nat, attr: u8, n: nat)
    requires
        g.len() == GRID_CELLS,
        n <= BUFFER_HEIGHT,
    ensures
        ({
            let (g2, col2) = string_step(g, col, attr, newlines(n));
            &&& g2.len() == GRID_CELLS
            &&& col2 == if n == 0 { col } else { 0nat }
            &&& forall|r: int, c: int|
                0 <= r < BUFFER_HEIGHT - n && 0 <= c < BUFFER_WIDTH ==> g2[cell_index(r, c)]
                    == g[cell_index(r + n, c)]
            &&& forall|r: int, c: int|
                BUFFER_HEIGHT - n <= r < BUFFER_HEIGHT && 0 <= c < BUFFER_WIDTH ==> g2[cell_index(
                    r,
                    c,
                )] == blank_cell(attr)
        }),
    decreases n,
{
    if n == 0 {
        assert(newlines(0nat) =~= Seq::<u8>::empty());
    } else {
        let m = (n - 1) as nat;
        assert(newlines(n)[0] == NEWLINE);
        assert(normalize_byte(NEWLINE) == NEWLINE);
        assert(newlines(n).drop_first() =~= newlines(m));
        let gs = scroll(g, attr);
        lemma_newlines_shift(gs, 0nat, attr, m);
        let (g2, col2) = string_step(g, col, attr, newlines(n));
        assert forall|r: int, c: int|
            0 <= r < BUFFER_HEIGHT - n && 0 <= c < BUFFER_WIDTH implies g2[cell_index(r, c)]
            == g[cell_index(r + n, c)] by {
            assert(g2[cell_index(r, c)] == gs[cell_index(r + m, c)]);
            assert(cell_index(r + m, c) + BUFFER_WIDTH == cell_index(r + m + 1, c));
            assert(cell_index(r + m, c) < GRID_CELLS - BUFFER_WIDTH);
        }
        assert forall|r: int, c: int|
            BUFFER_HEIGHT - n <= r < BUFFER_HEIGHT && 0 <= c < BUFFER_WIDTH implies g2[cell_index(
            r,
            c,
        )] == blank_cell(attr) by {
            if r < BUFFER_HEIGHT - m {
                assert(g2[cell_index(r, c)] == gs[cell_index(r + m, c)]);
                assert(r + m == BUFFER_HEIGHT - 1);
                assert(cell_index(r + m, c) >= GRID_CELLS - BUFFER_WIDTH);
            }
        }
    }
}

/// Law: one fewer newlines than the grid has rows, starting from a
/// grid whose bottom row shows only spaces, leave every glyph in the
/// grid a space and the cursor at column 0. (Attribute bytes may
/// differ across rows: scrolled-in rows carry the active attribute,
/// while the old bottom row keeps its own attributes as it reaches
/// the top.)
pub proof fn lemma_consecutive_newlines_blank(g: Seq<u16>, col: nat, attr: u8)
    requires
        g.len() == GRID_CELLS,
        forall|c: int|
            0 <= c < BUFFER_WIDTH ==> cell_glyph(
                #[trigger] g[cell_index((BUFFER_HEIGHT - 1) as int, c)],
            ) == BLANK_GLYPH,
    ensures
        ({
            let (g2, col2) = string_step(g, col, attr, newlines((BUFFER_HEIGHT - 1) as nat));
            &&& col2 == 0
            &&& forall|i: int| 0 <= i < GRID_CELLS ==> cell_glyph(g2[i]) == BLANK_GLYPH
        }),
{
    let n = (BUFFER_HEIGHT - 1) as nat;
    lemma_newlines_shift(g, col, attr, n);
    let (g2, col2) = string_step(g, col, attr, newlines(n));
    lemma_cell_roundtrip(BLANK_GLYPH, attr);
    assert forall|i: int| 0 <= i < GRID_CELLS implies cell_glyph(g2[i]) == BLANK_GLYPH by {
        let r = i / (BUFFER_WIDTH as int);
        let c = i % (BUFFER_WIDTH as int);
        assert(cell_index(r, c) == i);
        if r == 0 {
            assert(g2[cell_index(0, c)] == g[cell_index((BUFFER_HEIGHT - 1) as int, c)]);
        } else {
            assert(g2[cell_index(r, c)] == blank_cell(attr));
        }
    }
}

} // verus!
