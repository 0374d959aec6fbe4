use vga_console::BLANK_GLYPH;
use vga_console::BUFFER_HEIGHT;
use vga_console::BUFFER_WIDTH;
use vga_console::Color;
use vga_console::ColorCode;
use vga_console::REPLACEMENT_GLYPH;
use vga_console::Writer;

const ALL_COLORS: [Color; 16] = [
    Color::Black,
    Color::Blue,
    Color::Green,
    Color::Cyan,
    Color::Red,
    Color::Magenta,
    Color::Brown,
    Color::LightGray,
    Color::DarkGray,
    Color::LightBlue,
    Color::LightGreen,
    Color::LightCyan,
    Color::LightRed,
    Color::Pink,
    Color::Yellow,
    Color::White,
];

#[test]
fn color_codes_are_stable() {
    for (i, color) in ALL_COLORS.iter().enumerate() {
        assert_eq!(color.code(), i as u8);
    }
}

#[test]
fn color_attribute_yellow_on_black() {
    assert_eq!(ColorCode::new(Color::Yellow, Color::Black).value(), 0x0e);
}

#[test]
fn color_attribute_all_pairs() {
    for (bg, background) in ALL_COLORS.iter().enumerate() {
        for (fg, foreground) in ALL_COLORS.iter().enumerate() {
            let cc = ColorCode::new(*foreground, *background);
            assert_eq!(cc.value(), (bg as u8) * 16 + fg as u8);
        }
    }
}

#[test]
fn new_writer_is_blank() {
    let w = Writer::new(Color::Yellow, Color::Black);
    assert_eq!(w.column_position(), 0);
    assert_eq!(w.color_code().value(), 0x0e);
    for row in 0..BUFFER_HEIGHT {
        for col in 0..BUFFER_WIDTH {
            let sc = w.read_cell(row, col);
            assert_eq!(sc.ascii_character, BLANK_GLYPH);
            assert_eq!(sc.color_code.value(), 0x0e);
        }
    }
}

#[test]
fn every_printable_byte_lands_at_cursor() {
    for byte in 0x20u8..=0x7e {
        let mut w = Writer::new(Color::White, Color::Blue);
        let col = w.column_position();
        w.write_byte(byte);
        let sc = w.read_cell(BUFFER_HEIGHT - 1, col);
        assert_eq!(sc.ascii_character, byte);
        assert_eq!(sc.color_code, w.color_code());
        assert_eq!(w.column_position(), col + 1);
    }
}

#[test]
fn unprintable_byte_is_replaced() {
    for byte in [0x00u8, 0x01, 0x07, 0x1f, 0x7f, 0x80, 0xff] {
        let mut w = Writer::new(Color::Yellow, Color::Black);
        let s = [byte];
        // Only well-formed UTF-8 can be a &str, so feed the raw byte
        // through write_string only when it is valid there; otherwise
        // exercise the same normalization through a two-byte char.
        if byte < 0x80 {
            w.write_string(std::str::from_utf8(&s).unwrap());
            assert_eq!(
                w.read_cell(BUFFER_HEIGHT - 1, 0).ascii_character,
                REPLACEMENT_GLYPH
            );
            assert_eq!(w.column_position(), 1);
        } else {
            w.write_string("\u{e9}");
            assert_eq!(
                w.read_cell(BUFFER_HEIGHT - 1, 0).ascii_character,
                REPLACEMENT_GLYPH
            );
            assert_eq!(
                w.read_cell(BUFFER_HEIGHT - 1, 1).ascii_character,
                REPLACEMENT_GLYPH
            );
            assert_eq!(w.column_position(), 2);
        }
    }
}

#[test]
fn empty_string_changes_nothing() {
    let mut w = Writer::new(Color::Yellow, Color::Black);
    w.write_string("ab");
    w.write_string("");
    assert_eq!(w.column_position(), 2);
    assert_eq!(w.read_cell(BUFFER_HEIGHT - 1, 0).ascii_character, b'a');
    assert_eq!(w.read_cell(BUFFER_HEIGHT - 1, 1).ascii_character, b'b');
    assert_eq!(w.read_cell(BUFFER_HEIGHT - 1, 2).ascii_character, BLANK_GLYPH);
}

#[test]
fn replacement_between_letters() {
    let mut w = Writer::new(Color::Yellow, Color::Black);
    w.write_string("A\x01B");
    let row = BUFFER_HEIGHT - 1;
    assert_eq!(w.read_cell(row, 0).ascii_character, b'A');
    assert_eq!(w.read_cell(row, 1).ascii_character, REPLACEMENT_GLYPH);
    assert_eq!(w.read_cell(row, 2).ascii_character, b'B');
    assert_eq!(w.column_position(), 3);
}

#[test]
fn newline_stores_nothing_and_scrolls() {
    let mut w = Writer::new(Color::Yellow, Color::Black);
    w.write_string("abc");
    assert_eq!(w.column_position(), 3);
    w.write_byte(b'\n');
    assert_eq!(w.column_position(), 0);
    // the text moved up one row
    assert_eq!(w.read_cell(BUFFER_HEIGHT - 2, 0).ascii_character, b'a');
    assert_eq!(w.read_cell(BUFFER_HEIGHT - 2, 1).ascii_character, b'b');
    assert_eq!(w.read_cell(BUFFER_HEIGHT - 2, 2).ascii_character, b'c');
    // the bottom row is blank again
    for col in 0..BUFFER_WIDTH {
        assert_eq!(
            w.read_cell(BUFFER_HEIGHT - 1, col).ascii_character,
            BLANK_GLYPH
        );
    }
}

#[test]
fn full_row_fills_left_to_right_without_scroll() {
    let mut w = Writer::new(Color::Yellow, Color::Black);
    let mut text = String::new();
    for i in 0..BUFFER_WIDTH {
        text.push((b'0' + (i % 10) as u8) as char);
    }
    w.write_string(&text);
    assert_eq!(w.column_position(), BUFFER_WIDTH);
    for col in 0..BUFFER_WIDTH {
        assert_eq!(
            w.read_cell(BUFFER_HEIGHT - 1, col).ascii_character,
            b'0' + (col % 10) as u8
        );
    }
    // no scroll yet: the row above is still blank
    for col in 0..BUFFER_WIDTH {
        assert_eq!(
            w.read_cell(BUFFER_HEIGHT - 2, col).ascii_character,
            BLANK_GLYPH
        );
    }
}

#[test]
fn overflow_byte_scrolls_once_and_lands_at_column_zero() {
    let mut w = Writer::new(Color::Yellow, Color::Black);
    for _ in 0..BUFFER_WIDTH {
        w.write_byte(b'x');
    }
    assert_eq!(w.column_position(), BUFFER_WIDTH);
    w.write_byte(b'y');
    assert_eq!(w.column_position(), 1);
    // the full row moved up exactly one row
    for col in 0..BUFFER_WIDTH {
        assert_eq!(w.read_cell(BUFFER_HEIGHT - 2, col).ascii_character, b'x');
    }
    for col in 0..BUFFER_WIDTH {
        assert_eq!(
            w.read_cell(BUFFER_HEIGHT - 3, col).ascii_character,
            BLANK_GLYPH
        );
    }
    assert_eq!(w.read_cell(BUFFER_HEIGHT - 1, 0).ascii_character, b'y');
    for col in 1..BUFFER_WIDTH {
        assert_eq!(
            w.read_cell(BUFFER_HEIGHT - 1, col).ascii_character,
            BLANK_GLYPH
        );
    }
}

#[test]
fn full_height_of_newlines_blanks_the_grid() {
    let mut w = Writer::new(Color::Yellow, Color::Black);
    w.write_string("Hello");
    w.write_byte(b'\n');
    // the bottom row is blank now, so HEIGHT-1 more newlines clear everything
    for _ in 0..BUFFER_HEIGHT - 1 {
        w.write_byte(b'\n');
    }
    assert_eq!(w.column_position(), 0);
    for row in 0..BUFFER_HEIGHT {
        for col in 0..BUFFER_WIDTH {
            assert_eq!(w.read_cell(row, col).ascii_character, BLANK_GLYPH);
        }
    }
}

#[test]
fn bottom_row_text_reaches_the_top_after_full_scroll() {
    // scroll ordering: what sits in the bottom row climbs one row per
    // newline and reaches row 0 after HEIGHT-1 newlines
    let mut w = Writer::new(Color::Yellow, Color::Black);
    w.write_string("Top");
    for _ in 0..BUFFER_HEIGHT - 1 {
        w.write_byte(b'\n');
    }
    assert_eq!(w.read_cell(0, 0).ascii_character, b'T');
    assert_eq!(w.read_cell(0, 1).ascii_character, b'o');
    assert_eq!(w.read_cell(0, 2).ascii_character, b'p');
    for row in 1..BUFFER_HEIGHT {
        for col in 0..BUFFER_WIDTH {
            assert_eq!(w.read_cell(row, col).ascii_character, BLANK_GLYPH);
        }
    }
}

#[test]
fn hello_newline_hi_scenario() {
    let mut w = Writer::new(Color::Yellow, Color::Black);
    let attr = w.color_code();
    w.write_string("Hello");
    w.write_byte(b'\n');
    w.write_string("Hi");
    let above = BUFFER_HEIGHT - 2;
    let bottom = BUFFER_HEIGHT - 1;
    let hello = b"Hello";
    for (i, &b) in hello.iter().enumerate() {
        let sc = w.read_cell(above, i);
        assert_eq!(sc.ascii_character, b);
        assert_eq!(sc.color_code, attr);
    }
    for col in hello.len()..BUFFER_WIDTH {
        assert_eq!(w.read_cell(above, col).ascii_character, BLANK_GLYPH);
    }
    assert_eq!(w.read_cell(bottom, 0).ascii_character, b'H');
    assert_eq!(w.read_cell(bottom, 1).ascii_character, b'i');
    assert_eq!(w.read_cell(bottom, 0).color_code, attr);
    assert_eq!(w.read_cell(bottom, 1).color_code, attr);
    for col in 2..BUFFER_WIDTH {
        assert_eq!(w.read_cell(bottom, col).ascii_character, BLANK_GLYPH);
    }
    assert_eq!(w.column_position(), 2);
}

#[test]
fn written_cell_carries_active_attribute() {
    let mut w = Writer::new(Color::LightGreen, Color::DarkGray);
    w.write_byte(b'Z');
    let sc = w.read_cell(BUFFER_HEIGHT - 1, 0);
    assert_eq!(sc.ascii_character, b'Z');
    // DarkGray is 8, LightGreen is 10: 8 * 16 + 10
    assert_eq!(sc.color_code.value(), 0x8a);
}
