use minios::vga_buffer::{Color, ColorCode, Writer, _print, BUFFER_HEIGHT, BUFFER_WIDTH};

#[test]
fn printable_bytes_land_at_cursor_and_advance() {
    let mut w = Writer::new(Color::Yellow, Color::Black);
    assert_eq!(w.cursor_column(), 0);
    w.write_byte(b'A');
    assert_eq!(w.cursor_column(), 1);
    assert_eq!(w.cell_at(BUFFER_HEIGHT - 1, 0).ascii_character, b'A');
    assert_eq!(w.cell_at(BUFFER_HEIGHT - 1, 1).ascii_character, b' ');
    assert_eq!(w.cell_at(0, 0).ascii_character, b' ');
    assert_eq!(w.cell_at(BUFFER_HEIGHT - 2, 0).ascii_character, b' ');
    w.write_byte(b'B');
    assert_eq!(w.cursor_column(), 2);
    assert_eq!(w.cell_at(BUFFER_HEIGHT - 1, 0).ascii_character, b'A');
    assert_eq!(w.cell_at(BUFFER_HEIGHT - 1, 1).ascii_character, b'B');
}

#[test]
fn unprintable_bytes_become_replacement_glyph() {
    let mut w = Writer::new(Color::Yellow, Color::Black);
    w.write_string("\u{1}");
    assert_eq!(w.cell_at(BUFFER_HEIGHT - 1, 0).ascii_character, 0xfe);
    // a two-byte encoded character degrades to two replacement glyphs
    let mut w2 = Writer::new(Color::Yellow, Color::Black);
    w2.write_string("é");
    assert_eq!(w2.cell_at(BUFFER_HEIGHT - 1, 0).ascii_character, 0xfe);
    assert_eq!(w2.cell_at(BUFFER_HEIGHT - 1, 1).ascii_character, 0xfe);
    assert_eq!(w2.cursor_column(), 2);
}

#[test]
fn newline_resets_cursor_and_scrolls_once() {
    let mut w = Writer::new(Color::Yellow, Color::Black);
    w.write_byte(b'X');
    w.write_byte(b'Y');
    assert_eq!(w.cursor_column(), 2);
    w.write_byte(b'\n');
    assert_eq!(w.cursor_column(), 0);
    // one scroll: the bottom row's content is now one row higher
    assert_eq!(w.cell_at(BUFFER_HEIGHT - 2, 0).ascii_character, b'X');
    assert_eq!(w.cell_at(BUFFER_HEIGHT - 2, 1).ascii_character, b'Y');
    // and the bottom row is blank again
    assert_eq!(w.cell_at(BUFFER_HEIGHT - 1, 0).ascii_character, b' ');
    assert_eq!(w.cell_at(BUFFER_HEIGHT - 1, 1).ascii_character, b' ');
}

#[test]
fn full_row_scrolls_exactly_once_at_the_boundary() {
    let mut w = Writer::new(Color::Yellow, Color::Black);
    for _ in 0..BUFFER_WIDTH {
        w.write_byte(b'a');
    }
    // the row is exactly full: no scroll has happened yet
    assert_eq!(w.cursor_column(), BUFFER_WIDTH);
    assert_eq!(w.cell_at(BUFFER_HEIGHT - 2, 0).ascii_character, b' ');
    assert_eq!(w.cell_at(BUFFER_HEIGHT - 1, 0).ascii_character, b'a');
    assert_eq!(w.cell_at(BUFFER_HEIGHT - 1, BUFFER_WIDTH - 1).ascii_character, b'a');
    // one byte past the boundary: exactly one scroll, the byte lands at column 0
    w.write_byte(b'b');
    assert_eq!(w.cursor_column(), 1);
    assert_eq!(w.cell_at(BUFFER_HEIGHT - 2, 0).ascii_character, b'a');
    assert_eq!(w.cell_at(BUFFER_HEIGHT - 2, BUFFER_WIDTH - 1).ascii_character, b'a');
    assert_eq!(w.cell_at(BUFFER_HEIGHT - 1, 0).ascii_character, b'b');
    assert_eq!(w.cell_at(BUFFER_HEIGHT - 1, 1).ascii_character, b' ');
    // the row above the shifted line is still empty: only one scroll happened
    assert_eq!(w.cell_at(BUFFER_HEIGHT - 3, 0).ascii_character, b' ');
}

#[test]
fn scroll_preserves_row_order_and_blanks_bottom() {
    let mut w = Writer::new(Color::LightGray, Color::Blue);
    w.write_byte(b'1');
    w.write_byte(b'\n');
    w.write_byte(b'2');
    w.write_byte(b'\n');
    w.write_byte(b'3');
    w.write_byte(b'\n');
    // oldest content is highest; order of the rows is kept
    assert_eq!(w.cell_at(BUFFER_HEIGHT - 4, 0).ascii_character, b'1');
    assert_eq!(w.cell_at(BUFFER_HEIGHT - 3, 0).ascii_character, b'2');
    assert_eq!(w.cell_at(BUFFER_HEIGHT - 2, 0).ascii_character, b'3');
    // the fresh bottom row is blank under the writer's attribute
    let blank = w.cell_at(BUFFER_HEIGHT - 1, 0);
    assert_eq!(blank.ascii_character, b' ');
    assert_eq!(blank.color_code, ColorCode::new(Color::LightGray, Color::Blue));
}

#[test]
fn color_code_round_trip_all_pairs() {
    let colors = [
        Color::Black,
        Color::Blue,
        Color::Green,
        Color::Cyan,
        Color::Red,
        Color::Magenta,
        Color::Brown,
        Color::LightGray,
        Color::DarkGray,
        Color::LightBlue,
        Color::LightGreen,
        Color::LightCyan,
        Color::LightRed,
        Color::Pink,
        Color::Yellow,
        Color::White,
    ];
    for (bi, &bg) in colors.iter().enumerate() {
        for (fi, &fg) in colors.iter().enumerate() {
            let code = ColorCode::new(fg, bg);
            assert_eq!(code.foreground(), fi as u8);
            assert_eq!(code.background(), bi as u8);
            assert_eq!(code.0, ((bi as u8) << 4) | (fi as u8));
        }
    }
}

#[test]
fn hello_world_on_a_fresh_writer() {
    let mut w = Writer::new(Color::Yellow, Color::Black);
    _print(&mut w, "Hello World!");
    let expected = b"Hello World!";
    for (i, &b) in expected.iter().enumerate() {
        let cell = w.cell_at(BUFFER_HEIGHT - 1, i);
        assert_eq!(cell.ascii_character, b);
        assert_eq!(cell.color_code, ColorCode::new(Color::Yellow, Color::Black));
    }
    assert_eq!(w.cursor_column(), 12);
    assert_eq!(w.current_color_code(), ColorCode::new(Color::Yellow, Color::Black));
}

#[test]
fn write_string_mixes_text_and_newlines() {
    let mut w = Writer::new(Color::Yellow, Color::Black);
    w.write_string("ab\ncd");
    assert_eq!(w.cell_at(BUFFER_HEIGHT - 2, 0).ascii_character, b'a');
    assert_eq!(w.cell_at(BUFFER_HEIGHT - 2, 1).ascii_character, b'b');
    assert_eq!(w.cell_at(BUFFER_HEIGHT - 1, 0).ascii_character, b'c');
    assert_eq!(w.cell_at(BUFFER_HEIGHT - 1, 1).ascii_character, b'd');
    assert_eq!(w.cursor_column(), 2);
}
