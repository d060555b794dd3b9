use vga_console::buffer::{Buffer, BufferChar, BUFFER_HEIGHT, BUFFER_WIDTH};
use vga_console::color::{Color, ColorCode};
use vga_console::writer::{Writer, _print};

fn style() -> ColorCode {
    ColorCode::new(Color::White, Color::Black)
}

fn cell(character: u8) -> BufferChar {
    BufferChar { character, color: style() }
}

fn writer_over(fill: u8) -> Writer {
    let buffer: &'static mut Buffer = Box::leak(Box::new(Buffer::new(cell(fill))));
    Writer::new(buffer)
}

fn row_text(w: &Writer, row: usize) -> Vec<u8> {
    (0..BUFFER_WIDTH).map(|c| w.cell(row, c).character).collect()
}

#[test]
fn hi_then_newline_from_home() {
    let mut w = writer_over(b' ');
    assert_eq!((w.column(), w.row()), (0, 1));
    w.write_string("Hi\n");
    assert_eq!(w.cell(1, 0), cell(b'H'));
    assert_eq!(w.cell(1, 1), cell(b'i'));
    assert_eq!((w.column(), w.row()), (0, 2));
}

#[test]
fn control_byte_becomes_fallback_glyph() {
    let mut w = writer_over(b' ');
    w.write_string("\u{1}");
    assert_eq!(w.cell(1, 0), cell(0xfe));
    assert_eq!((w.column(), w.row()), (1, 1));
}

#[test]
fn unsupported_bytes_are_never_drawn_as_themselves() {
    for text in ["\u{0}", "\t", "\r", "~", "\u{7f}"] {
        let mut w = writer_over(b' ');
        w.write_string(text);
        let drawn = w.cell(1, 0).character;
        assert_eq!(drawn, 0xfe);
        assert_ne!(drawn, text.as_bytes()[0]);
        assert_eq!(w.column(), 1);
    }
}

#[test]
fn non_ascii_text_gives_one_fallback_per_byte() {
    let mut w = writer_over(b' ');
    w.write_string("\u{e9}!");
    assert_eq!(w.cell(1, 0), cell(0xfe));
    assert_eq!(w.cell(1, 1), cell(0xfe));
    assert_eq!(w.cell(1, 2), cell(b'!'));
    assert_eq!(w.column(), 3);
}

#[test]
fn printable_bytes_are_drawn_unchanged() {
    let text: String = (0x20u8..=0x7d).map(|b| b as char).collect();
    let mut w = writer_over(b'.');
    w.write_string(&text);
    for (i, b) in (0x20u8..=0x7d).enumerate() {
        let (row, col) = (1 + i / BUFFER_WIDTH, i % BUFFER_WIDTH);
        assert_eq!(w.cell(row, col), cell(b));
    }
}

#[test]
fn newline_is_forwarded_as_newline() {
    let mut w = writer_over(b'.');
    w.write_string("ab\ncd");
    assert_eq!(w.cell(1, 0), cell(b'a'));
    assert_eq!(w.cell(1, 2), cell(b'.'));
    assert_eq!(w.cell(2, 0), cell(b'c'));
    assert_eq!((w.column(), w.row()), (2, 2));
}

#[test]
fn one_past_full_row_wraps_once() {
    let mut w = writer_over(b'.');
    let text: String = std::iter::repeat('a').take(BUFFER_WIDTH).chain(['z']).collect();
    w.write_string(&text);
    assert_eq!(row_text(&w, 1), vec![b'a'; BUFFER_WIDTH]);
    assert_eq!(w.cell(2, 0), cell(b'z'));
    assert_eq!(w.cell(2, 1), cell(b'.'));
    assert_eq!((w.column(), w.row()), (1, 2));
}

#[test]
fn exactly_full_row_does_not_wrap_yet() {
    let mut w = writer_over(b'.');
    let text: String = std::iter::repeat('a').take(BUFFER_WIDTH).collect();
    w.write_string(&text);
    assert_eq!((w.column(), w.row()), (BUFFER_WIDTH, 1));
    assert_eq!(w.cell(2, 0), cell(b'.'));
}

fn marked_buffer() -> &'static mut Buffer {
    let buffer: &'static mut Buffer = Box::leak(Box::new(Buffer::new(cell(b'.'))));
    for r in 0..BUFFER_HEIGHT {
        buffer.write(r, 0, cell(b'A' + r as u8));
    }
    buffer
}

#[test]
fn newlines_from_home_scroll_exactly_once() {
    let mut w = Writer::new(marked_buffer());
    for _ in 0..(BUFFER_HEIGHT - 2) {
        w.write_string("\n");
        for r in 0..BUFFER_HEIGHT {
            assert_eq!(w.cell(r, 0), cell(b'A' + r as u8));
        }
    }
    assert_eq!(w.row(), BUFFER_HEIGHT - 1);
    w.write_string("\n");
    assert_eq!((w.column(), w.row()), (0, BUFFER_HEIGHT - 1));
    assert_eq!(w.cell(0, 0), cell(b'A'));
    for r in 1..BUFFER_HEIGHT - 1 {
        assert_eq!(w.cell(r, 0), cell(b'A' + r as u8 + 1));
    }
    assert_eq!(row_text(&w, BUFFER_HEIGHT - 1), vec![b' '; BUFFER_WIDTH]);
}

#[test]
fn scroll_moves_rows_up_and_blanks_the_last() {
    let buffer = marked_buffer();
    buffer.write(BUFFER_HEIGHT - 1, 5, cell(b'q'));
    let mut w = Writer::new(buffer);
    w.write_string(&"\n".repeat(BUFFER_HEIGHT - 2));
    let before: Vec<Vec<u8>> = (0..BUFFER_HEIGHT).map(|r| row_text(&w, r)).collect();
    w.write_byte(b'\n');
    for r in 2..BUFFER_HEIGHT {
        assert_eq!(row_text(&w, r - 1), before[r]);
    }
    assert_eq!(w.cell(BUFFER_HEIGHT - 2, 5), cell(b'q'));
    assert_eq!(row_text(&w, 0), before[0]);
    assert_eq!(row_text(&w, BUFFER_HEIGHT - 1), vec![b' '; BUFFER_WIDTH]);
}

#[test]
fn wrap_on_last_row_scrolls() {
    let mut w = Writer::new(marked_buffer());
    w.write_string(&"\n".repeat(BUFFER_HEIGHT - 2));
    let text: String = std::iter::repeat('b').take(BUFFER_WIDTH + 1).collect();
    w.write_string(&text);
    assert_eq!((w.column(), w.row()), (1, BUFFER_HEIGHT - 1));
    assert_eq!(w.cell(BUFFER_HEIGHT - 1, 0), cell(b'b'));
    assert_eq!(w.cell(BUFFER_HEIGHT - 1, 1), cell(b' '));
    assert_eq!(row_text(&w, BUFFER_HEIGHT - 2), vec![b'b'; BUFFER_WIDTH]);
    assert_eq!(w.cell(0, 0), cell(b'A'));
}

#[test]
fn reset_blanks_every_cell_and_homes_the_cursor() {
    let mut w = Writer::new(marked_buffer());
    w.write_string("some text\nmore");
    w.reset();
    assert_eq!((w.column(), w.row()), (0, 1));
    for r in 0..BUFFER_HEIGHT {
        for c in 0..BUFFER_WIDTH {
            assert_eq!(w.cell(r, c), cell(b' '));
        }
    }
}

#[test]
fn reset_twice_equals_reset_once() {
    let mut w = Writer::new(marked_buffer());
    w.write_string("x\ny");
    w.reset();
    let once: Vec<Vec<BufferChar>> =
        (0..BUFFER_HEIGHT).map(|r| (0..BUFFER_WIDTH).map(|c| w.cell(r, c)).collect()).collect();
    let cursor = (w.column(), w.row());
    w.reset();
    let twice: Vec<Vec<BufferChar>> =
        (0..BUFFER_HEIGHT).map(|r| (0..BUFFER_WIDTH).map(|c| w.cell(r, c)).collect()).collect();
    assert_eq!(once, twice);
    assert_eq!(cursor, (w.column(), w.row()));
}

#[test]
fn write_byte_draws_the_byte_as_given() {
    let mut w = writer_over(b' ');
    w.write_byte(0x01);
    w.write_byte(b'~');
    assert_eq!(w.cell(1, 0), cell(0x01));
    assert_eq!(w.cell(1, 1), cell(b'~'));
    assert_eq!(w.column(), 2);
}

#[test]
fn new_writer_starts_at_home_in_white_on_black() {
    let w = Writer::new(marked_buffer());
    assert_eq!((w.column(), w.row()), (0, 1));
    assert_eq!(w.color(), ColorCode(0x0f));
    assert_eq!(w.cell(3, 0), cell(b'D'));
    assert_eq!(w.cell(3, 1), cell(b'.'));
}

#[test]
fn color_code_packs_background_high_and_foreground_low() {
    assert_eq!(ColorCode::new(Color::White, Color::Black), ColorCode(0x0f));
    assert_eq!(ColorCode::new(Color::Blue, Color::Red), ColorCode(0x41));
    assert_eq!(ColorCode::new(Color::Yellow, Color::Blue), ColorCode(0x1e));
    assert_eq!(ColorCode::new(Color::Black, Color::White), ColorCode(0xf0));
    assert_eq!(Color::LightGray.index(), 7);
    assert_eq!(Color::Pink.index(), 13);
}

#[test]
fn buffer_cells_hold_what_was_written() {
    let mut b = Buffer::new(cell(b'.'));
    assert_eq!(b.read(24, 79), cell(b'.'));
    b.write(24, 79, cell(b'k'));
    assert_eq!(b.read(24, 79), cell(b'k'));
    assert_eq!(b.read(24, 78), cell(b'.'));
    b.copy_row(24, 0);
    assert_eq!(b.read(0, 79), cell(b'k'));
    b.fill_row(24, cell(b'-'));
    assert_eq!(b.read(24, 79), cell(b'-'));
    assert_eq!(b.read(0, 79), cell(b'k'));
}

#[test]
fn print_appends_text() {
    let mut w = writer_over(b' ');
    _print(&mut w, "7\n");
    _print(&mut w, "8");
    assert_eq!(w.cell(1, 0), cell(b'7'));
    assert_eq!(w.cell(2, 0), cell(b'8'));
    assert_eq!((w.column(), w.row()), (1, 2));
}
