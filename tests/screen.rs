use arkanoid_vga::console::Writer;
use arkanoid_vga::screen::{Buffer, Color, ColorCode, ScreenChar};

fn cell(ch: u8, color: ColorCode) -> ScreenChar {
    ScreenChar { ascii_character: ch, color_code: color }
}

#[test]
fn color_code_packs_background_high() {
    assert_eq!(ColorCode::new(Color::White, Color::Black).value(), 0x0f);
    assert_eq!(ColorCode::new(Color::Yellow, Color::Blue).value(), 0x1e);
    assert_eq!(ColorCode::new(Color::Black, Color::White).value(), 0xf0);
    assert_eq!(Color::Pink.code(), 13);
}

#[test]
fn written_cell_reads_back() {
    let blank = cell(b' ', ColorCode::new(Color::Black, Color::Black));
    let mut b = Buffer::filled(blank);
    assert_eq!(b.read_cell(5, 7), blank);
    let c = cell(b'Z', ColorCode::new(Color::LightCyan, Color::Red));
    b.write_cell(5, 7, c);
    assert_eq!(b.read_cell(5, 7), c);
    assert_eq!(b.read_cell(6, 7), blank);
    assert_eq!(b.read_cell(5, 6), blank);
}

#[test]
fn out_of_range_is_ignored() {
    let blank = cell(b'.', ColorCode::new(Color::Black, Color::Black));
    let mut b = Buffer::filled(blank);
    b.write_cell(80, 0, cell(b'X', ColorCode::new(Color::White, Color::Black)));
    b.write_cell(0, 25, cell(b'X', ColorCode::new(Color::White, Color::Black)));
    for y in 0..25 {
        for x in 0..80 {
            assert_eq!(b.read_cell(x, y), blank);
        }
    }
    let d = b.read_cell(80, 3);
    assert_eq!(d.ascii_character, 0);
    assert_eq!(d.color_code.value(), 0);
}

#[test]
fn scroll_moves_rows_up() {
    let blank = cell(b' ', ColorCode::new(Color::Black, Color::Black));
    let mut b = Buffer::filled(blank);
    let c = cell(b'Q', ColorCode::new(Color::Green, Color::Black));
    b.write_cell(3, 24, c);
    b.write_cell(4, 0, c);
    let fill = cell(b'-', ColorCode::new(Color::Brown, Color::Black));
    b.scroll_up(fill);
    assert_eq!(b.read_cell(3, 23), c);
    assert_eq!(b.read_cell(4, 0), blank);
    for x in 0..80 {
        assert_eq!(b.read_cell(x, 24), fill);
    }
}

#[test]
fn clear_row_fills_one_row() {
    let blank = cell(b' ', ColorCode::new(Color::Black, Color::Black));
    let mut b = Buffer::filled(blank);
    let fill = cell(b'*', ColorCode::new(Color::Blue, Color::Black));
    b.clear_row(4, fill);
    b.clear_row(25, fill);
    for x in 0..80 {
        assert_eq!(b.read_cell(x, 4), fill);
        assert_eq!(b.read_cell(x, 3), blank);
        assert_eq!(b.read_cell(x, 5), blank);
    }
}

fn bottom(w: &Writer, y: usize, len: usize) -> Vec<u8> {
    (0..len).map(|x| w.buffer.read_cell(x, y).ascii_character).collect()
}

#[test]
fn console_writes_and_breaks_lines() {
    let mut w = Writer::new();
    w.write_string("AB\nC");
    assert_eq!(bottom(&w, 23, 2), b"AB".to_vec());
    assert_eq!(bottom(&w, 24, 2), b"C ".to_vec());
    assert_eq!(w.column_position, 1);
    assert_eq!(
        w.buffer.read_cell(0, 24).color_code,
        ColorCode::new(Color::Yellow, Color::Black)
    );
}

#[test]
fn console_shows_placeholder_for_unprintable() {
    let mut w = Writer::new();
    w.write_string("a\u{e9}");
    assert_eq!(bottom(&w, 24, 3), vec![b'a', 0xfe, 0xfe]);
    w.write_byte(0x07);
    assert_eq!(w.buffer.read_cell(3, 24).ascii_character, 0xfe);
}

#[test]
fn console_wraps_at_the_right_edge() {
    let mut w = Writer::new();
    for _ in 0..80 {
        w.write_byte(b'x');
    }
    assert_eq!(w.column_position, 80);
    w.write_byte(b'y');
    assert_eq!(w.buffer.read_cell(79, 23).ascii_character, b'x');
    assert_eq!(w.buffer.read_cell(0, 24).ascii_character, b'y');
    assert_eq!(w.column_position, 1);
}

#[test]
fn console_centres_text() {
    let mut w = Writer::new();
    w.write_centered("abc");
    assert_eq!(w.buffer.read_cell(38, 24).ascii_character, b'a');
    assert_eq!(w.buffer.read_cell(40, 24).ascii_character, b'c');
    assert_eq!(w.buffer.read_cell(37, 24).ascii_character, b' ');
    assert_eq!(w.column_position, 41);
}

#[test]
fn console_writes_art_line_by_line() {
    let mut w = Writer::new();
    w.write_ascii_art("ab\r\ncd\n");
    assert_eq!(w.buffer.read_cell(39, 22).ascii_character, b'a');
    assert_eq!(w.buffer.read_cell(40, 22).ascii_character, b'b');
    assert_eq!(w.buffer.read_cell(41, 22).ascii_character, b' ');
    assert_eq!(w.buffer.read_cell(39, 23).ascii_character, b'c');
    assert_eq!(w.buffer.read_cell(39, 24).ascii_character, b' ');
    assert_eq!(w.column_position, 0);
}

#[test]
fn console_clear_row_and_draw_char() {
    let mut w = Writer::new();
    w.draw_char(10, 10, b'K');
    assert_eq!(w.buffer.read_cell(10, 10).ascii_character, b'K');
    w.clear_row(10);
    assert_eq!(w.buffer.read_cell(10, 10).ascii_character, b' ');
    w.new_line();
    assert_eq!(w.column_position, 0);
}
