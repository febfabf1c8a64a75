//! A scrolling text console on the bottom row of the display.

use vstd::prelude::*;
use vstd::string::StringSliceAdditionalSpecFns;
use crate::screen::{Buffer, Color, ColorCode, ScreenChar, BUFFER_WIDTH, BUFFER_HEIGHT, cell_index, in_grid, scrolled, row_filled, color_pair};

verus! {

/// Glyph that stands for a byte that is neither printable ASCII nor a newline.
pub const PLACEHOLDER: u8 = 0xfe;

/// The console's text state: the display cells and the cursor column.
pub struct ConsoleModel {
    pub cells: Seq<ScreenChar>,
    pub column: int,
}

/// The byte that is shown for `b`.
pub open spec fn shown_byte(b: u8) -> u8 {
    if (0x20 <= b && b <= 0x7e) || b == 10 {
        b
    } else {
        PLACEHOLDER
    }
}

pub open spec fn blank_in(color: ColorCode) -> ScreenChar {
    ScreenChar { ascii_character: 32, color_code: color }
}

/// A line break: scroll up and return to the first column.
pub open spec fn broken(m: ConsoleModel, color: ColorCode) -> ConsoleModel {
    ConsoleModel { cells: scrolled(m.cells, blank_in(color)), column: 0 }
}

/// The console after writing byte `b` in `color`.
pub open spec fn put_byte(m: ConsoleModel, b: u8, color: ColorCode) -> ConsoleModel {
    if b == 10 {
        broken(m, color)
    } else {
        let m1 = if m.column >= BUFFER_WIDTH as int {
            broken(m, color)
        } else {
            m
        };
        ConsoleModel {
            cells: m1.cells.update(
                cell_index(m1.column, BUFFER_HEIGHT as int - 1),
                ScreenChar { ascii_character: shown_byte(b), color_code: color },
            ),
            column: m1.column + 1,
        }
    }
}

/// The console after writing `bs` in `color`, byte by byte.
pub open spec fn put_bytes(m: ConsoleModel, bs: Seq<u8>, color: ColorCode) -> ConsoleModel
    decreases bs.len(),
{
    if bs.len() == 0 {
        m
    } else {
        put_byte(put_bytes(m, bs.drop_last(), color), bs.last(), color)
    }
}

/// The column at which a text of `len` bytes starts when centred.
pub open spec fn centered_column(len: int) -> int {
    (BUFFER_WIDTH as int - if len < BUFFER_WIDTH as int {
        len
    } else {
        BUFFER_WIDTH as int
    }) / 2
}

/// `l` without one trailing carriage return.
pub open spec fn strip_cr(l: Seq<u8>) -> Seq<u8> {
    if l.len() > 0 && l.last() == 13 {
        l.drop_last()
    } else {
        l
    }
}

/// Splitting `bs` at newlines: the lines ended so far and the open line.
pub open spec fn split_state(bs: Seq<u8>) -> (Seq<Seq<u8>>, Seq<u8>)
    decreases bs.len(),
{
    if bs.len() == 0 {
        (Seq::empty(), Seq::empty())
    } else {
        let (ls, cur) = split_state(bs.drop_last());
        if bs.last() == 10 {
            (ls.push(strip_cr(cur)), Seq::empty())
        } else {
            (ls, cur.push(bs.last()))
        }
    }
}

/// The lines of `bs`: ended by `\n` or `\r\n`, the last ending optional.
pub open spec fn text_lines(bs: Seq<u8>) -> Seq<Seq<u8>> {
    let (ls, cur) = split_state(bs);
    if cur.len() > 0 {
        ls.push(cur)
    } else {
        ls
    }
}

/// The console after writing one line centred and breaking the line.
pub open spec fn put_centered_line(m: ConsoleModel, line: Seq<u8>, color: ColorCode) -> ConsoleModel {
    broken(
        put_bytes(ConsoleModel { column: centered_column(line.len() as int), ..m }, line, color),
        color,
    )
}

/// The console after writing each of `lines` centred on a row of its own.
pub open spec fn put_art(m: ConsoleModel, lines: Seq<Seq<u8>>, color: ColorCode) -> ConsoleModel
    decreases lines.len(),
{
    if lines.len() == 0 {
        m
    } else {
        put_centered_line(put_art(m, lines.drop_last(), color), lines.last(), color)
    }
}

/// The text writer; it owns the display surface.
pub struct Writer {
    pub column_position: usize,
    pub color_code: ColorCode,
    pub buffer: Buffer,
}

impl Writer {
    pub open spec fn wf(&self) -> bool {
        &&& self.buffer.wf()
        &&& self.column_position <= BUFFER_WIDTH
    }

    pub open spec fn model(&self) -> ConsoleModel {
        ConsoleModel { cells: self.buffer@, column: self.column_position as int }
    }

    /// A writer in yellow on black over a blank display, at the first column.
    pub fn new() -> (r: Writer)
        ensures
            r.wf(),
            r.column_position == 0,
            r.color_code == ColorCode(color_pair(Color::Yellow, Color::Black)),
            forall|i: int| 0 <= i < r.buffer@.len() ==> r.buffer@[i] == blank_in(r.color_code),
    {
        let color_code = ColorCode::new(Color::Yellow, Color::Black);
        Writer {
            column_position: 0,
            color_code,
            buffer: Buffer::filled(ScreenChar { ascii_character: 32, color_code }),
        }
    }

    /// Writes one byte at the cursor: a newline breaks the line, a byte past
    /// the right edge first breaks the line, and a byte that is not printable
    /// ASCII shows as the placeholder glyph.
    pub fn write_byte(&mut self, byte: u8)
        requires
            old(self).wf(),
        ensures
            final(self).wf(),
            final(self).color_code == old(self).color_code,
            final(self).model() == put_byte(old(self).model(), byte, old(self).color_code),
    {
        if byte == 10 {
            self.new_line();
        } else {
            if self.column_position >= BUFFER_WIDTH {
                self.new_line();
            }
            let shown: u8 = if 0x20 <= byte && byte <= 0x7e {
                byte
            } else {
                PLACEHOLDER
            };
            let col = self.column_position;
            self.buffer.write_cell(
                col,
                BUFFER_HEIGHT - 1,
                ScreenChar { ascii_character: shown, color_code: self.color_code },
            );
            self.column_position = col + 1;
        }
    }

    /// Writes the bytes of `s` one by one.
    pub fn write_string(&mut self, s: &str)
        requires
            old(self).wf(),
        ensures
            final(self).wf(),
            final(self).color_code == old(self).color_code,
            final(self).model() == put_bytes(old(self).model(), s.spec_bytes(), old(self).color_code),
    {
        let bytes = s.as_bytes();
        self.write_bytes(bytes);
    }

    fn write_bytes(&mut self, bytes: &[u8])
        requires
            old(self).wf(),
        ensures
            final(self).wf(),
            final(self).color_code == old(self).color_code,
            final(self).model() == put_bytes(old(self).model(), bytes@, old(self).color_code),
    {
        let mut i: usize = 0;
        while i < bytes.len()
            invariant
                self.wf(),
                i <= bytes@.len(),
                self.color_code == old(self).color_code,
                self.model() == put_bytes(old(self).model(), bytes@.take(i as int), self.color_code),
            decreases bytes@.len() - i,
        {
            self.write_byte(bytes[i]);
            i = i + 1;
            assert(bytes@.take(i as int).drop_last() =~= bytes@.take(i - 1));
        }
        assert(bytes@.take(bytes@.len() as int) =~= bytes@);
    }

    /// Scrolls the display up by one row, blanks the bottom row and returns
    /// to the first column.
    pub fn new_line(&mut self)
        requires
            old(self).wf(),
        ensures
            final(self).wf(),
            final(self).color_code == old(self).color_code,
            final(self).model() == broken(old(self).model(), old(self).color_code),
    {
        self.buffer.scroll_up(ScreenChar { ascii_character: 32, color_code: self.color_code });
        self.column_position = 0;
    }

    /// Blanks row `row` in the writer's color; a no-op outside the grid.
    pub fn clear_row(&mut self, row: usize)
        requires
            old(self).wf(),
        ensures
            final(self).wf(),
            final(self).color_code == old(self).color_code,
            final(self).column_position == old(self).column_position,
            row < BUFFER_HEIGHT ==> final(self).buffer@ == row_filled(old(self).buffer@, row as int, blank_in(old(self).color_code)),
            row >= BUFFER_HEIGHT ==> final(self).buffer@ == old(self).buffer@,
    {
        self.buffer.clear_row(row, ScreenChar { ascii_character: 32, color_code: self.color_code });
    }

    /// Writes `text` with the cursor first moved so that it stands centred.
    pub fn write_centered(&mut self, text: &str)
        requires
            old(self).wf(),
        ensures
            final(self).wf(),
            final(self).color_code == old(self).color_code,
            final(self).model() == put_bytes(
                ConsoleModel { column: centered_column(text.spec_bytes().len() as int), ..old(self).model() },
                text.spec_bytes(),
                old(self).color_code,
            ),
    {
        let bytes = text.as_bytes();
        self.write_centered_bytes(bytes);
    }

    fn write_centered_bytes(&mut self, bytes: &[u8])
        requires
            old(self).wf(),
        ensures
            final(self).wf(),
            final(self).color_code == old(self).color_code,
            final(self).model() == put_bytes(
                ConsoleModel { column: centered_column(bytes@.len() as int), ..old(self).model() },
                bytes@,
                old(self).color_code,
            ),
    {
        let len = if bytes.len() < BUFFER_WIDTH {
            bytes.len()
        } else {
            BUFFER_WIDTH
        };
        self.column_position = (BUFFER_WIDTH - len) / 2;
        self.write_bytes(bytes);
    }

    /// Writes each line of `art` centred on a row of its own, breaking the
    /// line after each.
    pub fn write_ascii_art(&mut self, art: &str)
        requires
            old(self).wf(),
        ensures
            final(self).wf(),
            final(self).color_code == old(self).color_code,
            final(self).model() == put_art(old(self).model(), text_lines(art.spec_bytes()), old(self).color_code),
    {
        let bytes = art.as_bytes();
        let mut cur: Vec<u8> = Vec::new();
        let mut i: usize = 0;
        while i < bytes.len()
            invariant
                self.wf(),
                i <= bytes@.len(),
                self.color_code == old(self).color_code,
                cur@ == split_state(bytes@.take(i as int)).1,
                self.model() == put_art(old(self).model(), split_state(bytes@.take(i as int)).0, self.color_code),
            decreases bytes@.len() - i,
        {
            let b = bytes[i];
            assert(bytes@.take(i + 1).drop_last() =~= bytes@.take(i as int));
            let ghost ls = split_state(bytes@.take(i as int)).0;
            let ghost line = strip_cr(cur@);
            if b == 10 {
                if cur.len() > 0 && cur[cur.len() - 1] == 13 {
                    cur.pop();
                }
                assert(cur@ =~= line);
                assert(ls.push(line).drop_last() =~= ls);
                self.write_centered_bytes(cur.as_slice());
                self.new_line();
                cur = Vec::new();
                assert(cur@ =~= Seq::<u8>::empty());
            } else {
                cur.push(b);
            }
            i = i + 1;
        }
        assert(bytes@.take(bytes@.len() as int) =~= bytes@);
        if cur.len() > 0 {
            let ghost ls = split_state(bytes@).0;
            assert(ls.push(cur@).drop_last() =~= ls);
            self.write_centered_bytes(cur.as_slice());
            self.new_line();
        }
    }
    /// Puts `ch` in the writer's color at (`x`, `y`); a no-op outside the grid.
    pub fn draw_char(&mut self, x: usize, y: usize, ch: u8)
        requires
            old(self).wf(),
        ensures
            final(self).wf(),
            final(self).color_code == old(self).color_code,
            final(self).column_position == old(self).column_position,
            in_grid(x as int, y as int) ==> final(self).buffer@ == old(self).buffer@.update(
                cell_index(x as int, y as int),
                ScreenChar { ascii_character: ch, color_code: old(self).color_code },
            ),
            !in_grid(x as int, y as int) ==> final(self).buffer@ == old(self).buffer@,
    {
        self.buffer.write_cell(x, y, ScreenChar { ascii_character: ch, color_code: self.color_code });
    }
}

} // verus!
