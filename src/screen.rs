//! The character-cell display: a fixed 80x25 grid of (character, color) cells,
//! each held in a volatile word so that every read and write reaches the device.

use vstd::prelude::*;
use volatile::Volatile;

verus! {

/// Number of columns of the display.
pub const BUFFER_WIDTH: usize = 80;

/// Number of rows of the display.
pub const BUFFER_HEIGHT: usize = 25;

/// Number of cells of the display.
pub const BUFFER_CELLS: usize = BUFFER_WIDTH * BUFFER_HEIGHT;

#[verifier::external_type_specification]
#[verifier::external_body]
#[verifier::reject_recursive_types(T)]
pub struct ExVolatile<T: Copy>(Volatile<T>);

/// The word last stored in a volatile cell.
pub uninterp spec fn cell_word(v: Volatile<u16>) -> u16;

/// Relies on `volatile::Volatile::new`: the cell starts out holding `w`.
#[verifier::external_body]
fn volatile_cell(w: u16) -> (r: Volatile<u16>)
    ensures
        cell_word(r) == w,
{
    Volatile::new(w)
}

/// Relies on `volatile::Volatile::read`: a volatile load of the stored word.
#[verifier::external_body]
fn volatile_read(v: &Volatile<u16>) -> (r: u16)
    ensures
        r == cell_word(*v),
{
    v.read()
}

/// Relies on `volatile::Volatile::write`: a volatile store of `w`.
#[verifier::external_body]
fn volatile_write(v: &mut Volatile<u16>, w: u16)
    ensures
        cell_word(*final(v)) == w,
{
    v.write(w)
}

/// The sixteen-entry display palette.
#[derive(Debug, Clone, Copy, PartialEq, Eq, Structural)]
pub enum Color {
    Black,
    Blue,
    Green,
    Cyan,
    Red,
    Magenta,
    Brown,
    LightGray,
    DarkGray,
    LightBlue,
    LightGreen,
    LightCyan,
    LightRed,
    Pink,
    Yellow,
    White,
}

impl Color {
    /// The 4-bit hardware number of a palette entry.
    pub open spec fn spec_code(self) -> u8 {
        match self {
            Color::Black => 0,
            Color::Blue => 1,
            Color::Green => 2,
            Color::Cyan => 3,
            Color::Red => 4,
            Color::Magenta => 5,
            Color::Brown => 6,
            Color::LightGray => 7,
            Color::DarkGray => 8,
            Color::LightBlue => 9,
            Color::LightGreen => 10,
            Color::LightCyan => 11,
            Color::LightRed => 12,
            Color::Pink => 13,
            Color::Yellow => 14,
            Color::White => 15,
        }
    }

    pub fn code(self) -> (r: u8)
        ensures
            r == self.spec_code(),
            r < 16,
    {
        match self {
            Color::Black => 0,
            Color::Blue => 1,
            Color::Green => 2,
            Color::Cyan => 3,
            Color::Red => 4,
            Color::Magenta => 5,
            Color::Brown => 6,
            Color::LightGray => 7,
            Color::DarkGray => 8,
            Color::LightBlue => 9,
            Color::LightGreen => 10,
            Color::LightCyan => 11,
            Color::LightRed => 12,
            Color::Pink => 13,
            Color::Yellow => 14,
            Color::White => 15,
        }
    }
}

/// A foreground/background pair, packed as `background << 4 | foreground`.
#[derive(Debug, Clone, Copy, PartialEq, Eq, Structural)]
pub struct ColorCode(pub u8);

/// The packed attribute byte of a color pair.
pub open spec fn color_pair(fg: Color, bg: Color) -> u8 {
    (bg.spec_code() * 16 + fg.spec_code()) as u8
}

impl ColorCode {
    pub open spec fn spec_value(self) -> u8 {
        self.0
    }

    pub fn new(fg: Color, bg: Color) -> (r: ColorCode)
        ensures
            r.spec_value() == color_pair(fg, bg),
            r.spec_value() == bg.spec_code() * 16 + fg.spec_code(),
    {
        ColorCode(bg.code() * 16 + fg.code())
    }

    /// The packed attribute byte.
    pub fn value(self) -> (r: u8)
        ensures
            r == self.spec_value(),
    {
        self.0
    }
}

/// One display cell: a character byte and its color pair.
#[derive(Debug, Clone, Copy, PartialEq, Eq, Structural)]
pub struct ScreenChar {
    pub ascii_character: u8,
    pub color_code: ColorCode,
}

/// The cell that an out-of-range read returns.
pub open spec fn default_cell() -> ScreenChar {
    ScreenChar { ascii_character: 0, color_code: ColorCode(0) }
}

/// The device word of a cell: attribute in the high byte, character in the low.
pub open spec fn cell_to_word(c: ScreenChar) -> u16 {
    (c.color_code.0 as int * 256 + c.ascii_character as int) as u16
}

/// The cell that a device word encodes.
pub open spec fn word_to_cell(w: u16) -> ScreenChar {
    ScreenChar { ascii_character: (w % 256) as u8, color_code: ColorCode((w / 256) as u8) }
}

/// Index of the cell at column `x`, row `y`.
pub open spec fn cell_index(x: int, y: int) -> int {
    y * BUFFER_WIDTH as int + x
}

pub open spec fn in_grid(x: int, y: int) -> bool {
    0 <= x < BUFFER_WIDTH as int && 0 <= y < BUFFER_HEIGHT as int
}

/// The grid after every row moves up by one and the bottom row is filled with `blank`.
pub open spec fn scrolled(s: Seq<ScreenChar>, blank: ScreenChar) -> Seq<ScreenChar> {
    Seq::new(
        BUFFER_CELLS as nat,
        |i: int|
            if i < (BUFFER_CELLS - BUFFER_WIDTH) as int {
                s[i + BUFFER_WIDTH as int]
            } else {
                blank
            },
    )
}

/// The grid with row `row` filled with `blank`.
pub open spec fn row_filled(s: Seq<ScreenChar>, row: int, blank: ScreenChar) -> Seq<ScreenChar> {
    Seq::new(
        s.len(),
        |i: int|
            if row * BUFFER_WIDTH as int <= i < (row + 1) * BUFFER_WIDTH as int {
                blank
            } else {
                s[i]
            },
    )
}

proof fn lemma_word_round_trip(c: ScreenChar)
    ensures
        word_to_cell(cell_to_word(c)) == c,
{
    let w = cell_to_word(c);
    assert(w as int == c.color_code.0 as int * 256 + c.ascii_character as int);
    assert(w % 256 == c.ascii_character as int);
    assert(w / 256 == c.color_code.0 as int);
}

/// The display surface.
pub struct Buffer {
    chars: Vec<Volatile<u16>>,
}

impl View for Buffer {
    type V = Seq<ScreenChar>;

    closed spec fn view(&self) -> Seq<ScreenChar> {
        self.chars@.map(|_i: int, v: Volatile<u16>| word_to_cell(cell_word(v)))
    }
}

impl Buffer {
    /// The grid has exactly one cell per (column, row).
    pub open spec fn wf(&self) -> bool {
        self@.len() == BUFFER_CELLS as nat
    }

    /// A grid with every cell set to `fill`.
    pub fn filled(fill: ScreenChar) -> (r: Buffer)
        ensures
            r.wf(),
            forall|i: int| 0 <= i < BUFFER_CELLS as int ==> r@[i] == fill,
    {
        let w: u16 = fill.color_code.0 as u16 * 256 + fill.ascii_character as u16;
        proof {
            lemma_word_round_trip(fill);
        }
        let mut chars: Vec<Volatile<u16>> = Vec::new();
        let mut i: usize = 0;
        while i < BUFFER_CELLS
            invariant
                i <= BUFFER_CELLS,
                chars@.len() == i,
                w == cell_to_word(fill),
                forall|j: int| 0 <= j < i ==> cell_word(#[trigger] chars@[j]) == w,
            decreases BUFFER_CELLS - i,
        {
            chars.push(volatile_cell(w));
            i = i + 1;
        }
        Buffer { chars }
    }

    /// The cell at (`x`, `y`); the default cell when that lies outside the grid.
    pub fn read_cell(&self, x: usize, y: usize) -> (r: ScreenChar)
        requires
            self.wf(),
        ensures
            in_grid(x as int, y as int) ==> r == self@[cell_index(x as int, y as int)],
            !in_grid(x as int, y as int) ==> r == default_cell(),
    {
        if x < BUFFER_WIDTH && y < BUFFER_HEIGHT {
            let w = volatile_read(&self.chars[y * BUFFER_WIDTH + x]);
            ScreenChar { ascii_character: (w % 256) as u8, color_code: ColorCode((w / 256) as u8) }
        } else {
            ScreenChar { ascii_character: 0, color_code: ColorCode(0) }
        }
    }

    /// Stores `c` at (`x`, `y`); a no-op when that lies outside the grid.
    pub fn write_cell(&mut self, x: usize, y: usize, c: ScreenChar)
        requires
            old(self).wf(),
        ensures
            final(self).wf(),
            in_grid(x as int, y as int) ==> final(self)@ == old(self)@.update(
                cell_index(x as int, y as int),
                c,
            ),
            !in_grid(x as int, y as int) ==> final(self)@ == old(self)@,
    {
        if x < BUFFER_WIDTH && y < BUFFER_HEIGHT {
            let w: u16 = c.color_code.0 as u16 * 256 + c.ascii_character as u16;
            proof {
                lemma_word_round_trip(c);
            }
            let i = y * BUFFER_WIDTH + x;
            volatile_write(&mut self.chars[i], w);
            assert(self@ =~= old(self)@.update(i as int, c));
        }
    }

    /// Moves rows 1..25 up by one row and fills the bottom row with `blank`.
    pub fn scroll_up(&mut self, blank: ScreenChar)
        requires
            old(self).wf(),
        ensures
            final(self).wf(),
            final(self)@ == scrolled(old(self)@, blank),
    {
        let mut i: usize = 0;
        while i < BUFFER_CELLS - BUFFER_WIDTH
            invariant
                self.wf(),
                i <= BUFFER_CELLS - BUFFER_WIDTH,
                forall|j: int| 0 <= j < i ==> self@[j] == old(self)@[j + BUFFER_WIDTH as int],
                forall|j: int| i <= j < BUFFER_CELLS as int ==> self@[j] == old(self)@[j],
            decreases BUFFER_CELLS - BUFFER_WIDTH - i,
        {
            let c = self.read_cell((i + BUFFER_WIDTH) % BUFFER_WIDTH, (i + BUFFER_WIDTH) / BUFFER_WIDTH);
            self.write_cell(i % BUFFER_WIDTH, i / BUFFER_WIDTH, c);
            i = i + 1;
        }
        self.clear_row(BUFFER_HEIGHT - 1, blank);
        assert(self@ =~= scrolled(old(self)@, blank));
    }

    /// Fills row `row` with `blank`; a no-op when the row lies outside the grid.
    pub fn clear_row(&mut self, row: usize, blank: ScreenChar)
        requires
            old(self).wf(),
        ensures
            final(self).wf(),
            row < BUFFER_HEIGHT ==> final(self)@ == row_filled(old(self)@, row as int, blank),
            row >= BUFFER_HEIGHT ==> final(self)@ == old(self)@,
    {
        if row < BUFFER_HEIGHT {
            let mut col: usize = 0;
            while col < BUFFER_WIDTH
                invariant
                    self.wf(),
                    row < BUFFER_HEIGHT,
                    col <= BUFFER_WIDTH,
                    forall|j: int|
                        0 <= j < BUFFER_CELLS as int ==> #[trigger] self@[j] == if row * BUFFER_WIDTH
                            <= j < row * BUFFER_WIDTH + col {
                            blank
                        } else {
                            old(self)@[j]
                        },
                decreases BUFFER_WIDTH - col,
            {
                self.write_cell(col, row, blank);
                col = col + 1;
            }
            assert(self@ =~= row_filled(old(self)@, row as int, blank));
        }
    }
}

} // verus!
