//! The game engine: ball, paddle, block grid and score, advanced by ticks and
//! commands and drawn into the display.

use vstd::prelude::*;
use vstd::string::StringSliceAdditionalSpecFns;
use crate::screen::{
    Buffer, Color, ColorCode, ScreenChar, BUFFER_WIDTH, BUFFER_HEIGHT, cell_index, in_grid,
    color_pair,
};

verus! {

/// Width of the paddle, in cells.
pub const PADDLE_WIDTH: usize = 7;

/// Rows of blocks.
pub const BLOCK_ROWS: usize = 5;

/// Columns of blocks.
pub const BLOCK_COLS: usize = 20;

/// Number of blocks.
pub const BLOCK_COUNT: usize = BLOCK_ROWS * BLOCK_COLS;

/// Width of the display region that one block stands for.
pub const BLOCK_WIDTH: usize = 3;

/// Height of the display region that one block stands for.
pub const BLOCK_HEIGHT: usize = 2;

/// Ticks while running between two moves of the ball.
pub const TICKS_PER_MOVE: usize = 35;

/// Leftmost paddle column.
pub const PADDLE_MIN_X: usize = 1;

/// Rightmost paddle column.
pub const PADDLE_MAX_X: usize = BUFFER_WIDTH - PADDLE_WIDTH - 1;

/// Row of the paddle.
pub const PADDLE_ROW: usize = BUFFER_HEIGHT - 1;

/// Row just above the paddle, the only row on which the ball bounces off it.
pub const BOUNCE_ROW: usize = BUFFER_HEIGHT - 2;

/// Row of the score line and the game-over banner.
pub const SCORE_ROW: usize = BUFFER_HEIGHT - 3;

/// Row of the message shown after a restart.
pub const MESSAGE_ROW: usize = BUFFER_HEIGHT - 4;

#[derive(Debug, Clone, Copy, PartialEq, Eq, Structural)]
pub enum GameState {
    WaitingToStart,
    Running,
    GameOver,
}

/// The mathematical state of a game.
pub struct GameModel {
    pub ball_x: int,
    pub ball_y: int,
    pub ball_dx: int,
    pub ball_dy: int,
    pub paddle_x: int,
    pub blocks: Seq<bool>,
    pub score: int,
    pub state: GameState,
    pub tick_counter: int,
}

/// Number of blocks that are gone.
pub open spec fn destroyed(s: Seq<bool>) -> nat
    decreases s.len(),
{
    if s.len() == 0 {
        0
    } else {
        destroyed(s.drop_last()) + if s.last() {
            0nat
        } else {
            1nat
        }
    }
}

/// Index of the block at (`row`, `col`).
pub open spec fn block_index(row: int, col: int) -> int {
    row * BLOCK_COLS as int + col
}

pub open spec fn clamp(v: int, lo: int, hi: int) -> int {
    if v < lo {
        lo
    } else if v > hi {
        hi
    } else {
        v
    }
}

pub open spec fn is_unit(d: int) -> bool {
    -1 <= d <= 1
}

/// What every reachable game state satisfies.
pub open spec fn model_wf(m: GameModel) -> bool {
    &&& 0 <= m.ball_x < BUFFER_WIDTH as int
    &&& 0 <= m.ball_y < BUFFER_HEIGHT as int
    &&& is_unit(m.ball_dx)
    &&& is_unit(m.ball_dy)
    &&& PADDLE_MIN_X as int <= m.paddle_x <= PADDLE_MAX_X as int
    &&& m.blocks.len() == BLOCK_COUNT as nat
    &&& m.score == destroyed(m.blocks)
    &&& 0 <= m.tick_counter < TICKS_PER_MOVE as int
    &&& m.state != GameState::GameOver ==> m.ball_y < PADDLE_ROW as int
    &&& m.state == GameState::GameOver ==> m.tick_counter == 0
}

/// The paddle column of a new game: the paddle centred on the row.
pub open spec fn initial_paddle_x() -> int {
    (BUFFER_WIDTH as int - PADDLE_WIDTH as int) / 2
}

/// The state of a new game.
pub open spec fn initial_model() -> GameModel {
    GameModel {
        ball_x: initial_paddle_x() + PADDLE_WIDTH as int / 2,
        ball_y: BOUNCE_ROW as int,
        ball_dx: 1,
        ball_dy: -1,
        paddle_x: initial_paddle_x(),
        blocks: Seq::new(BLOCK_COUNT as nat, |i: int| true),
        score: 0,
        state: GameState::WaitingToStart,
        tick_counter: 0,
    }
}

/// One move of the ball: advance, bounce off walls and ceiling, end the game
/// on the bottom row, bounce off the paddle, break at most one block.
pub open spec fn moved(m: GameModel) -> GameModel {
    let x = clamp(m.ball_x + m.ball_dx, 0, BUFFER_WIDTH as int - 1);
    let y = clamp(m.ball_y + m.ball_dy, 0, BUFFER_HEIGHT as int - 1);
    let dx = if x == 0 || x == BUFFER_WIDTH as int - 1 {
        -m.ball_dx
    } else {
        m.ball_dx
    };
    let dy1 = if y == 0 {
        -m.ball_dy
    } else {
        m.ball_dy
    };
    if y >= BUFFER_HEIGHT as int - 1 {
        GameModel { ball_x: x, ball_y: y, ball_dx: dx, ball_dy: dy1, state: GameState::GameOver, ..m }
    } else {
        let dy2 = if y == BOUNCE_ROW as int && m.paddle_x <= x < m.paddle_x + PADDLE_WIDTH as int {
            -dy1
        } else {
            dy1
        };
        let row = y / BLOCK_HEIGHT as int;
        let col = x / BLOCK_WIDTH as int;
        if row < BLOCK_ROWS as int && col < BLOCK_COLS as int && m.blocks[block_index(row, col)] {
            GameModel {
                ball_x: x,
                ball_y: y,
                ball_dx: dx,
                ball_dy: -dy2,
                blocks: m.blocks.update(block_index(row, col), false),
                score: m.score + 1,
                ..m
            }
        } else {
            GameModel { ball_x: x, ball_y: y, ball_dx: dx, ball_dy: dy2, ..m }
        }
    }
}

/// The state after one tick.
pub open spec fn ticked(m: GameModel) -> GameModel {
    match m.state {
        GameState::GameOver => m,
        GameState::Running => if m.tick_counter + 1 == TICKS_PER_MOVE as int {
            moved(GameModel { tick_counter: 0, ..m })
        } else {
            GameModel { tick_counter: m.tick_counter + 1, ..m }
        },
        GameState::WaitingToStart => GameModel {
            ball_x: m.paddle_x + PADDLE_WIDTH as int / 2,
            ball_y: BOUNCE_ROW as int,
            ..m
        },
    }
}

/// The state after a paddle move by `delta`, kept within the paddle's range.
pub open spec fn paddle_moved(m: GameModel, delta: int) -> GameModel {
    if m.state == GameState::GameOver {
        m
    } else {
        GameModel {
            paddle_x: clamp(m.paddle_x + delta, PADDLE_MIN_X as int, PADDLE_MAX_X as int),
            ..m
        }
    }
}

/// The state after the start command.
pub open spec fn started(m: GameModel) -> GameModel {
    if m.state == GameState::WaitingToStart {
        GameModel { state: GameState::Running, ..m }
    } else {
        m
    }
}

pub proof fn lemma_destroyed_bound(s: Seq<bool>)
    ensures
        destroyed(s) <= s.len(),
    decreases s.len(),
{
    if s.len() > 0 {
        lemma_destroyed_bound(s.drop_last());
    }
}

proof fn lemma_destroyed_none(s: Seq<bool>)
    requires
        forall|i: int| 0 <= i < s.len() ==> s[i],
    ensures
        destroyed(s) == 0,
    decreases s.len(),
{
    if s.len() > 0 {
        lemma_destroyed_none(s.drop_last());
    }
}

proof fn lemma_destroy_one(s: Seq<bool>, i: int)
    requires
        0 <= i < s.len(),
        s[i],
    ensures
        destroyed(s.update(i, false)) == destroyed(s) + 1,
    decreases s.len(),
{
    let t = s.update(i, false);
    if i == s.len() - 1 {
        assert(t.drop_last() =~= s.drop_last());
    } else {
        assert(t.drop_last() =~= s.drop_last().update(i, false));
        lemma_destroy_one(s.drop_last(), i);
    }
}

/// The ball's glyph.
pub open spec fn ball_glyph() -> ScreenChar {
    ScreenChar { ascii_character: 111u8, color_code: ColorCode(color_pair(Color::White, Color::Black)) }
}

/// What an erased ball or paddle cell holds.
pub open spec fn blank_glyph() -> ScreenChar {
    ScreenChar { ascii_character: 32u8, color_code: ColorCode(color_pair(Color::Black, Color::Black)) }
}

/// One cell of the paddle.
pub open spec fn paddle_glyph() -> ScreenChar {
    ScreenChar { ascii_character: 61u8, color_code: ColorCode(color_pair(Color::Green, Color::Black)) }
}

/// The color of the blocks of row `row`.
pub open spec fn row_color(row: int) -> Color {
    if row == 0 {
        Color::Red
    } else if row == 1 {
        Color::Magenta
    } else if row == 2 {
        Color::Brown
    } else if row == 3 {
        Color::Cyan
    } else {
        Color::LightGray
    }
}

/// A cell of the block at row `row`: `#` when present, blank when gone.
pub open spec fn block_glyph(present: bool, row: int) -> ScreenChar {
    ScreenChar {
        ascii_character: if present {
            35u8
        } else {
            32u8
        },
        color_code: ColorCode(color_pair(row_color(row), Color::Black)),
    }
}

/// Row `y` starts with `text` (cut at the right edge) in color `color`.
pub open spec fn text_drawn(s: Seq<ScreenChar>, y: int, text: Seq<u8>, color: ColorCode) -> bool {
    forall|i: int|
        0 <= i < text.len() && i < BUFFER_WIDTH as int ==> s[cell_index(i, y)] == (ScreenChar {
            ascii_character: text[i],
            color_code: color,
        })
}

/// Cell `i` of a paddle standing at column `px`.
pub open spec fn paddle_cell(px: int, i: int) -> int {
    cell_index(px + i, PADDLE_ROW as int)
}

/// The paddle stands at column `px` of the paddle row.
pub open spec fn paddle_drawn(s: Seq<ScreenChar>, px: int) -> bool {
    forall|i: int| 0 <= i < PADDLE_WIDTH as int ==> s[#[trigger] paddle_cell(px, i)] == paddle_glyph()
}

/// Cell (`dx`, `dy`) of the footprint of block (`row`, `col`).
pub open spec fn block_cell(row: int, col: int, dx: int, dy: int) -> int {
    cell_index(col * BLOCK_WIDTH as int + dx, row * BLOCK_HEIGHT as int + dy)
}

pub open spec fn in_block_glyph(row: int, col: int, dx: int, dy: int) -> bool {
    0 <= row < BLOCK_ROWS as int && 0 <= col < BLOCK_COLS as int && 0 <= dx < 2 && 0 <= dy < 2
}

/// Cell (`x`, `y`) is never part of a block's 2x2 glyph.
pub open spec fn off_block_glyphs(x: int, y: int) -> bool {
    ||| y >= (BLOCK_ROWS * BLOCK_HEIGHT) as int
    ||| x >= (BLOCK_COLS * BLOCK_WIDTH) as int
    ||| x % BLOCK_WIDTH as int == 2
}

proof fn lemma_off_glyph_cell_differs(x: int, y: int, gx: int, gy: int)
    requires
        in_grid(x, y),
        off_block_glyphs(x, y),
        0 <= gx < (BLOCK_COLS * BLOCK_WIDTH) as int,
        0 <= gy < (BLOCK_ROWS * BLOCK_HEIGHT) as int,
        gx % BLOCK_WIDTH as int != 2,
    ensures
        cell_index(x, y) != cell_index(gx, gy),
{
}

/// Each block is drawn as a 2x2 glyph at the top left of its footprint,
/// except in cell `skip`.
pub open spec fn blocks_drawn(s: Seq<ScreenChar>, blocks: Seq<bool>, skip: int) -> bool {
    forall|row: int, col: int, dx: int, dy: int|
        in_block_glyph(row, col, dx, dy) && block_cell(row, col, dx, dy) != skip
            ==> s[#[trigger] block_cell(row, col, dx, dy)] == block_glyph(
            blocks[block_index(row, col)],
            row,
        )
}

/// The digits of `n` in decimal.
pub open spec fn decimal(n: nat) -> Seq<u8>
    decreases n,
{
    if n < 10 {
        seq![(n + 48) as u8]
    } else {
        decimal(n / 10).push((n % 10 + 48) as u8)
    }
}

/// `s` padded on the left with spaces to at least `w` bytes.
pub open spec fn padded(s: Seq<u8>, w: nat) -> Seq<u8> {
    if s.len() < w {
        Seq::new((w - s.len()) as nat, |i: int| 32u8) + s
    } else {
        s
    }
}

/// The status line shown while the game is on.
pub open spec fn score_line(score: nat) -> Seq<u8> {
    "Score: ".spec_bytes() + padded(decimal(score), 3) + " | Platinum-tan cheering you on~!".spec_bytes()
}

/// The banner shown once the game is over.
pub open spec fn game_over_line(score: nat) -> Seq<u8> {
    "\u{1F494} Game Over, senpai! Score: ".spec_bytes() + decimal(score)
}

/// The message shown after a restart.
pub open spec fn restart_line() -> Seq<u8> {
    "Platinum-tan: Ready! Press SPACE again, senpai~".spec_bytes()
}

/// Writes the bytes of `n` in decimal.
fn decimal_bytes(n: usize) -> (r: Vec<u8>)
    ensures
        r@ == decimal(n as nat),
    decreases n,
{
    if n < 10 {
        let d: u8 = n as u8 + 48;
        let mut v: Vec<u8> = Vec::new();
        v.push(d);
        assert(v@ =~= decimal(n as nat));
        v
    } else {
        let mut v = decimal_bytes(n / 10);
        let d: u8 = (n % 10) as u8 + 48;
        v.push(d);
        v
    }
}

fn append_bytes(v: &mut Vec<u8>, s: &[u8])
    ensures
        final(v)@ == old(v)@ + s@,
{
    let mut i: usize = 0;
    while i < s.len()
        invariant
            i <= s@.len(),
            v@ == old(v)@ + s@.subrange(0, i as int),
        decreases s@.len() - i,
    {
        v.push(s[i]);
        i = i + 1;
        assert(s@.subrange(0, i as int) =~= s@.subrange(0, i - 1).push(s@[i - 1]));
    }
    assert(s@.subrange(0, s@.len() as int) =~= s@);
}

fn score_line_bytes(score: usize) -> (r: Vec<u8>)
    ensures
        r@ == score_line(score as nat),
{
    let mut v: Vec<u8> = Vec::new();
    append_bytes(&mut v, "Score: ".as_bytes());
    let digits = decimal_bytes(score);
    let mut k: usize = digits.len();
    while k < 3
        invariant
            digits.len() <= k <= 3 || (k == digits.len() && k > 3),
            v@ == "Score: ".spec_bytes() + Seq::new((k - digits@.len()) as nat, |i: int| 32u8),
        decreases 3 - k,
    {
        v.push(32u8);
        k = k + 1;
        assert(v@ =~= "Score: ".spec_bytes() + Seq::new((k - digits@.len()) as nat, |i: int| 32u8));
    }
    append_bytes(&mut v, digits.as_slice());
    append_bytes(&mut v, " | Platinum-tan cheering you on~!".as_bytes());
    assert(v@ =~= score_line(score as nat));
    v
}

fn game_over_line_bytes(score: usize) -> (r: Vec<u8>)
    ensures
        r@ == game_over_line(score as nat),
{
    let mut v: Vec<u8> = Vec::new();
    append_bytes(&mut v, "\u{1F494} Game Over, senpai! Score: ".as_bytes());
    let digits = decimal_bytes(score);
    append_bytes(&mut v, digits.as_slice());
    assert(v@ =~= game_over_line(score as nat));
    v
}

fn restart_line_bytes() -> (r: Vec<u8>)
    ensures
        r@ == restart_line(),
{
    let mut v: Vec<u8> = Vec::new();
    append_bytes(&mut v, "Platinum-tan: Ready! Press SPACE again, senpai~".as_bytes());
    assert(v@ =~= restart_line());
    v
}

/// Number of cells that a text of `len` bytes takes on a row.
pub open spec fn text_width(len: int) -> int {
    if len < BUFFER_WIDTH as int {
        len
    } else {
        BUFFER_WIDTH as int
    }
}

/// `s1` equals `s0` but in the first `text_width(len)` cells of row `y`.
pub open spec fn text_kept(s0: Seq<ScreenChar>, s1: Seq<ScreenChar>, y: int, len: int) -> bool {
    &&& s1.len() == s0.len()
    &&& forall|j: int|
        0 <= j < s1.len() && !(cell_index(0, y) <= j < cell_index(text_width(len), y)) ==> #[trigger] s1[j]
            == s0[j]
}

/// Writes `text` at the start of row `y`, cut at the right edge.
fn draw_text(screen: &mut Buffer, y: usize, text: &Vec<u8>, color: ColorCode)
    requires
        old(screen).wf(),
        y < BUFFER_HEIGHT,
    ensures
        final(screen).wf(),
        text_drawn(final(screen)@, y as int, text@, color),
        text_kept(old(screen)@, final(screen)@, y as int, text@.len() as int),
{
    let mut i: usize = 0;
    while i < text.len() && i < BUFFER_WIDTH
        invariant
            screen.wf(),
            y < BUFFER_HEIGHT,
            i <= BUFFER_WIDTH,
            forall|k: int|
                0 <= k < i && k < text@.len() ==> screen@[cell_index(k, y as int)] == (ScreenChar {
                    ascii_character: text@[k],
                    color_code: color,
                }),
            text_kept(old(screen)@, screen@, y as int, i as int),
            i <= text@.len(),
        decreases BUFFER_WIDTH - i,
    {
        screen.write_cell(i, y, ScreenChar { ascii_character: text[i], color_code: color });
        i = i + 1;
    }
}

/// The ball of state `m0` was wiped off before the redraw of state `m1`: its
/// old cell is blank unless the redraw put the ball, a block glyph or the
/// status line there.
pub open spec fn old_ball_erased(s: Seq<ScreenChar>, m0: GameModel, m1: GameModel) -> bool {
    cell_index(m0.ball_x, m0.ball_y) != cell_index(m1.ball_x, m1.ball_y) && off_block_glyphs(m0.ball_x, m0.ball_y)
        && !under_score_line(m0.ball_x, m0.ball_y, m1) ==> s[cell_index(m0.ball_x, m0.ball_y)] == blank_glyph()
}

/// The ball and the paddle of state `m` are wiped off the screen.
pub open spec fn erased(s: Seq<ScreenChar>, m: GameModel) -> bool {
    &&& s[cell_index(m.ball_x, m.ball_y)] == blank_glyph()
    &&& forall|i: int| 0 <= i < PADDLE_WIDTH as int ==> s[#[trigger] paddle_cell(m.paddle_x, i)] == blank_glyph()
}

/// Cell (`x`, `y`) lies under the status line of state `m`.
pub open spec fn under_score_line(x: int, y: int, m: GameModel) -> bool {
    y == SCORE_ROW as int && x < text_width(score_line(m.score as nat).len() as int)
}

/// What a redraw leaves on the screen: the blocks (but where the ball is),
/// the paddle, the ball (unless the status line covers it) and the status line.
pub open spec fn frame_drawn(s: Seq<ScreenChar>, m: GameModel) -> bool {
    &&& blocks_drawn(s, m.blocks, cell_index(m.ball_x, m.ball_y))
    &&& paddle_drawn(s, m.paddle_x)
    &&& !under_score_line(m.ball_x, m.ball_y, m) ==> s[cell_index(m.ball_x, m.ball_y)] == ball_glyph()
    &&& text_drawn(s, SCORE_ROW as int, score_line(m.score as nat), ColorCode(color_pair(Color::Pink, Color::Black)))
}

/// A paddle move from column `old_px` to `new_px`: the paddle stands at its new
/// place, the cells that it left are blank, and no other cell changed.
pub open spec fn paddle_moved_drawn(s0: Seq<ScreenChar>, s1: Seq<ScreenChar>, old_px: int, new_px: int) -> bool {
    &&& paddle_drawn(s1, new_px)
    &&& forall|i: int|
        0 <= i < PADDLE_WIDTH as int && !(new_px <= old_px + i < new_px + PADDLE_WIDTH as int)
            ==> s1[#[trigger] paddle_cell(old_px, i)] == blank_glyph()
    &&& s1.len() == s0.len()
    &&& forall|j: int|
        0 <= j < s1.len() && !(paddle_cell(old_px, 0) <= j < paddle_cell(old_px, PADDLE_WIDTH as int))
            && !(paddle_cell(new_px, 0) <= j < paddle_cell(new_px, PADDLE_WIDTH as int)) ==> #[trigger] s1[j]
            == s0[j]
}

/// A move of the ball keeps every invariant of the game.
proof fn lemma_moved_wf(m: GameModel)
    requires
        model_wf(m),
        m.state == GameState::Running,
        m.tick_counter == 0,
    ensures
        model_wf(moved(m)),
{
    let x = clamp(m.ball_x + m.ball_dx, 0, BUFFER_WIDTH as int - 1);
    let y = clamp(m.ball_y + m.ball_dy, 0, BUFFER_HEIGHT as int - 1);
    let row = y / BLOCK_HEIGHT as int;
    let col = x / BLOCK_WIDTH as int;
    if y < BUFFER_HEIGHT as int - 1 && row < BLOCK_ROWS as int && col < BLOCK_COLS as int
        && m.blocks[block_index(row, col)] {
        lemma_destroy_one(m.blocks, block_index(row, col));
    }
}

/// The ball never leaves the grid: from any valid state, a tick leads to a
/// valid state, whose ball lies within the 80x25 grid.
pub proof fn lemma_tick_keeps_ball_in_grid(m: GameModel)
    requires
        model_wf(m),
    ensures
        model_wf(ticked(m)),
        0 <= ticked(m).ball_x < BUFFER_WIDTH as int,
        0 <= ticked(m).ball_y < BUFFER_HEIGHT as int,
{
    if m.state == GameState::Running && m.tick_counter + 1 == TICKS_PER_MOVE as int {
        lemma_moved_wf(GameModel { tick_counter: 0, ..m });
    }
}

/// The score counts the blocks that are gone, so it never exceeds the number
/// of blocks; a tick raises it by exactly the number of blocks it breaks, which
/// is at most one, and the paddle and start commands leave it alone.
pub proof fn lemma_score_counts_broken_blocks(m: GameModel)
    requires
        model_wf(m),
    ensures
        0 <= m.score <= BLOCK_COUNT as int,
        ticked(m).score == m.score + (destroyed(ticked(m).blocks) - destroyed(m.blocks)),
        m.score <= ticked(m).score <= m.score + 1,
        ticked(m).score <= BLOCK_COUNT as int,
        paddle_moved(m, -1).score == m.score && paddle_moved(m, -1).blocks == m.blocks,
        paddle_moved(m, 1).score == m.score && paddle_moved(m, 1).blocks == m.blocks,
        started(m).score == m.score && started(m).blocks == m.blocks,
{
    lemma_destroyed_bound(m.blocks);
    lemma_tick_keeps_ball_in_grid(m);
    lemma_destroyed_bound(ticked(m).blocks);
}

/// The state after `n` ticks.
pub open spec fn ticked_n(m: GameModel, n: nat) -> GameModel
    decreases n,
{
    if n == 0 {
        m
    } else {
        ticked(ticked_n(m, (n - 1) as nat))
    }
}

/// Over any number of ticks the ball stays within the grid and the score
/// never falls, never rises by more than the number of ticks, and never
/// exceeds the number of blocks.
pub proof fn lemma_ticks_keep_ball_and_score(m: GameModel, n: nat)
    requires
        model_wf(m),
    ensures
        model_wf(ticked_n(m, n)),
        0 <= ticked_n(m, n).ball_x < BUFFER_WIDTH as int,
        0 <= ticked_n(m, n).ball_y < BUFFER_HEIGHT as int,
        m.score <= ticked_n(m, n).score <= m.score + n,
        ticked_n(m, n).score <= BLOCK_COUNT as int,
    decreases n,
{
    if n > 0 {
        lemma_ticks_keep_ball_and_score(m, (n - 1) as nat);
        lemma_score_counts_broken_blocks(ticked_n(m, (n - 1) as nat));
    } else {
        lemma_destroyed_bound(m.blocks);
    }
}

/// The state of a new game, which a restart returns to: score 0, every block
/// present, waiting to start, the paddle at column 36 and the ball just above
/// its middle at (39, 23).
pub proof fn lemma_initial_state()
    ensures
        model_wf(initial_model()),
        initial_model().score == 0,
        initial_model().state == GameState::WaitingToStart,
        initial_model().blocks.len() == BLOCK_COUNT as nat,
        forall|i: int| 0 <= i < BLOCK_COUNT as int ==> #[trigger] initial_model().blocks[i],
        initial_model().paddle_x == 36,
        initial_model().ball_x == 39,
        initial_model().ball_y == 23,
        initial_model().tick_counter == 0,
{
    lemma_destroyed_none(initial_model().blocks);
}

/// A paddle move leaves the paddle within columns 1 to 72, and moving left
/// (or right) once more at the edge changes nothing.
pub proof fn lemma_paddle_stays_in_range(m: GameModel)
    requires
        model_wf(m),
    ensures
        PADDLE_MIN_X as int <= paddle_moved(m, -1).paddle_x <= PADDLE_MAX_X as int,
        PADDLE_MIN_X as int <= paddle_moved(m, 1).paddle_x <= PADDLE_MAX_X as int,
        model_wf(paddle_moved(m, -1)),
        model_wf(paddle_moved(m, 1)),
        m.paddle_x == PADDLE_MIN_X as int ==> paddle_moved(m, -1) == m,
        m.paddle_x == PADDLE_MAX_X as int ==> paddle_moved(m, 1) == m,
        m.state != GameState::GameOver && m.paddle_x > PADDLE_MIN_X as int ==> paddle_moved(m, -1).paddle_x == m.paddle_x - 1,
        m.state != GameState::GameOver && m.paddle_x < PADDLE_MAX_X as int ==> paddle_moved(m, 1).paddle_x == m.paddle_x + 1,
{
}

/// A player command.
#[derive(Debug, Clone, Copy, PartialEq, Eq, Structural)]
pub enum Command {
    MoveLeft,
    MoveRight,
    Start,
    Restart,
}

/// The command of a key-press scancode: A moves left, D moves right, SPACE
/// starts and R restarts; every other code means nothing.
pub open spec fn spec_command_of_scancode(code: u8) -> Option<Command> {
    if code == 0x1e {
        Some(Command::MoveLeft)
    } else if code == 0x20 {
        Some(Command::MoveRight)
    } else if code == 0x39 {
        Some(Command::Start)
    } else if code == 0x13 {
        Some(Command::Restart)
    } else {
        None
    }
}

pub fn command_of_scancode(code: u8) -> (r: Option<Command>)
    ensures
        r == spec_command_of_scancode(code),
{
    if code == 0x1e {
        Some(Command::MoveLeft)
    } else if code == 0x20 {
        Some(Command::MoveRight)
    } else if code == 0x39 {
        Some(Command::Start)
    } else if code == 0x13 {
        Some(Command::Restart)
    } else {
        None
    }
}

/// The game state after command `c`.
pub open spec fn commanded(m: GameModel, c: Command) -> GameModel {
    match c {
        Command::MoveLeft => paddle_moved(m, -1),
        Command::MoveRight => paddle_moved(m, 1),
        Command::Start => started(m),
        Command::Restart => initial_model(),
    }
}

pub struct Arkanoid {
    ball_x: usize,
    ball_y: usize,
    ball_dx: isize,
    ball_dy: isize,
    paddle_x: usize,
    blocks: Vec<bool>,
    score: usize,
    state: GameState,
    tick_counter: usize,
}

impl View for Arkanoid {
    type V = GameModel;

    closed spec fn view(&self) -> GameModel {
        GameModel {
            ball_x: self.ball_x as int,
            ball_y: self.ball_y as int,
            ball_dx: self.ball_dx as int,
            ball_dy: self.ball_dy as int,
            paddle_x: self.paddle_x as int,
            blocks: self.blocks@,
            score: self.score as int,
            state: self.state,
            tick_counter: self.tick_counter as int,
        }
    }
}

impl Arkanoid {
    pub open spec fn wf(&self) -> bool {
        model_wf(self@)
    }

    /// A new game: waiting to start, every block present, score 0, the paddle
    /// centred and the ball resting above its middle.
    pub fn new() -> (r: Arkanoid)
        ensures
            r.wf(),
            r@ == initial_model(),
    {
        let mut blocks: Vec<bool> = Vec::new();
        let mut i: usize = 0;
        while i < BLOCK_COUNT
            invariant
                i <= BLOCK_COUNT,
                blocks@.len() == i,
                forall|j: int| 0 <= j < i ==> blocks@[j],
            decreases BLOCK_COUNT - i,
        {
            blocks.push(true);
            i = i + 1;
        }
        proof {
            lemma_destroyed_none(blocks@);
            assert(blocks@ =~= initial_model().blocks);
        }
        let paddle_x: usize = (BUFFER_WIDTH - PADDLE_WIDTH) / 2;
        Arkanoid {
            ball_x: paddle_x + PADDLE_WIDTH / 2,
            ball_y: BOUNCE_ROW,
            ball_dx: 1,
            ball_dy: -1,
            paddle_x,
            blocks,
            score: 0,
            state: GameState::WaitingToStart,
            tick_counter: 0,
        }
    }

    /// One move of the ball.
    fn move_ball(&mut self)
        requires
            old(self).wf(),
            old(self)@.state == GameState::Running,
            old(self)@.tick_counter == 0,
        ensures
            final(self).wf(),
            final(self)@ == moved(old(self)@),
    {
        let nx: isize = self.ball_x as isize + self.ball_dx;
        let ny: isize = self.ball_y as isize + self.ball_dy;
        self.ball_x = if nx < 0 {
            0
        } else if nx > (BUFFER_WIDTH - 1) as isize {
            BUFFER_WIDTH - 1
        } else {
            nx as usize
        };
        self.ball_y = if ny < 0 {
            0
        } else if ny > (BUFFER_HEIGHT - 1) as isize {
            BUFFER_HEIGHT - 1
        } else {
            ny as usize
        };
        if self.ball_x == 0 || self.ball_x == BUFFER_WIDTH - 1 {
            self.ball_dx = -self.ball_dx;
        }
        if self.ball_y == 0 {
            self.ball_dy = -self.ball_dy;
        }
        if self.ball_y >= BUFFER_HEIGHT - 1 {
            self.state = GameState::GameOver;
            return;
        }
        if self.ball_y == BOUNCE_ROW && self.paddle_x <= self.ball_x && self.ball_x
            < self.paddle_x + PADDLE_WIDTH {
            self.ball_dy = -self.ball_dy;
        }
        let row = self.ball_y / BLOCK_HEIGHT;
        let col = self.ball_x / BLOCK_WIDTH;
        if row < BLOCK_ROWS && col < BLOCK_COLS {
            let k = row * BLOCK_COLS + col;
            if self.blocks[k] {
                proof {
                    lemma_destroy_one(self.blocks@, k as int);
                    lemma_destroyed_bound(self.blocks@.update(k as int, false));
                }
                self.blocks.set(k, false);
                self.ball_dy = -self.ball_dy;
                self.score = self.score + 1;
            }
        }
    }

    /// Advances the game by one tick and redraws it. A finished game only
    /// shows its banner; a game that ends during this tick is left erased.
    pub fn tick(&mut self, screen: &mut Buffer)
        requires
            old(self).wf(),
            old(screen).wf(),
        ensures
            final(self).wf(),
            final(screen).wf(),
            final(self)@ == ticked(old(self)@),
            old(self)@.state == GameState::GameOver ==> text_drawn(
                final(screen)@,
                SCORE_ROW as int,
                game_over_line(old(self)@.score as nat),
                ColorCode(color_pair(Color::LightRed, Color::Black)),
            ),
            old(self)@.state == GameState::GameOver ==> text_kept(
                old(screen)@,
                final(screen)@,
                SCORE_ROW as int,
                game_over_line(old(self)@.score as nat).len() as int,
            ),
            final(self)@.state != GameState::GameOver ==> frame_drawn(final(screen)@, final(self)@),
            final(self)@.state != GameState::GameOver ==> old_ball_erased(final(screen)@, old(self)@, final(self)@),
            old(self)@.state != GameState::GameOver && final(self)@.state == GameState::GameOver
                ==> erased(final(screen)@, old(self)@),
    {
        if self.state == GameState::GameOver {
            self.draw_game_over(screen);
            return;
        }
        self.clear_ball(screen);
        self.clear_paddle(screen);
        assert(erased(screen@, old(self)@));
        let ghost se = screen@;
        match self.state {
            GameState::Running => {
                if self.tick_counter + 1 == TICKS_PER_MOVE {
                    self.tick_counter = 0;
                    self.move_ball();
                    if self.state == GameState::GameOver {
                        return;
                    }
                } else {
                    self.tick_counter = self.tick_counter + 1;
                }
            },
            _ => {
                self.ball_x = self.paddle_x + PADDLE_WIDTH / 2;
                self.ball_y = BOUNCE_ROW;
            },
        }
        self.draw_blocks(screen);
        let ghost s1 = screen@;
        self.draw_paddle(screen);
        let ghost s2 = screen@;
        assert(paddle_drawn(s2, self@.paddle_x));
        self.draw_ball(screen);
        let ghost s3 = screen@;
        assert(paddle_drawn(s3, self@.paddle_x));
        self.draw_score(screen);
        let ghost s4 = screen@;
        let ghost j0 = cell_index(old(self)@.ball_x, old(self)@.ball_y);
        proof {
            if j0 != cell_index(self@.ball_x, self@.ball_y) && off_block_glyphs(old(self)@.ball_x, old(self)@.ball_y)
                && !under_score_line(old(self)@.ball_x, old(self)@.ball_y, self@) {
                assert(se[j0] == blank_glyph());
                assert(s1[j0] == se[j0]);
                assert(s2[j0] == s1[j0]);
                assert(s3[j0] == s2[j0]);
                assert(s4[j0] == s3[j0]);
            }
        }
        assert forall|row: int, col: int, dx: int, dy: int|
            in_block_glyph(row, col, dx, dy) && block_cell(row, col, dx, dy) != cell_index(
                self@.ball_x,
                self@.ball_y,
            ) implies s4[#[trigger] block_cell(row, col, dx, dy)] == block_glyph(
            self@.blocks[block_index(row, col)],
            row,
        ) by {
            let b = block_cell(row, col, dx, dy);
            assert(s1[b] == block_glyph(self@.blocks[block_index(row, col)], row));
            assert(s2[b] == s1[b]);
        }
        assert forall|i: int| 0 <= i < PADDLE_WIDTH as int implies s4[#[trigger] paddle_cell(
            self@.paddle_x,
            i,
        )] == paddle_glyph() by {
            assert(s3[paddle_cell(self@.paddle_x, i)] == paddle_glyph());
        }
    }

    /// Moves the paddle one column left, not past its leftmost column;
    /// ignored once the game is over.
    pub fn move_left(&mut self, screen: &mut Buffer)
        requires
            old(self).wf(),
            old(screen).wf(),
        ensures
            final(self).wf(),
            final(screen).wf(),
            final(self)@ == paddle_moved(old(self)@, -1),
            old(self)@.state == GameState::GameOver ==> final(screen)@ == old(screen)@,
            old(self)@.state != GameState::GameOver ==> paddle_moved_drawn(
                old(screen)@,
                final(screen)@,
                old(self)@.paddle_x,
                final(self)@.paddle_x,
            ),
    {
        if self.state == GameState::GameOver {
            return;
        }
        self.clear_paddle(screen);
        if self.paddle_x > PADDLE_MIN_X {
            self.paddle_x = self.paddle_x - 1;
        }
        self.draw_paddle(screen);
    }

    /// Moves the paddle one column right, not past its rightmost column;
    /// ignored once the game is over.
    pub fn move_right(&mut self, screen: &mut Buffer)
        requires
            old(self).wf(),
            old(screen).wf(),
        ensures
            final(self).wf(),
            final(screen).wf(),
            final(self)@ == paddle_moved(old(self)@, 1),
            old(self)@.state == GameState::GameOver ==> final(screen)@ == old(screen)@,
            old(self)@.state != GameState::GameOver ==> paddle_moved_drawn(
                old(screen)@,
                final(screen)@,
                old(self)@.paddle_x,
                final(self)@.paddle_x,
            ),
    {
        if self.state == GameState::GameOver {
            return;
        }
        self.clear_paddle(screen);
        if self.paddle_x < PADDLE_MAX_X {
            self.paddle_x = self.paddle_x + 1;
        }
        self.draw_paddle(screen);
    }

    /// Launches the ball of a game that waits to start.
    pub fn start_ball(&mut self)
        requires
            old(self).wf(),
        ensures
            final(self).wf(),
            final(self)@ == started(old(self)@),
    {
        if self.state == GameState::WaitingToStart {
            self.state = GameState::Running;
        }
    }

    /// Puts the game back in the state of a new one and shows the ready message.
    pub fn restart(&mut self, screen: &mut Buffer)
        requires
            old(screen).wf(),
        ensures
            final(self).wf(),
            final(screen).wf(),
            final(self)@ == initial_model(),
            text_drawn(final(screen)@, MESSAGE_ROW as int, restart_line(), ColorCode(color_pair(Color::Cyan, Color::Black))),
            text_kept(old(screen)@, final(screen)@, MESSAGE_ROW as int, restart_line().len() as int),
    {
        *self = Arkanoid::new();
        self.draw_restart_message(screen);
    }

    /// Carries out command `c`.
    pub fn handle(&mut self, c: Command, screen: &mut Buffer)
        requires
            old(self).wf(),
            old(screen).wf(),
        ensures
            final(self).wf(),
            final(screen).wf(),
            final(self)@ == commanded(old(self)@, c),
    {
        match c {
            Command::MoveLeft => self.move_left(screen),
            Command::MoveRight => self.move_right(screen),
            Command::Start => self.start_ball(),
            Command::Restart => self.restart(screen),
        }
    }

    /// Puts the ball at (`x`, `y`) with velocity (`dx`, `dy`).
    pub fn place_ball(&mut self, x: usize, y: usize, dx: isize, dy: isize)
        requires
            old(self).wf(),
            x < BUFFER_WIDTH,
            y < PADDLE_ROW,
            -1 <= dx <= 1,
            -1 <= dy <= 1,
        ensures
            final(self).wf(),
            final(self)@ == (GameModel { ball_x: x as int, ball_y: y as int, ball_dx: dx as int, ball_dy: dy as int, ..old(self)@ }),
    {
        self.ball_x = x;
        self.ball_y = y;
        self.ball_dx = dx;
        self.ball_dy = dy;
    }

    pub fn ball_x(&self) -> (r: usize)
        ensures
            r == self@.ball_x,
    {
        self.ball_x
    }

    pub fn ball_y(&self) -> (r: usize)
        ensures
            r == self@.ball_y,
    {
        self.ball_y
    }

    pub fn ball_dx(&self) -> (r: isize)
        ensures
            r == self@.ball_dx,
    {
        self.ball_dx
    }

    pub fn ball_dy(&self) -> (r: isize)
        ensures
            r == self@.ball_dy,
    {
        self.ball_dy
    }

    pub fn paddle_x(&self) -> (r: usize)
        ensures
            r == self@.paddle_x,
    {
        self.paddle_x
    }

    pub fn score(&self) -> (r: usize)
        ensures
            r == self@.score,
    {
        self.score
    }

    pub fn state(&self) -> (r: GameState)
        ensures
            r == self@.state,
    {
        self.state
    }

    /// Whether block (`row`, `col`) is still there; false outside the block grid.
    pub fn block_present(&self, row: usize, col: usize) -> (r: bool)
        requires
            self.wf(),
        ensures
            r == (row < BLOCK_ROWS && col < BLOCK_COLS && self@.blocks[block_index(row as int, col as int)]),
    {
        if row < BLOCK_ROWS && col < BLOCK_COLS {
            self.blocks[row * BLOCK_COLS + col]
        } else {
            false
        }
    }

    fn draw_char_colored(&self, screen: &mut Buffer, x: usize, y: usize, ch: u8, color: ColorCode)
        requires
            old(screen).wf(),
        ensures
            final(screen).wf(),
            in_grid(x as int, y as int) ==> final(screen)@ == old(screen)@.update(
                cell_index(x as int, y as int),
                ScreenChar { ascii_character: ch, color_code: color },
            ),
            !in_grid(x as int, y as int) ==> final(screen)@ == old(screen)@,
    {
        screen.write_cell(x, y, ScreenChar { ascii_character: ch, color_code: color });
    }

    fn draw_ball(&self, screen: &mut Buffer)
        requires
            self.wf(),
            old(screen).wf(),
        ensures
            final(screen).wf(),
            final(screen)@ == old(screen)@.update(
                cell_index(self@.ball_x, self@.ball_y),
                ball_glyph(),
            ),
    {
        self.draw_char_colored(screen, self.ball_x, self.ball_y, 111u8, ColorCode::new(Color::White, Color::Black));
    }

    fn clear_ball(&self, screen: &mut Buffer)
        requires
            self.wf(),
            old(screen).wf(),
        ensures
            final(screen).wf(),
            final(screen)@ == old(screen)@.update(
                cell_index(self@.ball_x, self@.ball_y),
                blank_glyph(),
            ),
    {
        self.draw_char_colored(screen, self.ball_x, self.ball_y, 32u8, ColorCode::new(Color::Black, Color::Black));
    }

    /// Fills the paddle's cells with `ch` in `color`.
    fn paint_paddle(&self, screen: &mut Buffer, ch: u8, color: ColorCode)
        requires
            self.wf(),
            old(screen).wf(),
        ensures
            final(screen).wf(),
            forall|j: int|
                0 <= j < final(screen)@.len() ==> #[trigger] final(screen)@[j] == if paddle_cell(self@.paddle_x, 0) <= j
                    < paddle_cell(self@.paddle_x, PADDLE_WIDTH as int) {
                    ScreenChar { ascii_character: ch, color_code: color }
                } else {
                    old(screen)@[j]
                },
    {
        let mut i: usize = 0;
        while i < PADDLE_WIDTH
            invariant
                self.wf(),
                screen.wf(),
                i <= PADDLE_WIDTH,
                forall|j: int|
                    0 <= j < screen@.len() ==> #[trigger] screen@[j] == if paddle_cell(self@.paddle_x, 0) <= j
                        < paddle_cell(self@.paddle_x, i as int) {
                        ScreenChar { ascii_character: ch, color_code: color }
                    } else {
                        old(screen)@[j]
                    },
            decreases PADDLE_WIDTH - i,
        {
            self.draw_char_colored(screen, self.paddle_x + i, PADDLE_ROW, ch, color);
            i = i + 1;
        }
    }

    fn draw_paddle(&self, screen: &mut Buffer)
        requires
            self.wf(),
            old(screen).wf(),
        ensures
            final(screen).wf(),
            forall|j: int|
                0 <= j < final(screen)@.len() ==> #[trigger] final(screen)@[j] == if paddle_cell(self@.paddle_x, 0) <= j
                    < paddle_cell(self@.paddle_x, PADDLE_WIDTH as int) {
                    paddle_glyph()
                } else {
                    old(screen)@[j]
                },
    {
        self.paint_paddle(screen, 61u8, ColorCode::new(Color::Green, Color::Black));
    }

    fn clear_paddle(&self, screen: &mut Buffer)
        requires
            self.wf(),
            old(screen).wf(),
        ensures
            final(screen).wf(),
            forall|j: int|
                0 <= j < final(screen)@.len() ==> #[trigger] final(screen)@[j] == if paddle_cell(self@.paddle_x, 0) <= j
                    < paddle_cell(self@.paddle_x, PADDLE_WIDTH as int) {
                    blank_glyph()
                } else {
                    old(screen)@[j]
                },
    {
        self.paint_paddle(screen, 32u8, ColorCode::new(Color::Black, Color::Black));
    }

    fn draw_blocks(&self, screen: &mut Buffer)
        requires
            self.wf(),
            old(screen).wf(),
        ensures
            final(screen).wf(),
            blocks_drawn(final(screen)@, self@.blocks, -1),
            forall|j: int|
                cell_index(0, (BLOCK_ROWS * BLOCK_HEIGHT) as int) <= j < final(screen)@.len()
                    ==> #[trigger] final(screen)@[j] == old(screen)@[j],
            forall|x: int, y: int|
                in_grid(x, y) && off_block_glyphs(x, y) ==> final(screen)@[#[trigger] cell_index(x, y)]
                    == old(screen)@[cell_index(x, y)],
    {
        let mut k: usize = 0;
        while k < BLOCK_COUNT
            invariant
                self.wf(),
                screen.wf(),
                k <= BLOCK_COUNT,
                forall|row: int, col: int, dx: int, dy: int|
                    in_block_glyph(row, col, dx, dy) && block_index(row, col) < k
                        ==> screen@[#[trigger] block_cell(row, col, dx, dy)] == block_glyph(
                        self@.blocks[block_index(row, col)],
                        row,
                    ),
                forall|j: int|
                    cell_index(0, (BLOCK_ROWS * BLOCK_HEIGHT) as int) <= j < screen@.len()
                        ==> #[trigger] screen@[j] == old(screen)@[j],
                forall|x: int, y: int|
                    in_grid(x, y) && off_block_glyphs(x, y) ==> screen@[#[trigger] cell_index(x, y)]
                        == old(screen)@[cell_index(x, y)],
            decreases BLOCK_COUNT - k,
        {
            let row = k / BLOCK_COLS;
            let col = k % BLOCK_COLS;
            let color = match row {
                0 => Color::Red,
                1 => Color::Magenta,
                2 => Color::Brown,
                3 => Color::Cyan,
                _ => Color::LightGray,
            };
            let code = ColorCode::new(color, Color::Black);
            let ch: u8 = if self.blocks[k] { 35u8 } else { 32u8 };
            let x = col * BLOCK_WIDTH;
            let y = row * BLOCK_HEIGHT;
            assert(code == ColorCode(color_pair(row_color(row as int), Color::Black)));
            assert(ScreenChar { ascii_character: ch, color_code: code } == block_glyph(
                self@.blocks[block_index(row as int, col as int)],
                row as int,
            ));
            let ghost s0 = screen@;
            self.draw_char_colored(screen, x, y, ch, code);
            self.draw_char_colored(screen, x + 1, y, ch, code);
            self.draw_char_colored(screen, x, y + 1, ch, code);
            self.draw_char_colored(screen, x + 1, y + 1, ch, code);
            assert forall|px: int, py: int| in_grid(px, py) && off_block_glyphs(px, py) implies screen@[#[trigger] cell_index(px, py)]
                == s0[cell_index(px, py)] by {
                lemma_off_glyph_cell_differs(px, py, x as int, y as int);
                lemma_off_glyph_cell_differs(px, py, x + 1, y as int);
                lemma_off_glyph_cell_differs(px, py, x as int, y + 1);
                lemma_off_glyph_cell_differs(px, py, x + 1, y + 1);
            }
            assert forall|r: int, c: int, dx: int, dy: int|
                in_block_glyph(r, c, dx, dy) && block_index(r, c) < k + 1 implies screen@[#[trigger] block_cell(r, c, dx, dy)]
                    == block_glyph(self@.blocks[block_index(r, c)], r) by {
                if block_index(r, c) < k {
                    assert(s0[block_cell(r, c, dx, dy)] == block_glyph(self@.blocks[block_index(r, c)], r));
                } else {
                    assert(r == row && c == col);
                }
            }
            k = k + 1;
        }
    }

    fn draw_score(&self, screen: &mut Buffer)
        requires
            self.wf(),
            old(screen).wf(),
        ensures
            final(screen).wf(),
            text_drawn(final(screen)@, SCORE_ROW as int, score_line(self@.score as nat), ColorCode(color_pair(Color::Pink, Color::Black))),
            text_kept(old(screen)@, final(screen)@, SCORE_ROW as int, score_line(self@.score as nat).len() as int),
    {
        let line = score_line_bytes(self.score);
        draw_text(screen, SCORE_ROW, &line, ColorCode::new(Color::Pink, Color::Black));
    }

    fn draw_game_over(&self, screen: &mut Buffer)
        requires
            self.wf(),
            old(screen).wf(),
        ensures
            final(screen).wf(),
            text_drawn(final(screen)@, SCORE_ROW as int, game_over_line(self@.score as nat), ColorCode(color_pair(Color::LightRed, Color::Black))),
            text_kept(old(screen)@, final(screen)@, SCORE_ROW as int, game_over_line(self@.score as nat).len() as int),
    {
        let line = game_over_line_bytes(self.score);
        draw_text(screen, SCORE_ROW, &line, ColorCode::new(Color::LightRed, Color::Black));
    }

    fn draw_restart_message(&self, screen: &mut Buffer)
        requires
            old(screen).wf(),
        ensures
            final(screen).wf(),
            text_drawn(final(screen)@, MESSAGE_ROW as int, restart_line(), ColorCode(color_pair(Color::Cyan, Color::Black))),
            text_kept(old(screen)@, final(screen)@, MESSAGE_ROW as int, restart_line().len() as int),
    {
        let line = restart_line_bytes();
        draw_text(screen, MESSAGE_ROW, &line, ColorCode::new(Color::Cyan, Color::Black));
    }
}

} // verus!
