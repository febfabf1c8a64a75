use arkanoid_vga::arkanoid::{command_of_scancode, Arkanoid, Command, GameState};
use arkanoid_vga::console::Writer;
use arkanoid_vga::screen::{Buffer, Color, ColorCode};

fn run_ticks(game: &mut Arkanoid, screen: &mut Buffer, n: usize) {
    for _ in 0..n {
        game.tick(screen);
    }
}

fn row_text(screen: &Buffer, y: usize, len: usize) -> Vec<u8> {
    (0..len).map(|x| screen.read_cell(x, y).ascii_character).collect()
}

#[test]
fn new_game_starts_waiting_with_everything_in_place() {
    let game = Arkanoid::new();
    assert_eq!(game.state(), GameState::WaitingToStart);
    assert_eq!(game.score(), 0);
    assert_eq!(game.paddle_x(), 36);
    assert_eq!((game.ball_x(), game.ball_y()), (39, 23));
    for row in 0..5 {
        for col in 0..20 {
            assert!(game.block_present(row, col));
        }
    }
    assert!(!game.block_present(5, 0));
    assert!(!game.block_present(0, 20));
}

#[test]
fn paddle_moves_and_clamps_on_the_left() {
    let mut w = Writer::new();
    let mut game = Arkanoid::new();
    assert_eq!(game.paddle_x(), 36);
    game.move_left(&mut w.buffer);
    assert_eq!(game.paddle_x(), 35);
    let mut game = Arkanoid::new();
    for _ in 0..40 {
        game.move_left(&mut w.buffer);
    }
    assert_eq!(game.paddle_x(), 1);
    game.move_left(&mut w.buffer);
    assert_eq!(game.paddle_x(), 1);
}

#[test]
fn paddle_clamps_on_the_right() {
    let mut w = Writer::new();
    let mut game = Arkanoid::new();
    for _ in 0..60 {
        game.move_right(&mut w.buffer);
    }
    assert_eq!(game.paddle_x(), 72);
    game.move_left(&mut w.buffer);
    assert_eq!(game.paddle_x(), 71);
}

#[test]
fn paddle_move_redraws_the_paddle() {
    let mut w = Writer::new();
    let mut game = Arkanoid::new();
    game.tick(&mut w.buffer);
    game.move_right(&mut w.buffer);
    let green = ColorCode::new(Color::Green, Color::Black);
    for x in 37..44 {
        let c = w.buffer.read_cell(x, 24);
        assert_eq!(c.ascii_character, b'=');
        assert_eq!(c.color_code, green);
    }
    assert_eq!(w.buffer.read_cell(36, 24).ascii_character, b' ');
}

#[test]
fn ball_bounces_off_the_left_wall() {
    let mut w = Writer::new();
    let mut game = Arkanoid::new();
    game.place_ball(0, 10, -1, 1);
    game.start_ball();
    assert_eq!(game.state(), GameState::Running);
    run_ticks(&mut game, &mut w.buffer, 34);
    assert_eq!((game.ball_x(), game.ball_y()), (0, 10));
    game.tick(&mut w.buffer);
    assert_eq!(game.ball_dx(), 1);
    assert_eq!(game.ball_y(), 11);
    assert_eq!(game.ball_x(), 0);
    assert_eq!(game.ball_dy(), 1);
}

#[test]
fn ball_bounces_off_the_right_wall_and_ceiling() {
    let mut w = Writer::new();
    let mut game = Arkanoid::new();
    game.place_ball(79, 0, 1, -1);
    game.start_ball();
    run_ticks(&mut game, &mut w.buffer, 35);
    assert_eq!((game.ball_x(), game.ball_y()), (79, 0));
    assert_eq!(game.ball_dx(), -1);
    assert_eq!(game.ball_dy(), 1);
}

#[test]
fn block_hit_scores_once() {
    let mut w = Writer::new();
    let mut game = Arkanoid::new();
    game.place_ball(15, 6, 0, -1);
    game.start_ball();
    run_ticks(&mut game, &mut w.buffer, 35);
    assert_eq!((game.ball_x(), game.ball_y()), (15, 5));
    assert!(!game.block_present(2, 5));
    assert_eq!(game.ball_dy(), 1);
    assert_eq!(game.score(), 1);

    game.place_ball(15, 6, 0, -1);
    run_ticks(&mut game, &mut w.buffer, 35);
    assert_eq!((game.ball_x(), game.ball_y()), (15, 5));
    assert_eq!(game.score(), 1);
    assert_eq!(game.ball_dy(), -1);
    let gone = w.buffer.read_cell(15, 4);
    assert_eq!(gone.ascii_character, b' ');
}

#[test]
fn score_never_decreases_and_counts_blocks() {
    let mut w = Writer::new();
    let mut game = Arkanoid::new();
    game.place_ball(40, 12, 1, -1);
    game.start_ball();
    let mut last = 0;
    for _ in 0..(35 * 200) {
        game.tick(&mut w.buffer);
        assert!(game.score() >= last);
        assert!(game.score() <= last + 1);
        assert!(game.ball_x() < 80 && game.ball_y() < 25);
        last = game.score();
    }
    let gone = (0..5)
        .flat_map(|r| (0..20).map(move |c| (r, c)))
        .filter(|&(r, c)| !game.block_present(r, c))
        .count();
    assert_eq!(gone, game.score());
    assert!(game.score() <= 100);
}

#[test]
fn paddle_bounces_the_ball() {
    let mut w = Writer::new();
    let mut game = Arkanoid::new();
    game.place_ball(38, 22, 1, 1);
    game.start_ball();
    run_ticks(&mut game, &mut w.buffer, 35);
    assert_eq!((game.ball_x(), game.ball_y()), (39, 23));
    assert_eq!(game.ball_dy(), -1);
    assert_eq!(game.state(), GameState::Running);
}

#[test]
fn missed_ball_ends_the_game() {
    let mut w = Writer::new();
    let mut game = Arkanoid::new();
    game.place_ball(10, 23, 0, 1);
    game.start_ball();
    run_ticks(&mut game, &mut w.buffer, 35);
    assert_eq!(game.ball_y(), 24);
    assert_eq!(game.state(), GameState::GameOver);

    game.move_left(&mut w.buffer);
    assert_eq!(game.paddle_x(), 36);
    game.start_ball();
    assert_eq!(game.state(), GameState::GameOver);
    run_ticks(&mut game, &mut w.buffer, 100);
    assert_eq!((game.ball_x(), game.ball_y()), (10, 24));
    assert_eq!(game.paddle_x(), 36);
    assert_eq!(game.score(), 0);
    let expected = "\u{1F494} Game Over, senpai! Score: 0".as_bytes().to_vec();
    assert_eq!(row_text(&w.buffer, 22, expected.len()), expected);
    assert_eq!(
        w.buffer.read_cell(5, 22).color_code,
        ColorCode::new(Color::LightRed, Color::Black)
    );
}

#[test]
fn restart_resets_everything() {
    let mut w = Writer::new();
    let mut game = Arkanoid::new();
    game.place_ball(15, 6, 0, -1);
    game.start_ball();
    run_ticks(&mut game, &mut w.buffer, 35);
    assert_eq!(game.score(), 1);
    game.move_right(&mut w.buffer);
    game.restart(&mut w.buffer);
    assert_eq!(game.score(), 0);
    assert_eq!(game.state(), GameState::WaitingToStart);
    assert_eq!(game.paddle_x(), 36);
    assert_eq!((game.ball_x(), game.ball_y()), (39, 23));
    assert!(game.block_present(2, 5));
    let msg = "Platinum-tan: Ready! Press SPACE again, senpai~";
    assert_eq!(row_text(&w.buffer, 21, msg.len()), msg.as_bytes().to_vec());
    assert_eq!(
        w.buffer.read_cell(0, 21).color_code,
        ColorCode::new(Color::Cyan, Color::Black)
    );
}

#[test]
fn waiting_ball_follows_the_paddle() {
    let mut w = Writer::new();
    let mut game = Arkanoid::new();
    game.move_left(&mut w.buffer);
    game.move_left(&mut w.buffer);
    game.tick(&mut w.buffer);
    assert_eq!((game.ball_x(), game.ball_y()), (37, 23));
    run_ticks(&mut game, &mut w.buffer, 100);
    assert_eq!((game.ball_x(), game.ball_y()), (37, 23));
}

#[test]
fn tick_draws_the_frame() {
    let mut w = Writer::new();
    let mut game = Arkanoid::new();
    game.tick(&mut w.buffer);
    let ball = w.buffer.read_cell(39, 23);
    assert_eq!(ball.ascii_character, b'o');
    assert_eq!(ball.color_code, ColorCode::new(Color::White, Color::Black));
    for x in 36..43 {
        assert_eq!(w.buffer.read_cell(x, 24).ascii_character, b'=');
    }
    let colors = [Color::Red, Color::Magenta, Color::Brown, Color::Cyan, Color::LightGray];
    for row in 0..5 {
        for (dx, dy) in [(0, 0), (1, 0), (0, 1), (1, 1)] {
            let c = w.buffer.read_cell(3 * 7 + dx, 2 * row + dy);
            assert_eq!(c.ascii_character, b'#');
            assert_eq!(c.color_code, ColorCode::new(colors[row], Color::Black));
        }
    }
    let line = "Score:   0 | Platinum-tan cheering you on~!";
    assert_eq!(row_text(&w.buffer, 22, line.len()), line.as_bytes().to_vec());
}

#[test]
fn score_line_shows_the_score() {
    let mut w = Writer::new();
    let mut game = Arkanoid::new();
    game.place_ball(15, 6, 0, -1);
    game.start_ball();
    run_ticks(&mut game, &mut w.buffer, 35);
    let line = "Score:   1 |";
    assert_eq!(row_text(&w.buffer, 22, line.len()), line.as_bytes().to_vec());
}

#[test]
fn scancodes_map_to_commands() {
    assert_eq!(command_of_scancode(0x1e), Some(Command::MoveLeft));
    assert_eq!(command_of_scancode(0x20), Some(Command::MoveRight));
    assert_eq!(command_of_scancode(0x39), Some(Command::Start));
    assert_eq!(command_of_scancode(0x13), Some(Command::Restart));
    assert_eq!(command_of_scancode(0x9e), None);
    assert_eq!(command_of_scancode(0), None);
}

#[test]
fn commands_drive_the_game() {
    let mut w = Writer::new();
    let mut game = Arkanoid::new();
    game.handle(Command::MoveRight, &mut w.buffer);
    assert_eq!(game.paddle_x(), 37);
    game.handle(Command::Start, &mut w.buffer);
    assert_eq!(game.state(), GameState::Running);
    game.handle(Command::Restart, &mut w.buffer);
    assert_eq!(game.state(), GameState::WaitingToStart);
    assert_eq!(game.paddle_x(), 36);
}

#[test]
fn status_line_leaves_the_rest_of_its_row() {
    let mut w = Writer::new();
    w.draw_char(70, 22, b'K');
    let mut game = Arkanoid::new();
    game.tick(&mut w.buffer);
    assert_eq!(w.buffer.read_cell(70, 22).ascii_character, b'K');
    game.restart(&mut w.buffer);
    w.draw_char(60, 21, b'J');
    game.restart(&mut w.buffer);
    assert_eq!(w.buffer.read_cell(60, 21).ascii_character, b'J');
}

#[test]
fn moving_ball_leaves_no_trail() {
    let mut w = Writer::new();
    let mut game = Arkanoid::new();
    game.place_ball(40, 15, 1, 1);
    game.start_ball();
    run_ticks(&mut game, &mut w.buffer, 1);
    assert_eq!(w.buffer.read_cell(40, 15).ascii_character, b'o');
    run_ticks(&mut game, &mut w.buffer, 34);
    assert_eq!((game.ball_x(), game.ball_y()), (41, 16));
    assert_eq!(w.buffer.read_cell(40, 15).ascii_character, b' ');
    assert_eq!(w.buffer.read_cell(41, 16).ascii_character, b'o');
}

#[test]
fn finished_game_only_redraws_the_banner() {
    let mut w = Writer::new();
    let mut game = Arkanoid::new();
    game.place_ball(10, 23, 0, 1);
    game.start_ball();
    run_ticks(&mut game, &mut w.buffer, 35);
    assert_eq!(game.state(), GameState::GameOver);
    w.draw_char(5, 5, b'Q');
    w.draw_char(79, 22, b'Q');
    run_ticks(&mut game, &mut w.buffer, 3);
    assert_eq!(w.buffer.read_cell(5, 5).ascii_character, b'Q');
    assert_eq!(w.buffer.read_cell(79, 22).ascii_character, b'Q');
}
