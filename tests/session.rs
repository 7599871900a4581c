use macroquad::color::{Color, BLUE, GREEN, ORANGE, PINK, PURPLE, RED, YELLOW};
use tetris_rs::game::Grid;
use tetris_rs::game_info::GameInfo;
use tetris_rs::parameters::{Difficulty, GRID_HEIGHT, GRID_WIDTH};
use tetris_rs::session::{Session, SPAWN_X, SPAWN_Y};
use tetris_rs::state::GameState;
use tetris_rs::tetromino::SHAPES;

const COLORS: [Color; 7] = [ORANGE, YELLOW, GREEN, RED, BLUE, PURPLE, PINK];

fn running_with_i_piece() -> Session {
    let mut s = Session::new(COLORS);
    s.start();
    s.shape = SHAPES[0];
    s.color = COLORS[0];
    s
}

#[test]
fn game_state_predicates() {
    assert!(GameState::Running.is_running());
    assert!(!GameState::Paused.is_running());
    assert!(!GameState::Waiting.is_running());
    assert!(GameState::Waiting.is_waiting());
    assert!(!GameState::GameOver.is_waiting());
    assert!(!GameState::Running.is_waiting());
}

#[test]
fn score_per_lock() {
    for (lines, expected) in [(1u32, 100u32), (2, 400), (3, 900), (4, 1600)] {
        let mut info = GameInfo::new(SHAPES[0], RED);
        info.add_score(lines);
        assert_eq!(info.score, expected);
        assert_eq!(info.lines_cleared, lines);
    }
}

#[test]
fn two_double_clears_score_eight_hundred() {
    let mut info = GameInfo::new(SHAPES[0], RED);
    info.add_score(2);
    info.add_score(2);
    assert_eq!(info.score, 800);
    assert_eq!(info.lines_cleared, 4);
}

#[test]
fn zero_lines_score_nothing() {
    let mut info = GameInfo::new(SHAPES[0], RED);
    info.add_score(0);
    assert_eq!(info.score, 0);
    assert_eq!(info.level, 1);
}

#[test]
fn panel_setters() {
    let mut info = GameInfo::new(SHAPES[0], RED);
    info.set_next(SHAPES[3], BLUE);
    info.set_level(4);
    assert_eq!(info.next_shape, SHAPES[3]);
    assert_eq!(info.next_color, BLUE);
    assert_eq!(info.level, 4);
}

#[test]
fn new_session_waits_in_menu() {
    let s = Session::new(COLORS);
    assert_eq!(s.state, GameState::Waiting);
    assert_eq!(s.grid, [[None; GRID_WIDTH]; GRID_HEIGHT]);
    assert_eq!((s.x, s.y), (SPAWN_X, SPAWN_Y));
    assert_eq!(s.selected, 1);
    assert_eq!(s.difficulty, Difficulty::Medium);
    let k = SHAPES.iter().position(|sh| *sh == s.shape).unwrap();
    assert_eq!(s.color, COLORS[k]);
    assert_eq!(s.info.next_shape, SHAPES[s.bag.peek()]);
    assert_eq!(s.info.score, 0);
}

#[test]
fn menu_selection_and_start() {
    let mut s = Session::new(COLORS);
    s.menu_up();
    assert_eq!(s.selected, 0);
    s.menu_up();
    assert_eq!(s.selected, 0);
    s.menu_down();
    s.menu_down();
    s.menu_down();
    assert_eq!(s.selected, 2);
    s.start();
    assert_eq!(s.state, GameState::Running);
    assert_eq!(s.difficulty, Difficulty::Hard);
    assert_eq!(s.info.level, 1);
    // The menu no longer reacts once play runs.
    s.menu_up();
    assert_eq!(s.selected, 2);
}

#[test]
fn pause_toggles_both_ways() {
    let mut s = Session::new(COLORS);
    s.toggle_pause();
    assert_eq!(s.state, GameState::Waiting);
    s.start();
    s.toggle_pause();
    assert_eq!(s.state, GameState::Paused);
    let y = s.y;
    s.fall();
    s.move_left();
    assert_eq!((s.y, s.x), (y, SPAWN_X));
    s.toggle_pause();
    assert_eq!(s.state, GameState::Running);
}

#[test]
fn level_up_only_while_running() {
    let mut s = Session::new(COLORS);
    s.level_up();
    assert_eq!(s.info.level, 1);
    s.start();
    s.level_up();
    s.level_up();
    assert_eq!(s.info.level, 3);
}

#[test]
fn moves_stop_at_the_walls() {
    let mut s = running_with_i_piece();
    for _ in 0..10 {
        s.move_left();
    }
    assert_eq!(s.x, 0);
    for _ in 0..10 {
        s.move_right();
    }
    assert_eq!(s.x, 6);
}

#[test]
fn rotation_rejected_against_the_floor() {
    let mut s = running_with_i_piece();
    for _ in 0..30 {
        s.soft_drop();
    }
    assert_eq!(s.y, 18);
    // Upright, the I piece would reach two rows below the floor.
    s.rotate_piece();
    assert_eq!(s.shape, SHAPES[0]);
    let mut t = running_with_i_piece();
    t.rotate_piece();
    assert_eq!(t.shape, [[0, 0, 1, 0], [0, 0, 1, 0], [0, 0, 1, 0], [0, 0, 1, 0]]);
}

#[test]
fn gravity_moves_down_then_locks_i_piece() {
    let mut s = running_with_i_piece();
    let upcoming = s.bag.peek();
    while s.y < 18 {
        s.fall();
    }
    assert_eq!(s.y, 18);
    assert_eq!(s.grid, [[None; GRID_WIDTH]; GRID_HEIGHT]);
    s.fall();
    for c in 3..=6 {
        assert_eq!(s.grid[19][c], Some(COLORS[0]));
    }
    assert_eq!(s.grid[19].iter().filter(|c| c.is_some()).count(), 4);
    assert_eq!(s.info.score, 0);
    assert_eq!(s.shape, SHAPES[upcoming]);
    assert_eq!(s.color, COLORS[upcoming]);
    assert_eq!(s.info.next_shape, SHAPES[s.bag.peek()]);
    assert_eq!((s.x, s.y), (SPAWN_X, SPAWN_Y));
    assert_eq!(s.state, GameState::Running);
}

#[test]
fn locking_i_piece_that_completes_bottom_row_scores() {
    let mut s = running_with_i_piece();
    for c in [0, 1, 2, 7, 8, 9] {
        s.grid[19][c] = Some(RED);
    }
    while s.y < 18 {
        s.fall();
    }
    s.fall();
    assert_eq!(s.info.score, 100);
    assert_eq!(s.info.lines_cleared, 1);
    let empty: Grid = [[None; GRID_WIDTH]; GRID_HEIGHT];
    assert_eq!(s.grid, empty);
}

#[test]
fn hard_drop_locks_at_once() {
    let mut s = running_with_i_piece();
    s.grid[15][4] = Some(RED);
    s.hard_drop();
    for c in 3..=6 {
        assert_eq!(s.grid[14][c], Some(COLORS[0]));
    }
    assert_eq!((s.x, s.y), (SPAWN_X, SPAWN_Y));
    assert_eq!(s.state, GameState::Running);
}

#[test]
fn blocked_spawn_ends_the_game() {
    let mut s = running_with_i_piece();
    // Every piece has a filled cell at row 1, column 1 of its box.
    s.grid[1][4] = Some(RED);
    s.y = 5;
    s.hard_drop();
    assert_eq!(s.state, GameState::GameOver);
    assert_eq!(s.grid[19][3], Some(COLORS[0]));
    // Nothing moves once the game is over.
    let before = s.grid;
    s.fall();
    s.hard_drop();
    s.move_right();
    assert_eq!(s.grid, before);
    assert_eq!((s.x, s.y), (SPAWN_X, SPAWN_Y));
}
