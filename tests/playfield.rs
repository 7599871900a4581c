use macroquad::color::{Color, BLUE, RED};
use tetris_rs::game::{check_collision, clear_lines, stack_tetromino, Grid};
use tetris_rs::parameters::{GRID_HEIGHT, GRID_WIDTH};
use tetris_rs::tetromino::{rotate, SHAPES};

fn empty_grid() -> Grid {
    [[None; GRID_WIDTH]; GRID_HEIGHT]
}

fn filled_row(color: Color) -> [Option<Color>; GRID_WIDTH] {
    [Some(color); GRID_WIDTH]
}

fn occupied(grid: &Grid, row: usize) -> Vec<usize> {
    (0..GRID_WIDTH).filter(|&c| grid[row][c].is_some()).collect()
}

#[test]
fn collision_free_at_spawn_on_empty_grid() {
    let grid = empty_grid();
    for shape in SHAPES.iter() {
        assert!(!check_collision(&grid, shape, 3, 0));
    }
}

#[test]
fn collision_with_side_walls() {
    let grid = empty_grid();
    let i_piece = SHAPES[0];
    assert!(check_collision(&grid, &i_piece, -1, 0));
    assert!(!check_collision(&grid, &i_piece, 0, 0));
    assert!(!check_collision(&grid, &i_piece, 6, 0));
    assert!(check_collision(&grid, &i_piece, 7, 0));
}

#[test]
fn collision_with_floor() {
    let grid = empty_grid();
    let i_piece = SHAPES[0];
    assert!(!check_collision(&grid, &i_piece, 3, 18));
    assert!(check_collision(&grid, &i_piece, 3, 19));
}

#[test]
fn rows_above_the_top_are_open() {
    let grid = empty_grid();
    let i_piece = SHAPES[0];
    assert!(!check_collision(&grid, &i_piece, 3, -1));
    assert!(!check_collision(&grid, &i_piece, 3, -5));
    // Above the top the side walls still count.
    assert!(check_collision(&grid, &i_piece, -1, -5));
}

#[test]
fn collision_with_stacked_cell() {
    let mut grid = empty_grid();
    grid[1][5] = Some(RED);
    let i_piece = SHAPES[0];
    assert!(check_collision(&grid, &i_piece, 3, 0));
    // One row lower the occupied cell lies under an empty cell of the box.
    assert!(!check_collision(&grid, &i_piece, 3, 1));
}

#[test]
fn stack_writes_the_filled_cells() {
    let mut grid = empty_grid();
    stack_tetromino(&mut grid, &SHAPES[6], 4, 10, BLUE);
    assert_eq!(occupied(&grid, 10), vec![5]);
    assert_eq!(occupied(&grid, 11), vec![4, 5, 6]);
    assert_eq!(grid[10][5], Some(BLUE));
    let total: usize = (0..GRID_HEIGHT).map(|r| occupied(&grid, r).len()).sum();
    assert_eq!(total, 4);
}

#[test]
fn stack_skips_cells_above_the_grid() {
    let mut grid = empty_grid();
    stack_tetromino(&mut grid, &SHAPES[0], 3, -1, RED);
    assert_eq!(occupied(&grid, 0), vec![3, 4, 5, 6]);
    let mut grid = empty_grid();
    stack_tetromino(&mut grid, &SHAPES[0], 3, -2, RED);
    assert_eq!(grid, empty_grid());
}

#[test]
fn stacked_piece_collides_with_itself() {
    let mut grid = empty_grid();
    grid[19][0] = Some(RED);
    for (k, shape) in SHAPES.iter().enumerate() {
        let x = k as i32 % 7;
        stack_tetromino(&mut grid, shape, x, 8, BLUE);
        assert!(check_collision(&grid, shape, x, 8));
    }
    let mut grid = empty_grid();
    let turned = rotate(&SHAPES[4]);
    stack_tetromino(&mut grid, &turned, 0, 17, RED);
    assert!(check_collision(&grid, &turned, 0, 17));
}

#[test]
fn clear_lines_on_empty_grid() {
    let mut grid = empty_grid();
    assert_eq!(clear_lines(&mut grid), 0);
    assert_eq!(grid, empty_grid());
}

#[test]
fn clear_lines_without_full_rows_changes_nothing() {
    let mut grid = empty_grid();
    grid[19][0] = Some(RED);
    grid[18][9] = Some(BLUE);
    let before = grid;
    assert_eq!(clear_lines(&mut grid), 0);
    assert_eq!(grid, before);
}

#[test]
fn clear_lines_rows_five_and_seven() {
    let mut grid = empty_grid();
    grid[5] = filled_row(RED);
    grid[7] = filled_row(RED);
    // Partial rows, each marked by a distinct column.
    for r in 0..GRID_HEIGHT {
        if r != 5 && r != 7 {
            grid[r][r % GRID_WIDTH] = Some(BLUE);
        }
    }
    let before = grid;
    assert_eq!(clear_lines(&mut grid), 2);
    assert_eq!(grid[0], [None; GRID_WIDTH]);
    assert_eq!(grid[1], [None; GRID_WIDTH]);
    for r in 0..5 {
        assert_eq!(grid[r + 2], before[r]);
    }
    assert_eq!(grid[7], before[6]);
    for r in 8..GRID_HEIGHT {
        assert_eq!(grid[r], before[r]);
    }
}

#[test]
fn clear_lines_single_bottom_row() {
    let mut grid = empty_grid();
    grid[19] = filled_row(RED);
    grid[18][2] = Some(BLUE);
    assert_eq!(clear_lines(&mut grid), 1);
    assert_eq!(occupied(&grid, 19), vec![2]);
    for r in 0..19 {
        assert_eq!(occupied(&grid, r), Vec::<usize>::new());
    }
}

#[test]
fn clear_lines_four_adjacent_rows() {
    let mut grid = empty_grid();
    for r in 16..20 {
        grid[r] = filled_row(RED);
    }
    grid[15][4] = Some(BLUE);
    assert_eq!(clear_lines(&mut grid), 4);
    assert_eq!(occupied(&grid, 19), vec![4]);
    for r in 0..19 {
        assert_eq!(occupied(&grid, r), Vec::<usize>::new());
    }
}

#[test]
fn clear_lines_full_grid() {
    let mut grid = [filled_row(RED); GRID_HEIGHT];
    assert_eq!(clear_lines(&mut grid), GRID_HEIGHT);
    assert_eq!(grid, empty_grid());
}

#[test]
fn i_piece_falls_locks_and_clears_bottom_row() {
    let mut grid = empty_grid();
    for c in 0..GRID_WIDTH {
        if !(3..=6).contains(&c) {
            grid[19][c] = Some(RED);
        }
    }
    grid[18][0] = Some(BLUE);
    let shape = SHAPES[0];
    let x = 3;
    let mut y = 0;
    while !check_collision(&grid, &shape, x, y + 1) {
        y += 1;
    }
    assert_eq!(y, 18);
    stack_tetromino(&mut grid, &shape, x, y, BLUE);
    assert_eq!(occupied(&grid, 19), (0..GRID_WIDTH).collect::<Vec<_>>());
    assert_eq!(clear_lines(&mut grid), 1);
    assert_eq!(occupied(&grid, 19), vec![0]);
}
