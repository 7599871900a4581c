//! One play session: the menu, the falling piece, gravity, locking, scoring
//! and the state machine `Waiting -> Running <-> Paused`, `Running -> GameOver`.
//! Timing and input belong to the caller, which turns them into calls here.
use vstd::prelude::*;

use crate::game::{
    Grid, after_clearing, check_collision, clear_lines, collides, empty_row, full_row_count,
    grid_rows, stack_tetromino, stacked,
};
use crate::game_info::{GameInfo, points_for};
use crate::parameters::{Difficulty, GRID_HEIGHT, GRID_WIDTH};
use crate::state::GameState;
use crate::tetromino::{
    SHAPES, TetrominoBag, TetrominoShape, has_filled_cell, is_filled, is_rotation_of,
    lemma_catalog_filled, rotate,
};
use macroquad::color::Color;

verus! {

/// Column where a new piece's box starts.
pub const SPAWN_X: i32 = 3;

/// Row where a new piece's box starts.
pub const SPAWN_Y: i32 = 0;

/// The difficulty at position `i` of the menu: Easy, Medium, Hard.
pub open spec fn menu_difficulty(i: int) -> Difficulty {
    if i == 0 {
        Difficulty::Easy
    } else if i == 1 {
        Difficulty::Medium
    } else {
        Difficulty::Hard
    }
}

/// `v`, or the largest `u32` where `v` is larger.
pub open spec fn saturated(v: int) -> int {
    if v <= u32::MAX {
        v
    } else {
        u32::MAX as int
    }
}

/// The row where `shape` comes to rest when it falls straight down from row
/// `y`: the first row from `y` on below which it would collide.
pub open spec fn landing_row(grid: Grid, shape: TetrominoShape, x: int, y: int) -> int
    decreases GRID_HEIGHT - y,
{
    if y >= GRID_HEIGHT || collides(grid, shape, x, y + 1) {
        y
    } else {
        landing_row(grid, shape, x, y + 1)
    }
}

/// A piece with a filled cell that does not collide lies within the walls and
/// above the floor.
proof fn lemma_free_position_in_bounds(grid: Grid, shape: TetrominoShape, x: int, y: int)
    requires
        has_filled_cell(shape),
        !collides(grid, shape, x, y),
    ensures
        -4 < x < GRID_WIDTH,
        y < GRID_HEIGHT,
{
    let (r, c) = choose|r: int, c: int| 0 <= r < 4 && 0 <= c < 4 && #[trigger] is_filled(shape, r, c);
}

/// Turning a shape keeps a filled cell.
proof fn lemma_rotation_filled(turned: TetrominoShape, shape: TetrominoShape)
    requires
        is_rotation_of(turned, shape),
        has_filled_cell(shape),
    ensures
        has_filled_cell(turned),
{
    let (r, c) = choose|r: int, c: int| 0 <= r < 4 && 0 <= c < 4 && #[trigger] is_filled(shape, r, c);
    assert(is_filled(turned, c, 3 - r));
}

/// A play session: the playfield, the sequencer, the side panel, the falling
/// piece (its shape, color and the grid position of its box) and the menu.
pub struct Session {
    pub state: GameState,
    pub grid: Grid,
    pub bag: TetrominoBag,
    pub info: GameInfo,
    pub colors: [Color; 7],
    pub shape: TetrominoShape,
    pub color: Color,
    pub x: i32,
    pub y: i32,
    pub selected: usize,
    pub difficulty: Difficulty,
}

impl Session {
    /// The sequencer is well formed, the menu cursor is on an entry, the
    /// falling piece has a filled cell and lies in the field, and outside the
    /// game-over state it collides with nothing.
    pub open spec fn wf(&self) -> bool {
        &&& self.bag.wf()
        &&& self.selected < 3
        &&& has_filled_cell(self.shape)
        &&& -4 < self.x < GRID_WIDTH
        &&& 0 <= self.y < GRID_HEIGHT
        &&& self.state != GameState::GameOver ==> !collides(
            self.grid,
            self.shape,
            self.x as int,
            self.y as int,
        )
    }

    /// `after` is this session once its piece, resting at row `y`, is locked:
    /// the piece is written into the grid, full rows are cleared and credited
    /// (`100 * n²` points and `n` lines, both saturating), the next kind of the
    /// sequencer spawns at the spawn point, the panel previews the kind after
    /// it, and the game is over exactly when the new piece collides there.
    pub open spec fn locks_into(&self, y: int, after: Session) -> bool {
        let placed = stacked(grid_rows(self.grid), self.shape, self.x as int, y, self.color);
        let n = full_row_count(placed);
        let kind = self.bag.upcoming();
        &&& grid_rows(after.grid) == after_clearing(placed)
        &&& after.info.score == saturated(self.info.score + points_for(n as int))
        &&& after.info.lines_cleared == saturated(self.info.lines_cleared + n)
        &&& after.info.level == self.info.level
        &&& self.bag.advances_to(after.bag)
        &&& after.shape == SHAPES[kind as int]
        &&& after.color == self.colors[kind as int]
        &&& after.info.next_shape == SHAPES[after.bag.upcoming() as int]
        &&& after.info.next_color == self.colors[after.bag.upcoming() as int]
        &&& after.x == SPAWN_X
        &&& after.y == SPAWN_Y
        &&& after.state == (if collides(after.grid, after.shape, SPAWN_X as int, SPAWN_Y as int) {
            GameState::GameOver
        } else {
            GameState::Running
        })
        &&& after.colors == self.colors
        &&& after.selected == self.selected
        &&& after.difficulty == self.difficulty
    }

    /// A session waiting for a difficulty: an empty field, Medium selected,
    /// the first piece of a fresh bag at the spawn point and the second one
    /// previewed. `colors[k]` is the color of piece kind `k`.
    pub fn new(colors: [Color; 7]) -> (r: Self)
        ensures
            r.wf(),
            r.state == GameState::Waiting,
            grid_rows(r.grid) == Seq::new(GRID_HEIGHT as nat, |i: int| empty_row()),
            r.colors == colors,
            exists|k: int| 0 <= k < 7 && r.shape == SHAPES[k] && r.color == colors[k],
            r.info.next_shape == SHAPES[r.bag.upcoming() as int],
            r.info.next_color == colors[r.bag.upcoming() as int],
            r.info.score == 0,
            r.info.lines_cleared == 0,
            r.info.level == 1,
            r.x == SPAWN_X,
            r.y == SPAWN_Y,
            r.selected == 1,
            r.difficulty == Difficulty::Medium,
    {
        let grid: Grid = [[None; GRID_WIDTH]; GRID_HEIGHT];
        let mut bag = TetrominoBag::new();
        let kind = bag.next();
        let next = bag.peek();
        let info = GameInfo::new(SHAPES[next], colors[next]);
        proof {
            lemma_catalog_filled(kind as int);
            assert(grid_rows(grid) =~~= Seq::new(GRID_HEIGHT as nat, |i: int| empty_row()));
            assert(!collides(grid, SHAPES[kind as int], SPAWN_X as int, SPAWN_Y as int));
        }
        Session {
            state: GameState::Waiting,
            grid,
            bag,
            info,
            colors,
            shape: SHAPES[kind],
            color: colors[kind],
            x: SPAWN_X,
            y: SPAWN_Y,
            selected: 1,
            difficulty: Difficulty::Medium,
        }
    }

    /// In the menu, moves the selection up one entry, unless it is on the
    /// first.
    pub fn menu_up(&mut self)
        requires
            old(self).wf(),
        ensures
            final(self).wf(),
            *final(self) == (if old(self).state == GameState::Waiting && old(self).selected > 0 {
                Session { selected: (old(self).selected - 1) as usize, ..*old(self) }
            } else {
                *old(self)
            }),
    {
        if self.state.is_waiting() && self.selected > 0 {
            self.selected -= 1;
        }
    }

    /// In the menu, moves the selection down one entry, unless it is on the
    /// last.
    pub fn menu_down(&mut self)
        requires
            old(self).wf(),
        ensures
            final(self).wf(),
            *final(self) == (if old(self).state == GameState::Waiting && old(self).selected < 2 {
                Session { selected: (old(self).selected + 1) as usize, ..*old(self) }
            } else {
                *old(self)
            }),
    {
        if self.state.is_waiting() && self.selected < 2 {
            self.selected += 1;
        }
    }

    /// In the menu, takes the selected difficulty and starts play at level 1.
    pub fn start(&mut self)
        requires
            old(self).wf(),
        ensures
            final(self).wf(),
            *final(self) == (if old(self).state == GameState::Waiting {
                Session {
                    state: GameState::Running,
                    difficulty: menu_difficulty(old(self).selected as int),
                    info: GameInfo { level: 1, ..old(self).info },
                    ..*old(self)
                }
            } else {
                *old(self)
            }),
    {
        if self.state.is_waiting() {
            self.difficulty = match self.selected {
                0 => Difficulty::Easy,
                1 => Difficulty::Medium,
                _ => Difficulty::Hard,
            };
            self.state = GameState::Running;
            self.info.set_level(1);
        }
    }

    /// Pauses running play, or resumes paused play.
    pub fn toggle_pause(&mut self)
        requires
            old(self).wf(),
        ensures
            final(self).wf(),
            *final(self) == (if old(self).state == GameState::Running {
                Session { state: GameState::Paused, ..*old(self) }
            } else if old(self).state == GameState::Paused {
                Session { state: GameState::Running, ..*old(self) }
            } else {
                *old(self)
            }),
    {
        match self.state {
            GameState::Running => {
                self.state = GameState::Paused;
            },
            GameState::Paused => {
                self.state = GameState::Running;
            },
            _ => {},
        }
    }

    /// During play, raises the level by one.
    pub fn level_up(&mut self)
        requires
            old(self).wf(),
            old(self).info.level < usize::MAX,
        ensures
            final(self).wf(),
            *final(self) == (if old(self).state == GameState::Running {
                Session { info: GameInfo { level: (old(self).info.level + 1) as usize, ..old(self).info }, ..*old(self) }
            } else {
                *old(self)
            }),
    {
        if self.state.is_running() {
            let level = self.info.level + 1;
            self.info.set_level(level);
        }
    }

    /// During play, moves the piece one column to the left if it fits there.
    pub fn move_left(&mut self)
        requires
            old(self).wf(),
        ensures
            final(self).wf(),
            *final(self) == (if old(self).state == GameState::Running && !collides(
                old(self).grid,
                old(self).shape,
                old(self).x - 1,
                old(self).y as int,
            ) {
                Session { x: (old(self).x - 1) as i32, ..*old(self) }
            } else {
                *old(self)
            }),
    {
        if self.state.is_running() && !check_collision(&self.grid, &self.shape, self.x - 1, self.y) {
            proof {
                lemma_free_position_in_bounds(self.grid, self.shape, self.x - 1, self.y as int);
            }
            self.x -= 1;
        }
    }

    /// During play, moves the piece one column to the right if it fits there.
    pub fn move_right(&mut self)
        requires
            old(self).wf(),
        ensures
            final(self).wf(),
            *final(self) == (if old(self).state == GameState::Running && !collides(
                old(self).grid,
                old(self).shape,
                old(self).x + 1,
                old(self).y as int,
            ) {
                Session { x: (old(self).x + 1) as i32, ..*old(self) }
            } else {
                *old(self)
            }),
    {
        if self.state.is_running() && !check_collision(&self.grid, &self.shape, self.x + 1, self.y) {
            proof {
                lemma_free_position_in_bounds(self.grid, self.shape, self.x + 1, self.y as int);
            }
            self.x += 1;
        }
    }

    /// During play, moves the piece one row down if it fits there; it never
    /// locks the piece.
    pub fn soft_drop(&mut self)
        requires
            old(self).wf(),
        ensures
            final(self).wf(),
            *final(self) == (if old(self).state == GameState::Running && !collides(
                old(self).grid,
                old(self).shape,
                old(self).x as int,
                old(self).y + 1,
            ) {
                Session { y: (old(self).y + 1) as i32, ..*old(self) }
            } else {
                *old(self)
            }),
    {
        if self.state.is_running() && !check_collision(&self.grid, &self.shape, self.x, self.y + 1) {
            proof {
                lemma_free_position_in_bounds(self.grid, self.shape, self.x as int, self.y + 1);
            }
            self.y += 1;
        }
    }

    /// During play, turns the piece a quarter clockwise in place if the turned
    /// shape fits there; otherwise nothing changes.
    pub fn rotate_piece(&mut self)
        requires
            old(self).wf(),
        ensures
            final(self).wf(),
            old(self).state == GameState::Running ==> exists|turned: TetrominoShape|
                {
                    &&& #[trigger] is_rotation_of(turned, old(self).shape)
                    &&& if collides(old(self).grid, turned, old(self).x as int, old(self).y as int) {
                        *final(self) == *old(self)
                    } else {
                        *final(self) == (Session { shape: turned, ..*old(self) })
                    }
                },
            old(self).state != GameState::Running ==> *final(self) == *old(self),
    {
        if self.state.is_running() {
            let rotated = rotate(&self.shape);
            if !check_collision(&self.grid, &rotated, self.x, self.y) {
                proof {
                    lemma_rotation_filled(rotated, self.shape);
                }
                self.shape = rotated;
            }
            assert(is_rotation_of(rotated, old(self).shape));
        }
    }

    /// Locks the running piece where it rests: stacks it, clears and credits
    /// full rows, and spawns the next piece, ending the game if that one
    /// collides at once.
    fn lock_piece(&mut self)
        requires
            old(self).wf(),
            old(self).state == GameState::Running,
        ensures
            final(self).wf(),
            old(self).locks_into(old(self).y as int, *final(self)),
    {
        stack_tetromino(&mut self.grid, &self.shape, self.x, self.y, self.color);
        let n = clear_lines(&mut self.grid);
        if n > 0 {
            let lines = n as u32;
            assert(100 * lines * lines <= 40000) by (nonlinear_arith)
                requires
                    lines <= 20,
            ;
            let gained: u32 = 100 * lines * lines;
            if self.info.score <= u32::MAX - gained && self.info.lines_cleared <= u32::MAX - lines {
                self.info.add_score(lines);
            } else {
                self.info.score = self.info.score.saturating_add(gained);
                self.info.lines_cleared = self.info.lines_cleared.saturating_add(lines);
            }
        }
        let kind = self.bag.next();
        let next = self.bag.peek();
        self.shape = SHAPES[kind];
        self.color = self.colors[kind];
        self.info.set_next(SHAPES[next], self.colors[next]);
        self.x = SPAWN_X;
        self.y = SPAWN_Y;
        proof {
            lemma_catalog_filled(kind as int);
        }
        if check_collision(&self.grid, &self.shape, self.x, self.y) {
            self.state = GameState::GameOver;
        }
    }

    /// One gravity step during play: the piece moves down a row if it fits
    /// there, and is locked where it is otherwise.
    pub fn fall(&mut self)
        requires
            old(self).wf(),
        ensures
            final(self).wf(),
            old(self).state == GameState::Running && !collides(
                old(self).grid,
                old(self).shape,
                old(self).x as int,
                old(self).y + 1,
            ) ==> *final(self) == (Session { y: (old(self).y + 1) as i32, ..*old(self) }),
            old(self).state == GameState::Running && collides(
                old(self).grid,
                old(self).shape,
                old(self).x as int,
                old(self).y + 1,
            ) ==> old(self).locks_into(old(self).y as int, *final(self)),
            old(self).state != GameState::Running ==> *final(self) == *old(self),
    {
        if self.state.is_running() {
            if !check_collision(&self.grid, &self.shape, self.x, self.y + 1) {
                proof {
                    lemma_free_position_in_bounds(self.grid, self.shape, self.x as int, self.y + 1);
                }
                self.y += 1;
            } else {
                self.lock_piece();
            }
        }
    }

    /// During play, drops the piece straight down to the lowest row it can
    /// reach and locks it there at once.
    pub fn hard_drop(&mut self)
        requires
            old(self).wf(),
        ensures
            final(self).wf(),
            old(self).state == GameState::Running ==> old(self).locks_into(
                landing_row(old(self).grid, old(self).shape, old(self).x as int, old(self).y as int),
                *final(self),
            ),
            old(self).state != GameState::Running ==> *final(self) == *old(self),
    {
        if self.state.is_running() {
            let ghost start = *self;
            let mut y = self.y;
            while !check_collision(&self.grid, &self.shape, self.x, y + 1)
                invariant
                    *self == start,
                    start.wf(),
                    start.y <= y < GRID_HEIGHT,
                    !collides(self.grid, self.shape, self.x as int, y as int),
                    landing_row(self.grid, self.shape, self.x as int, y as int) == landing_row(
                        self.grid,
                        self.shape,
                        self.x as int,
                        start.y as int,
                    ),
                decreases GRID_HEIGHT - y,
            {
                proof {
                    lemma_free_position_in_bounds(self.grid, self.shape, self.x as int, y + 1);
                }
                y += 1;
            }
            self.y = y;
            self.lock_piece();
        }
    }
}

} // verus!
