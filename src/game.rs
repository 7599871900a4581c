//! The playfield: collision detection, stacking a piece into the grid, and
//! clearing full rows.
use vstd::prelude::*;

use crate::parameters::{GRID_HEIGHT, GRID_WIDTH};
use crate::tetromino::{TetrominoShape, is_filled};
use macroquad::color::Color;

verus! {

/// Declares macroquad's `Color` (four floating-point channels) so that grid
/// cells can hold one; the library only stores and copies it.
#[verifier::external_type_specification]
#[verifier::external_body]
pub struct ExColor(Color);

/// The playfield, indexed `[row][column]`; row 0 is the top. A cell is either
/// empty or holds the color of the piece that filled it.
pub type Grid = [[Option<Color>; GRID_WIDTH]; GRID_HEIGHT];

/// The grid as a sequence of rows, each a sequence of cells.
pub open spec fn grid_rows(grid: Grid) -> Seq<Seq<Option<Color>>> {
    grid@.map_values(|row: [Option<Color>; GRID_WIDTH]| row@)
}

/// Whether grid position `(col, row)` is unavailable to a piece cell: outside
/// the side walls, at or below the floor, or an occupied visible cell. Rows
/// above the top (`row < 0`) are open.
pub open spec fn blocked(grid: Grid, col: int, row: int) -> bool {
    col < 0 || col >= GRID_WIDTH || row >= GRID_HEIGHT || (row >= 0 && grid[row][col] is Some)
}

/// Whether `shape` placed with its top-left corner at `(x, y)` has a filled
/// cell on a blocked position.
pub open spec fn collides(grid: Grid, shape: TetrominoShape, x: int, y: int) -> bool {
    exists|r: int, c: int|
        0 <= r < 4 && 0 <= c < 4 && #[trigger] is_filled(shape, r, c) && blocked(grid, x + c, y + r)
}

/// Tells whether `shape` at `(x, y)` would collide with the walls, the floor or
/// the stacked cells of `grid`.
pub fn check_collision(grid: &Grid, shape: &TetrominoShape, x: i32, y: i32) -> (r: bool)
    ensures
        r == collides(*grid, *shape, x as int, y as int),
{
    let mut row: usize = 0;
    while row < 4
        invariant
            row <= 4,
            forall|r: int, c: int|
                0 <= r < row && 0 <= c < 4 && #[trigger] is_filled(*shape, r, c) ==> !blocked(
                    *grid,
                    x + c,
                    y + r,
                ),
        decreases 4 - row,
    {
        let mut col: usize = 0;
        while col < 4
            invariant
                row < 4,
                col <= 4,
                forall|r: int, c: int|
                    ((0 <= r < row && 0 <= c < 4) || (r == row && 0 <= c < col))
                        && #[trigger] is_filled(*shape, r, c) ==> !blocked(*grid, x + c, y + r),
            decreases 4 - col,
        {
            if shape[row][col] != 0 {
                let nx: i64 = x as i64 + col as i64;
                let ny: i64 = y as i64 + row as i64;
                if nx < 0 || nx >= GRID_WIDTH as i64 || ny >= GRID_HEIGHT as i64 {
                    assert(is_filled(*shape, row as int, col as int));
                    return true;
                }
                if ny >= 0 && grid[ny as usize][nx as usize].is_some() {
                    assert(is_filled(*shape, row as int, col as int));
                    return true;
                }
            }
            col += 1;
        }
        row += 1;
    }
    false
}

/// Whether `shape` placed with its top-left corner at `(x, y)` has a filled
/// cell on grid position `(col, row)`.
pub open spec fn covers(shape: TetrominoShape, x: int, y: int, col: int, row: int) -> bool {
    0 <= row - y < 4 && 0 <= col - x < 4 && is_filled(shape, row - y, col - x)
}

/// `rows` with every position that `shape` at `(x, y)` covers set to `color`;
/// covered positions outside the rows are left out.
pub open spec fn stacked(
    rows: Seq<Seq<Option<Color>>>,
    shape: TetrominoShape,
    x: int,
    y: int,
    color: Color,
) -> Seq<Seq<Option<Color>>> {
    Seq::new(
        rows.len(),
        |row: int|
            Seq::new(
                rows[row].len(),
                |col: int|
                    if covers(shape, x, y, col, row) {
                        Some(color)
                    } else {
                        rows[row][col]
                    },
            ),
    )
}

/// Writes `color` into every grid cell that a filled cell of `shape` at
/// `(x, y)` lands on; filled cells outside the grid are skipped.
pub fn stack_tetromino(grid: &mut Grid, shape: &TetrominoShape, x: i32, y: i32, color: Color)
    ensures
        grid_rows(*final(grid)) == stacked(grid_rows(*old(grid)), *shape, x as int, y as int, color),
{
    let ghost start = *grid;
    let mut row: usize = 0;
    while row < 4
        invariant
            row <= 4,
            forall|i: int, j: int|
                0 <= i < GRID_HEIGHT && 0 <= j < GRID_WIDTH ==> #[trigger] grid[i][j] == (if covers(
                    *shape,
                    x as int,
                    y as int,
                    j,
                    i,
                ) && i - y < row {
                    Some(color)
                } else {
                    start[i][j]
                }),
        decreases 4 - row,
    {
        let mut col: usize = 0;
        while col < 4
            invariant
                row < 4,
                col <= 4,
                forall|i: int, j: int|
                    0 <= i < GRID_HEIGHT && 0 <= j < GRID_WIDTH ==> #[trigger] grid[i][j] == (if covers(
                        *shape,
                        x as int,
                        y as int,
                        j,
                        i,
                    ) && (i - y < row || (i - y == row && j - x < col)) {
                        Some(color)
                    } else {
                        start[i][j]
                    }),
            decreases 4 - col,
        {
            if shape[row][col] != 0 {
                let nx: i64 = x as i64 + col as i64;
                let ny: i64 = y as i64 + row as i64;
                if ny >= 0 && ny < GRID_HEIGHT as i64 && nx >= 0 && nx < GRID_WIDTH as i64 {
                    grid[ny as usize][nx as usize] = Some(color);
                }
            }
            col += 1;
        }
        row += 1;
    }
    proof {
        assert(grid_rows(*grid) =~~= stacked(grid_rows(start), *shape, x as int, y as int, color));
    }
}

/// A piece that has just been stacked collides with itself: after
/// `stack_tetromino` at `(x, y)`, `check_collision` at the same place with the
/// same shape returns true, provided that some filled cell of the shape lies
/// at or below the top row (a piece wholly above the grid leaves no trace).
pub proof fn lemma_stacked_piece_collides(
    grid: Grid,
    after: Grid,
    shape: TetrominoShape,
    x: int,
    y: int,
    color: Color,
)
    requires
        grid_rows(after) == stacked(grid_rows(grid), shape, x, y, color),
        exists|r: int, c: int| 0 <= r < 4 && 0 <= c < 4 && #[trigger] is_filled(shape, r, c) && y + r >= 0,
    ensures
        collides(after, shape, x, y),
{
    let (r, c) = choose|r: int, c: int|
        0 <= r < 4 && 0 <= c < 4 && #[trigger] is_filled(shape, r, c) && y + r >= 0;
    if 0 <= x + c < GRID_WIDTH && y + r < GRID_HEIGHT {
        assert(grid_rows(after)[y + r][x + c] == after[y + r][x + c]);
        assert(covers(shape, x, y, x + c, y + r));
    }
    assert(blocked(after, x + c, y + r));
}

/// Whether every cell of `row` is occupied.
pub open spec fn is_full_row(row: Seq<Option<Color>>) -> bool {
    forall|i: int| 0 <= i < row.len() ==> row[i] is Some
}

/// A row of empty cells.
pub open spec fn empty_row() -> Seq<Option<Color>> {
    Seq::new(GRID_WIDTH as nat, |i: int| None)
}

/// The rows that are not full, in their order.
pub open spec fn kept_rows(rows: Seq<Seq<Option<Color>>>) -> Seq<Seq<Option<Color>>> {
    rows.filter(|row: Seq<Option<Color>>| !is_full_row(row))
}

/// How many rows are full.
pub open spec fn full_row_count(rows: Seq<Seq<Option<Color>>>) -> nat {
    (rows.len() - kept_rows(rows).len()) as nat
}

/// The rows after every full row is removed: the remaining rows keep their
/// order and sink to the bottom, and as many empty rows as were removed fill
/// the top.
pub open spec fn after_clearing(rows: Seq<Seq<Option<Color>>>) -> Seq<Seq<Option<Color>>> {
    Seq::new(full_row_count(rows), |i: int| empty_row()) + kept_rows(rows)
}

/// `rows` with row `y` removed and an empty row added at the top.
pub open spec fn drop_row(rows: Seq<Seq<Option<Color>>>, y: int) -> Seq<Seq<Option<Color>>> {
    seq![empty_row()] + rows.subrange(0, y) + rows.subrange(y + 1, rows.len() as int)
}

proof fn lemma_kept_single(row: Seq<Option<Color>>)
    ensures
        kept_rows(seq![row]) == (if is_full_row(row) {
            Seq::<Seq<Option<Color>>>::empty()
        } else {
            seq![row]
        }),
{
    reveal_with_fuel(Seq::filter, 2);
    assert(seq![row].drop_last() =~= Seq::<Seq<Option<Color>>>::empty());
}

proof fn lemma_kept_all(rows: Seq<Seq<Option<Color>>>)
    requires
        forall|i: int| 0 <= i < rows.len() ==> !is_full_row(#[trigger] rows[i]),
    ensures
        kept_rows(rows) == rows,
    decreases rows.len(),
{
    reveal_with_fuel(Seq::filter, 1);
    if rows.len() > 0 {
        let init = rows.drop_last();
        assert forall|i: int| 0 <= i < init.len() implies !is_full_row(#[trigger] init[i]) by {
            assert(init[i] == rows[i]);
        }
        lemma_kept_all(init);
        assert(!is_full_row(rows[rows.len() - 1]));
        assert(kept_rows(rows) =~= rows);
    }
}

/// Dropping a full row leaves the cleared result and the rows that survive
/// it as they were, and removes one full row.
proof fn lemma_drop_full_row(rows: Seq<Seq<Option<Color>>>, y: int)
    requires
        0 <= y < rows.len(),
        is_full_row(rows[y]),
    ensures
        drop_row(rows, y).len() == rows.len(),
        kept_rows(drop_row(rows, y)) == seq![empty_row()] + kept_rows(rows),
        full_row_count(drop_row(rows, y)) + 1 == full_row_count(rows),
        after_clearing(drop_row(rows, y)) == after_clearing(rows),
{
    let a = rows.subrange(0, y);
    let b = rows.subrange(y + 1, rows.len() as int);
    assert(rows =~= a + seq![rows[y]] + b);
    Seq::filter_distributes_over_add(a + seq![rows[y]], b, |row: Seq<Option<Color>>| !is_full_row(row));
    Seq::filter_distributes_over_add(a, seq![rows[y]], |row: Seq<Option<Color>>| !is_full_row(row));
    lemma_kept_single(rows[y]);
    assert(kept_rows(rows) =~= kept_rows(a) + kept_rows(b));
    let d = drop_row(rows, y);
    Seq::filter_distributes_over_add(seq![empty_row()] + a, b, |row: Seq<Option<Color>>| !is_full_row(row));
    Seq::filter_distributes_over_add(seq![empty_row()], a, |row: Seq<Option<Color>>| !is_full_row(row));
    assert(empty_row()[0] is None);
    lemma_kept_single(empty_row());
    assert(kept_rows(d) =~= seq![empty_row()] + kept_rows(rows));
    lemma_full_count_bound(rows);
    assert(after_clearing(d) =~= after_clearing(rows));
}

proof fn lemma_full_count_bound(rows: Seq<Seq<Option<Color>>>)
    ensures
        kept_rows(rows).len() <= rows.len(),
{
    rows.lemma_filter_len(|row: Seq<Option<Color>>| !is_full_row(row));
}

/// Clearing an all-empty grid removes nothing and leaves every row as it
/// was.
pub proof fn lemma_clear_empty_grid(rows: Seq<Seq<Option<Color>>>)
    requires
        forall|i: int| 0 <= i < rows.len() ==> #[trigger] rows[i] == empty_row(),
    ensures
        full_row_count(rows) == 0,
        after_clearing(rows) == rows,
{
    assert forall|i: int| 0 <= i < rows.len() implies !is_full_row(#[trigger] rows[i]) by {
        assert(rows[i][0] is None);
    }
    lemma_kept_all(rows);
    assert(after_clearing(rows) =~= rows);
}

/// Clearing a grid in which exactly rows `a < b` are full removes two rows:
/// the rows above `a` move down two, those between `a` and `b` move down one,
/// those below `b` stay, and two empty rows fill the top.
pub proof fn lemma_clear_two_full_rows(rows: Seq<Seq<Option<Color>>>, a: int, b: int)
    requires
        0 <= a < b < rows.len(),
        is_full_row(rows[a]),
        is_full_row(rows[b]),
        forall|i: int| 0 <= i < rows.len() && i != a && i != b ==> !is_full_row(#[trigger] rows[i]),
    ensures
        full_row_count(rows) == 2,
        after_clearing(rows) == seq![empty_row(), empty_row()] + rows.subrange(0, a) + rows.subrange(
            a + 1,
            b,
        ) + rows.subrange(b + 1, rows.len() as int),
{
    let p = rows.subrange(0, a);
    let q = rows.subrange(a + 1, b);
    let t = rows.subrange(b + 1, rows.len() as int);
    assert(rows =~= p + seq![rows[a]] + q + seq![rows[b]] + t);
    let keep = |row: Seq<Option<Color>>| !is_full_row(row);
    Seq::filter_distributes_over_add(p + seq![rows[a]] + q + seq![rows[b]], t, keep);
    Seq::filter_distributes_over_add(p + seq![rows[a]] + q, seq![rows[b]], keep);
    Seq::filter_distributes_over_add(p + seq![rows[a]], q, keep);
    Seq::filter_distributes_over_add(p, seq![rows[a]], keep);
    lemma_kept_single(rows[a]);
    lemma_kept_single(rows[b]);
    assert forall|i: int| 0 <= i < p.len() implies !is_full_row(#[trigger] p[i]) by {
        assert(p[i] == rows[i]);
    }
    assert forall|i: int| 0 <= i < q.len() implies !is_full_row(#[trigger] q[i]) by {
        assert(q[i] == rows[a + 1 + i]);
    }
    assert forall|i: int| 0 <= i < t.len() implies !is_full_row(#[trigger] t[i]) by {
        assert(t[i] == rows[b + 1 + i]);
    }
    lemma_kept_all(p);
    lemma_kept_all(q);
    lemma_kept_all(t);
    assert(kept_rows(rows) =~= p + q + t);
    assert(after_clearing(rows) =~= seq![empty_row(), empty_row()] + p + q + t);
}

fn row_is_full(row: &[Option<Color>; GRID_WIDTH]) -> (r: bool)
    ensures
        r == is_full_row(row@),
{
    let mut i: usize = 0;
    while i < GRID_WIDTH
        invariant
            i <= GRID_WIDTH,
            forall|j: int| 0 <= j < i ==> row@[j] is Some,
        decreases GRID_WIDTH - i,
    {
        if row[i].is_none() {
            return false;
        }
        i += 1;
    }
    true
}

/// Removes every full row: the rows above a removed row move down, and empty
/// rows fill the top. Returns how many rows were removed.
pub fn clear_lines(grid: &mut Grid) -> (r: usize)
    ensures
        r == full_row_count(grid_rows(*old(grid))),
        r <= GRID_HEIGHT,
        grid_rows(*final(grid)) == after_clearing(grid_rows(*old(grid))),
{
    let ghost start = grid_rows(*grid);
    proof {
        lemma_full_count_bound(start);
    }
    let mut cleared: usize = 0;
    let mut y: i32 = GRID_HEIGHT as i32 - 1;
    while y >= 0
        invariant
            -1 <= y < GRID_HEIGHT,
            grid_rows(*grid).len() == GRID_HEIGHT,
            full_row_count(start) <= GRID_HEIGHT,
            after_clearing(grid_rows(*grid)) == after_clearing(start),
            cleared + full_row_count(grid_rows(*grid)) == full_row_count(start),
            forall|i: int| y < i < GRID_HEIGHT ==> !is_full_row(#[trigger] grid_rows(*grid)[i]),
        decreases y + 1 + full_row_count(grid_rows(*grid)),
    {
        let yu = y as usize;
        if row_is_full(&grid[yu]) {
            let ghost before = *grid;
            let mut row: usize = yu;
            while row > 0
                invariant
                    row <= yu < GRID_HEIGHT,
                    forall|i: int| 0 <= i <= row ==> grid@[i] == before@[i],
                    forall|i: int| row < i <= yu ==> grid@[i] == before@[i - 1],
                    forall|i: int| yu < i < GRID_HEIGHT ==> grid@[i] == before@[i],
                decreases row,
            {
                grid[row] = grid[row - 1];
                row -= 1;
            }
            grid[0] = [None; GRID_WIDTH];
            proof {
                let g0 = grid_rows(before);
                assert(grid@[0]@ =~= empty_row());
                assert(grid_rows(*grid) =~= drop_row(g0, yu as int));
                lemma_drop_full_row(g0, yu as int);
                lemma_full_count_bound(g0);
            }
            cleared += 1;
        } else {
            y -= 1;
        }
    }
    proof {
        lemma_kept_all(grid_rows(*grid));
        assert(after_clearing(grid_rows(*grid)) =~= grid_rows(*grid));
    }
    cleared
}

} // verus!
