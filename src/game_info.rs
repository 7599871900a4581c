//! Score, cleared-line count, level and the preview of the next piece.
use vstd::prelude::*;

use crate::tetromino::TetrominoShape;
use macroquad::color::Color;

verus! {

/// Points for clearing `lines` rows with one piece: `100 * lines²`.
pub open spec fn points_for(lines: int) -> int {
    100 * lines * lines
}

/// What the side panel shows: score, lines cleared, the next piece and the
/// level.
pub struct GameInfo {
    pub score: u32,
    pub lines_cleared: u32,
    pub next_shape: TetrominoShape,
    pub next_color: Color,
    pub level: usize,
}

impl GameInfo {
    /// A panel at the start of play: no score, no lines, level 1.
    pub fn new(next_shape: TetrominoShape, next_color: Color) -> (r: Self)
        ensures
            r.score == 0,
            r.lines_cleared == 0,
            r.next_shape == next_shape,
            r.next_color == next_color,
            r.level == 1,
    {
        GameInfo { score: 0, lines_cleared: 0, next_shape, next_color, level: 1 }
    }

    /// Credits one lock that cleared `lines` rows: the score grows by
    /// `100 * lines²` and the line count by `lines`.
    pub fn add_score(&mut self, lines: u32)
        requires
            old(self).score + points_for(lines as int) <= u32::MAX,
            old(self).lines_cleared + lines <= u32::MAX,
        ensures
            final(self).score == old(self).score + points_for(lines as int),
            final(self).lines_cleared == old(self).lines_cleared + lines,
            final(self).next_shape == old(self).next_shape,
            final(self).next_color == old(self).next_color,
            final(self).level == old(self).level,
    {
        assert(100 * lines <= 100 * lines * lines || lines == 0) by (nonlinear_arith);
        self.score += 100 * lines * lines;
        self.lines_cleared += lines;
    }

    /// Shows `shape` in `color` as the next piece.
    pub fn set_next(&mut self, shape: TetrominoShape, color: Color)
        ensures
            final(self).next_shape == shape,
            final(self).next_color == color,
            final(self).score == old(self).score,
            final(self).lines_cleared == old(self).lines_cleared,
            final(self).level == old(self).level,
    {
        self.next_shape = shape;
        self.next_color = color;
    }

    /// Shows `level` as the current level.
    pub fn set_level(&mut self, level: usize)
        ensures
            final(self).level == level,
            final(self).score == old(self).score,
            final(self).lines_cleared == old(self).lines_cleared,
            final(self).next_shape == old(self).next_shape,
            final(self).next_color == old(self).next_color,
    {
        self.level = level;
    }
}

} // verus!
