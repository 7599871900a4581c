//! Fixed dimensions of the playfield and the difficulty levels.
use vstd::prelude::*;

verus! {

/// Width of the playfield, in columns.
pub const GRID_WIDTH: usize = 10;

/// Height of the playfield, in rows.
pub const GRID_HEIGHT: usize = 20;

/// Difficulty chosen before play starts; it sets the initial fall delay.
#[derive(Debug, PartialEq, Eq, Structural, Clone, Copy)]
pub enum Difficulty {
    Easy,
    Medium,
    Hard,
}

} // verus!
