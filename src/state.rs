//! The states a play session moves through.
use vstd::prelude::*;

verus! {

/// The session's state: difficulty selection, active play, paused play, or
/// the terminal game-over state.
#[derive(Debug, PartialEq, Eq, Structural, Clone, Copy)]
pub enum GameState {
    Waiting,
    Running,
    Paused,
    GameOver,
}

impl GameState {
    /// True exactly in the `Running` state.
    pub fn is_running(&self) -> (r: bool)
        ensures
            r == (*self == GameState::Running),
    {
        match self {
            GameState::Running => true,
            _ => false,
        }
    }

    /// True exactly in the `Waiting` state.
    pub fn is_waiting(&self) -> (r: bool)
        ensures
            r == (*self == GameState::Waiting),
    {
        match self {
            GameState::Waiting => true,
            _ => false,
        }
    }
}

} // verus!
