//! A falling-block puzzle engine: the playfield with its collision, stacking
//! and line-clearing rules, the piece catalog and rotation, the "bag of seven"
//! piece sequencer, scoring, and the session state machine that ties them
//! together.
pub mod state;
pub mod game;
pub mod game_info;
pub mod parameters;
pub mod session;
pub mod tetromino;
