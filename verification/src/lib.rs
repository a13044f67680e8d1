//! Rules engine for a two-player, card-driven Battleship variant.
//!
//! Each player owns a 10x10 ship board and a guess board, a fleet of five
//! ships, and a deck and hand of action cards.  The modules here hold the
//! verified game rules: cell-state transitions, random ship placement, the
//! card economy, the five action resolutions, and the turn state machine.

use vstd::prelude::*;

pub mod board;
pub mod deck;
pub mod game;
pub mod player;
mod rng;
pub mod ship;
pub mod twist;

verus! {

/// Number of rows and columns of a board.
pub const GRID_SIZE: usize = 10;

/// Number of cards a hand is refilled to.
pub const HAND_SIZE: usize = 3;

/// Number of cards a freshly built deck holds.
pub const DECK_SIZE: usize = 48;

/// Number of ticks a patrol may stay open before it times out.
pub const PATROL_FRAMES: usize = 30;

} // verus!
