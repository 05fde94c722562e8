//! A "ladders and slides" board game core: a linear track of numbered tiles,
//! randomly generated directed shortcuts (ladders forward, slides backward),
//! dice-driven movement, and win detection.
//!
//! The library is organised around the pieces with real invariants: the
//! connection generator, which places non-overlapping direction-constrained
//! shortcuts on the track, and the position resolver, which follows chained
//! shortcuts to a piece's true resting tile and guards against cycles.

use vstd::prelude::*;

pub mod board;
pub mod dice;
pub mod engine;
pub mod generator;
pub mod resolver;
mod rng;

verus! {

/// The ways a game operation can fail. All of these are reported to the
/// immediate caller; none are recovered internally.
#[derive(Clone, Copy, Debug, PartialEq, Eq, Structural)]
pub enum GameError {
    /// Invalid construction parameters: a non-positive tile count, a negative
    /// shortcut count, or more shortcuts than the track can hold.
    Configuration,
    /// A tile was given a negative position.
    InvalidTile,
    /// A connection joined a tile to itself, or ran in the wrong direction
    /// for its kind.
    InvalidConnection,
    /// Rejection sampling in the connection generator exhausted its retry
    /// budget before finding a valid placement.
    GenerationTimeout,
    /// The position resolver revisited a position: the connection set holds a
    /// cycle, which the generator's invariants are meant to exclude.
    CycleDetected,
    /// The dice were asked to roll with a non-positive number of sides or of
    /// rolls.
    InvalidDice,
}

} // verus!
