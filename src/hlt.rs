//! The game's basic vocabulary: positions, directions, ships and commands.
use vstd::prelude::*;

pub mod command;
pub mod direction;
pub mod game;
pub mod game_map;
pub mod position;
pub mod ship;

verus! {

/// Identifies a player.
#[derive(Clone, Copy, Debug, PartialEq, Eq, Structural, Hash)]
pub struct PlayerId(pub usize);

/// Identifies a ship for the whole game.
#[derive(Clone, Copy, Debug, PartialEq, Eq, Structural, Hash)]
pub struct ShipId(pub usize);

} // verus!
