use vstd::prelude::*;
use crate::hlt::direction::Direction;
use crate::hlt::ShipId;

verus! {

/// An instruction sent to the game engine for one turn.
#[derive(Clone, Copy, Debug, PartialEq, Eq, Structural)]
pub enum Command {
    /// Build a new ship at the shipyard.
    Spawn,
    /// Turn the ship into a drop-off site.
    ConstructDropoff(ShipId),
    /// Move the ship one step, or keep it in place.
    Move(ShipId, Direction),
}

impl Command {
    pub fn spawn_ship() -> (r: Command)
        ensures
            r == Command::Spawn,
    {
        Command::Spawn
    }

    pub fn transform_ship_into_dropoff_site(id: ShipId) -> (r: Command)
        ensures
            r == Command::ConstructDropoff(id),
    {
        Command::ConstructDropoff(id)
    }

    pub fn move_ship(id: ShipId, direction: Direction) -> (r: Command)
        ensures
            r == Command::Move(id, direction),
    {
        Command::Move(id, direction)
    }
}

} // verus!
