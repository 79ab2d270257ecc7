use vstd::prelude::*;
use crate::hlt::direction::Direction;
use crate::hlt::ShipId;

verus! {

/// What a ship does in one turn, as the simulation sees it.
#[derive(Clone, Copy, Debug, PartialEq, Eq, Structural)]
pub enum Action {
    MoveShip(ShipId, Direction),
    /// No ship acts.
    Nothing,
}

} // verus!
