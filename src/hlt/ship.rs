use vstd::prelude::*;
use crate::hlt::command::Command;
use crate::hlt::direction::Direction;
use crate::hlt::position::Position;
use crate::hlt::{PlayerId, ShipId};

verus! {

/// The capacity every ship of the game has.
pub const SHIP_CAPACITY: usize = 1000;

/// A ship: who owns it, where it is and how much it carries.
/// Its capacity is fixed when it is made; no operation of the library changes it.
#[derive(Clone, Copy, Debug, PartialEq, Eq, Structural)]
pub struct Ship {
    pub owner: PlayerId,
    pub id: ShipId,
    pub position: Position,
    pub halite: usize,
    pub max_halite: usize,
}

impl Ship {
    /// The most the ship can carry.
    pub open spec fn capacity(self) -> usize {
        self.max_halite
    }

    pub fn new(
        owner: PlayerId,
        id: ShipId,
        position: Position,
        halite: usize,
        max_halite: usize,
    ) -> (r: Ship)
        ensures
            r.owner == owner,
            r.id == id,
            r.position == position,
            r.halite == halite,
            r.capacity() == max_halite,
    {
        Ship { owner, id, position, halite, max_halite }
    }

    /// Builds a ship from the fields of its line in the engine's turn report.
    /// Every ship of the game has the same capacity.
    pub fn generate(
        player_id: PlayerId,
        max_halite: usize,
        id: usize,
        x: i32,
        y: i32,
        halite: usize,
    ) -> (r: Ship)
        requires
            max_halite == SHIP_CAPACITY,
        ensures
            r.owner == player_id,
            r.id == ShipId(id),
            r.position == (Position { x, y }),
            r.halite == halite,
            r.capacity() == max_halite,
    {
        Ship { owner: player_id, id: ShipId(id), position: Position { x, y }, halite, max_halite }
    }

    pub fn is_full(&self) -> (r: bool)
        ensures
            r == (self.halite >= self.capacity()),
    {
        self.halite >= self.max_halite
    }

    pub fn max_halite(&self) -> (r: usize)
        ensures
            r == self.capacity(),
    {
        self.max_halite
    }

    pub fn owner(&self) -> (r: PlayerId)
        ensures
            r == self.owner,
    {
        self.owner
    }

    pub fn position(&self) -> (r: Position)
        ensures
            r == self.position,
    {
        self.position
    }

    pub fn make_dropoff(&self) -> (r: Command)
        ensures
            r == Command::ConstructDropoff(self.id),
    {
        Command::transform_ship_into_dropoff_site(self.id)
    }

    pub fn move_ship(&self, direction: Direction) -> (r: Command)
        ensures
            r == Command::Move(self.id, direction),
    {
        Command::move_ship(self.id, direction)
    }

    pub fn stay_still(&self) -> (r: Command)
        ensures
            r == Command::Move(self.id, Direction::Still),
    {
        Command::move_ship(self.id, Direction::Still)
    }
}

} // verus!
