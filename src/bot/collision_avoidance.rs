use vstd::prelude::*;
use crate::bot::reservations::Reservations;
use crate::hlt::game_map::GameMap;
use crate::hlt::position::Position;

verus! {

/// Keeps two ships planned in the same real turn from being sent to the
/// same cell: a cell is free if the game shows no ship on it and no ship
/// has claimed it yet this turn.
pub struct CollisionAvoidance<'game> {
    pub game_map: &'game GameMap,
    /// Positions where ships will be in the next turn.
    collision_positions: Reservations,
}

impl<'game> CollisionAvoidance<'game> {
    /// The map of the present turn.
    pub closed spec fn map(&self) -> GameMap {
        *self.game_map
    }

    /// Cells claimed so far, with coordinates in range.
    pub closed spec fn reserved(&self) -> Set<Position> {
        self.collision_positions@
    }

    pub fn new(game_map: &'game GameMap) -> (r: CollisionAvoidance<'game>)
        ensures
            r.map() == *game_map,
            r.reserved() == Set::<Position>::empty(),
    {
        CollisionAvoidance { game_map, collision_positions: Reservations::new() }
    }

    /// Returns true if the cell the position denotes is still free; the cell
    /// is then claimed.
    pub fn can_move_safely_then_reserve(&mut self, position: &Position) -> (r: bool)
        requires
            old(self).map().wf(),
        ensures
            r == (old(self).map().cell_at(*position).ship is None && !old(self).reserved().contains(
                old(self).map().normalized(*position),
            )),
            final(self).reserved() == if r {
                old(self).reserved().insert(old(self).map().normalized(*position))
            } else {
                old(self).reserved()
            },
            final(self).map() == old(self).map(),
    {
        // Don't move to an occupied cell.
        if self.game_map.at_position(position).ship.is_some() {
            return false;
        }
        // Claim the cell, so that positions naming the same cell agree.
        let cell = self.game_map.normalize(position);
        self.collision_positions.try_reserve(&cell)
    }
}

} // verus!
