//! The grid's size with a per-turn table of claimed cells.
use vstd::prelude::*;
use crate::bot::reservations::Reservations;
use crate::hlt::game_map::GameMap;
use crate::hlt::position::{wrap, wrap_coordinate, Position};

verus! {

/// A game map with extended information and functionality.
pub struct ExtendedMap {
    pub width: usize,
    pub height: usize,
    /// Positions where ships will be in the next turn.
    collision_positions: Reservations,
}

impl ExtendedMap {
    /// The width and height of the grid.
    pub closed spec fn size(&self) -> (usize, usize) {
        (self.width, self.height)
    }

    /// Whether the sides fit in `i32` and are not empty.
    pub open spec fn wf(&self) -> bool {
        1 <= self.size().0 <= i32::MAX && 1 <= self.size().1 <= i32::MAX
    }

    /// The cell, with coordinates in range, that `p` denotes on this grid.
    pub open spec fn cell(&self, p: Position) -> Position {
        Position {
            x: wrap(p.x as int, self.size().0 as int) as i32,
            y: wrap(p.y as int, self.size().1 as int) as i32,
        }
    }

    /// Cells claimed since the table was last cleared.
    pub closed spec fn reserved(&self) -> Set<Position> {
        self.collision_positions@
    }

    pub fn from_game_map(game_map: &GameMap) -> (r: ExtendedMap)
        requires
            game_map.wf(),
        ensures
            r.wf(),
            r.size() == (game_map.width, game_map.height),
            r.reserved() == Set::<Position>::empty(),
    {
        ExtendedMap {
            width: game_map.width,
            height: game_map.height,
            collision_positions: Reservations::new(),
        }
    }

    /// Call before a turn.
    pub fn clear_reserved_cells(&mut self)
        ensures
            final(self).reserved() == Set::<Position>::empty(),
            final(self).size() == old(self).size(),
            final(self).wf() == old(self).wf(),
    {
        self.collision_positions.clear();
    }

    /// Returns true if the cell the position denotes is still free; the cell
    /// is then claimed.
    pub fn try_reserve_cell(&mut self, position: &Position) -> (r: bool)
        requires
            old(self).wf(),
        ensures
            r == !old(self).reserved().contains(old(self).cell(*position)),
            final(self).reserved() == old(self).reserved().insert(old(self).cell(*position)),
            final(self).size() == old(self).size(),
    {
        let cell = Position {
            x: wrap_coordinate(position.x, self.width as i32),
            y: wrap_coordinate(position.y, self.height as i32),
        };
        self.collision_positions.try_reserve(&cell)
    }
}

} // verus!
