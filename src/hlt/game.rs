use vstd::prelude::*;
use crate::hlt::game_map::GameMap;
use crate::hlt::position::Position;
use crate::hlt::ship::Ship;
use crate::hlt::{PlayerId, ShipId};

verus! {

/// This player as the engine reports it.
pub struct Player {
    pub player_id: PlayerId,
    pub shipyard: Position,
    /// The player's bank of collected resource.
    pub halite: usize,
    pub ship_ids: Vec<ShipId>,
}

/// What is known of the game at the start of a real turn.
pub struct Game {
    pub turn_number: u32,
    pub me: Player,
    /// What a new ship costs.
    pub ship_cost: usize,
    pub game_map: GameMap,
    /// Every ship on the grid.
    pub ships: Vec<Ship>,
}

impl Game {
    pub open spec fn wf(&self) -> bool {
        self.game_map.wf()
    }

    pub fn me(&self) -> (r: &Player)
        ensures
            r == &self.me,
    {
        &self.me
    }
}

} // verus!
