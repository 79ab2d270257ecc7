use vstd::prelude::*;
use crate::chance::{random_bool, random_in_range};
use rand::rngs::StdRng;
use crate::complex_action::ComplexAction;
use crate::hlt::command::Command;
use crate::hlt::direction::Direction;
use crate::hlt::game::Game;
use crate::hlt::game_map::{moves_towards, GameMap};
use crate::hlt::position::Position;
use crate::hlt::ship::Ship;
use crate::hlt::ShipId;
use crate::random_and_back::extended_map::ExtendedMap;

verus! {

/// Why a bot has no command this turn.
#[derive(Clone, Copy, Debug, PartialEq, Eq, Structural)]
pub enum BotError {
    /// The ship does not exist anymore.
    ShipGone(ShipId),
}

/// Turns a blocked ship waits before it picks another target.
pub const MAX_BLOCKED_TURNS: u32 = 7;

/// Percent of its capacity at which a ship deciding anew heads home.
pub const HOMEWARD_PERCENT: u128 = 80;

/// Percent of its capacity at which a collecting ship heads home.
pub const FULL_PERCENT: u128 = 95;

/// Whether the ship carries at least `percent` of its capacity.
pub open spec fn full_at(ship: Ship, percent: int) -> bool {
    ship.halite * 100 >= percent * ship.max_halite
}

/// Whether a ship with the id is among `ships`.
pub open spec fn has_ship(ships: Seq<Ship>, id: ShipId) -> bool {
    exists|i: int| 0 <= i < ships.len() && (#[trigger] ships[i]).id == id
}

/// A ship that plans a few turns: it wanders off to random cells to collect
/// and returns to the shipyard when full, keeping its plan between turns.
/// Functions only call functions further down in this file.
pub struct ShipBot {
    pub ship_id: ShipId,
    movement_blocked: u32,
    /// The plan for the next turn. It may be set anywhere in the logic chain;
    /// if it is not, the current plan continues.
    next_action: Option<ComplexAction>,
}

impl ShipBot {
    pub closed spec fn id(&self) -> ShipId {
        self.ship_id
    }

    /// The plan for the next turn.
    pub closed spec fn planned(&self) -> Option<ComplexAction> {
        self.next_action
    }

    /// Turns the ship has been blocked in a row.
    pub closed spec fn blocked(&self) -> u32 {
        self.movement_blocked
    }

    pub closed spec fn wf(&self) -> bool {
        self.movement_blocked < MAX_BLOCKED_TURNS
    }

    pub fn new(ship_id: &ShipId) -> (r: ShipBot)
        ensures
            r.id() == *ship_id,
            r.planned() == Some(ComplexAction::Undefined),
            r.wf(),
    {
        ShipBot {
            ship_id: *ship_id,
            movement_blocked: 0,
            next_action: Some(ComplexAction::Undefined),
        }
    }

    /// The ship's command for this turn, or an error if the ship doesn't
    /// exist anymore.
    pub fn next_turn(&mut self, game: &Game, ex_map: &mut ExtendedMap, rng: &mut StdRng) -> (r:
        Result<
        Command,
        BotError,
    >)
        requires
            game.wf(),
            old(ex_map).map().wf(),
            old(self).wf(),
        ensures
            final(self).wf(),
            final(self).id() == old(self).id(),
            final(ex_map).map() == old(ex_map).map(),
            r is Ok <==> has_ship(game.ships@, old(self).id()),
            r is Err ==> r == Err::<Command, BotError>(BotError::ShipGone(old(self).id())),
            r is Ok ==> exists|d: Direction| r == Ok::<Command, BotError>(Command::Move(old(self).id(), d)),
            r is Ok ==> final(self).planned() is Some,
    {
        // The plan made last turn is the current one.
        let current_action = match self.next_action {
            Some(action) => action,
            None => ComplexAction::Undefined,
        };
        self.next_action = None;
        // First, find out if the ship still exists.
        let mut found: Option<Ship> = None;
        let mut i: usize = 0;
        while i < game.ships.len()
            invariant
                i <= game.ships@.len(),
                match found {
                    Some(s) => s.id == self.ship_id && game.ships@.contains(s),
                    None => !(exists|j: int| 0 <= j < i && (#[trigger] game.ships@[j]).id == self.ship_id),
                },
            decreases game.ships@.len() - i,
        {
            if found.is_none() && game.ships[i].id == self.ship_id {
                found = Some(game.ships[i]);
            }
            i = i + 1;
        }
        let ship = match found {
            Some(s) => s,
            None => {
                self.next_action = Some(current_action);
                return Err(BotError::ShipGone(self.ship_id));
            },
        };
        // Decide based on the current plan.
        let direction = match current_action {
            ComplexAction::Navigate(destination) => self.move_in_direction(
                &destination,
                &ship,
                ex_map,
                game, rng),
            ComplexAction::NavigateCollect(destination) => self.navigate_or_collect(
                &destination,
                &ship,
                ex_map,
                game, rng),
            ComplexAction::Undefined => self.decide_action(&ship, ex_map, game, rng),
        };
        // If no one set the next plan, the current one continues next turn.
        if self.next_action.is_none() {
            self.next_action = Some(current_action);
        }
        Ok(ship.move_ship(direction))
    }

    fn decide_action(&mut self, ship: &Ship, ex_map: &mut ExtendedMap, game: &Game, rng: &mut StdRng) -> (r:
        Direction)
        requires
            game.wf(),
            old(ex_map).map().wf(),
            old(self).wf(),
        ensures
            final(self).wf(),
            final(self).id() == old(self).id(),
            final(ex_map).map() == old(ex_map).map(),
    {
        if game.game_map.at_position(&ship.position).has_structure {
            // At a drop-off: navigate somewhere else.
            self.navigate_random(ship, ex_map, game, rng)
        } else if ShipBot::is_full(ship, HOMEWARD_PERCENT) {
            // Full: go home.
            self.navigate_to_dropoff(ship, ex_map, game, rng)
        } else {
            // Default: collect on the way to a random cell.
            self.navigate_random_collect(ship, ex_map, game, rng)
        }
    }

    /// Moves farther away.
    fn navigate_random(&mut self, ship: &Ship, ex_map: &mut ExtendedMap, game: &Game, rng: &mut StdRng) -> (r:
        Direction)
        requires
            game.wf(),
            old(ex_map).map().wf(),
            old(self).wf(),
        ensures
            final(self).wf(),
            final(self).id() == old(self).id(),
            final(ex_map).map() == old(ex_map).map(),
    {
        let random = ShipBot::random_position_near(&game.game_map, &ship.position, 8, 12, rng);
        self.next_action = Some(ComplexAction::Navigate(random));
        self.navigate_or_collect(&random, ship, ex_map, game, rng)
    }

    fn navigate_random_collect(&mut self, ship: &Ship, ex_map: &mut ExtendedMap, game: &Game, rng: &mut StdRng) -> (r:
        Direction)
        requires
            game.wf(),
            old(ex_map).map().wf(),
            old(self).wf(),
        ensures
            final(self).wf(),
            final(self).id() == old(self).id(),
            final(ex_map).map() == old(ex_map).map(),
    {
        let random = ShipBot::random_position_near(&game.game_map, &ship.position, 4, 8, rng);
        self.next_action = Some(ComplexAction::NavigateCollect(random));
        self.move_in_direction(&random, ship, ex_map, game, rng)
    }

    /// If the ship is full, move to base; if its cell is almost empty, move
    /// on; else collect. A cell is almost empty below a fiftieth of a ship's
    /// capacity.
    fn navigate_or_collect(
        &mut self,
        destination: &Position,
        ship: &Ship,
        ex_map: &mut ExtendedMap,
        game: &Game,
        rng: &mut StdRng,
    ) -> (r: Direction)
        requires
            game.wf(),
            old(ex_map).map().wf(),
            old(self).wf(),
        ensures
            final(self).wf(),
            final(self).id() == old(self).id(),
            final(ex_map).map() == old(ex_map).map(),
            !full_at(*ship, FULL_PERCENT as int) && game.game_map.cell_at(ship.position).halite
                >= ship.max_halite / 50 ==> r == Direction::Still,
    {
        let cell_almost_empty = (game.game_map.at_position(&ship.position).halite as usize)
            < ship.max_halite / 50;
        if ShipBot::is_full(ship, FULL_PERCENT) {
            self.navigate_to_dropoff(ship, ex_map, game, rng)
        } else if cell_almost_empty {
            self.move_in_direction(destination, ship, ex_map, game, rng)
        } else {
            Direction::Still
        }
    }

    /// Whether the ship carries at least `percent` of its capacity.
    pub fn is_full(ship: &Ship, percent: u128) -> (r: bool)
        requires
            percent <= 100,
        ensures
            r == full_at(*ship, percent as int),
    {
        let cap = ship.max_halite as u128;
        assert(percent * cap <= 100 * 0x1_0000_0000_0000_0000) by (nonlinear_arith)
            requires
                percent <= 100,
                cap < 0x1_0000_0000_0000_0000,
        ;
        (ship.halite as u128) * 100 >= percent * cap
    }

    /// Heads for the shipyard, the only drop-off for now.
    fn navigate_to_dropoff(&mut self, ship: &Ship, ex_map: &mut ExtendedMap, game: &Game, rng: &mut StdRng) -> (r:
        Direction)
        requires
            game.wf(),
            old(ex_map).map().wf(),
            old(self).wf(),
        ensures
            final(self).wf(),
            final(self).id() == old(self).id(),
            final(ex_map).map() == old(ex_map).map(),
    {
        let dropoff_pos = game.game_map.normalize(&game.me().shipyard);
        self.next_action = Some(ComplexAction::NavigateCollect(dropoff_pos));
        self.move_in_direction(&dropoff_pos, ship, ex_map, game, rng)
    }

    /// One step towards the destination, onto the side with more halite when
    /// two steps help, if the ship can pay it and the cell is free; staying
    /// otherwise. A ship blocked for too long picks a new random target.
    fn move_in_direction(
        &mut self,
        destination: &Position,
        ship: &Ship,
        ex_map: &mut ExtendedMap,
        game: &Game,
        rng: &mut StdRng,
    ) -> (r: Direction)
        requires
            game.wf(),
            old(ex_map).map().wf(),
            old(self).wf(),
        ensures
            final(self).wf(),
            final(self).id() == old(self).id(),
            final(ex_map).map() == old(ex_map).map(),
            r == Direction::Still || moves_towards(
                game.game_map.width as int,
                game.game_map.height as int,
                ship.position,
                *destination,
            ).contains(r),
            *destination == ship.position ==> r == Direction::Still && final(self).planned()
                == Some(ComplexAction::Undefined) && final(ex_map).reserved() == old(
                ex_map,
            ).reserved(),
            *destination != ship.position && game.game_map.cell_at(ship.position).halite / 10
                > ship.halite ==> r == Direction::Still && final(ex_map).reserved() == old(
                ex_map,
            ).reserved() && *final(self) == *old(self),
            r != Direction::Still ==> ({
                let target = game.game_map.neighbour_of(ship.position, r);
                &&& game.game_map.cell_at(ship.position).halite / 10 <= ship.halite
                &&& old(ex_map).map().cell_at(target).ship is None
                &&& !old(ex_map).reserved().contains(old(ex_map).map().normalized(target))
                &&& final(ex_map).reserved() == old(ex_map).reserved().insert(
                    old(ex_map).map().normalized(target),
                )
                &&& final(self).blocked() == 0
            }),
    {
        // Arrived: decide what to do next.
        if destination.x == ship.position.x && destination.y == ship.position.y {
            self.next_action = Some(ComplexAction::Undefined);
            return Direction::Still;
        }
        // Don't move without fuel.
        if (game.game_map.at_position(&ship.position).halite / 10) as usize > ship.halite {
            return Direction::Still;
        }
        // Choose a direction that brings the ship closer.
        let possible_dir = game.game_map.get_unsafe_moves(&ship.position, destination);
        let move_dir = if possible_dir.len() == 0 {
            Direction::Still
        } else if possible_dir.len() == 2 {
            // Choose the direction with more halite.
            let first = game.game_map.neighbour(&ship.position, possible_dir[0]);
            let second = game.game_map.neighbour(&ship.position, possible_dir[1]);
            if game.game_map.at_position(&first).halite >= game.game_map.at_position(
                &second,
            ).halite {
                possible_dir[0]
            } else {
                possible_dir[1]
            }
        } else {
            possible_dir[0]
        };
        let target = game.game_map.neighbour(&ship.position, move_dir);
        if ex_map.can_move_safely_then_reserve(&target) {
            self.movement_blocked = 0;
            move_dir
        } else {
            self.movement_blocked = self.movement_blocked + 1;
            if self.movement_blocked >= MAX_BLOCKED_TURNS {
                self.movement_blocked = 0;
                self.next_action = Some(
                    ComplexAction::Navigate(
                        ShipBot::random_position_near(&game.game_map, &ship.position, 4, 8, rng),
                    ),
                );
            }
            Direction::Still
        }
    }

    /// A cell between `min_steps / 2` and `max_steps / 2` steps away along
    /// each axis, in a random direction along each.
    fn random_position_near(
        map: &GameMap,
        pos: &Position,
        min_steps: i32,
        max_steps: i32,
        rng: &mut StdRng,
    ) -> (r: Position)
        requires
            map.wf(),
            0 <= min_steps / 2 < max_steps / 2 <= 100,
        ensures
            0 <= r.x < map.width,
            0 <= r.y < map.height,
    {
        let dx = ShipBot::pos_neg_range(min_steps / 2, max_steps / 2, rng);
        let dy = ShipBot::pos_neg_range(min_steps / 2, max_steps / 2, rng);
        let mut r = map.normalize(pos);
        let horizontal = if dx >= 0 {
            Direction::East
        } else {
            Direction::West
        };
        let vertical = if dy >= 0 {
            Direction::South
        } else {
            Direction::North
        };
        let mut i: i32 = 0;
        while i < dx || i < -dx
            invariant
                map.wf(),
                0 <= r.x < map.width,
                0 <= r.y < map.height,
                0 <= i <= 100,
                -100 <= dx <= 100,
            decreases 100 - i,
        {
            r = map.neighbour(&r, horizontal);
            i = i + 1;
        }
        let mut j: i32 = 0;
        while j < dy || j < -dy
            invariant
                map.wf(),
                0 <= r.x < map.width,
                0 <= r.y < map.height,
                0 <= j <= 100,
                -100 <= dy <= 100,
            decreases 100 - j,
        {
            r = map.neighbour(&r, vertical);
            j = j + 1;
        }
        r
    }

    /// A number in `[min, max)` or in `(-max, -min]`.
    fn pos_neg_range(min: i32, max: i32, rng: &mut StdRng) -> (r: i32)
        requires
            0 <= min < max <= 100,
        ensures
            min <= r < max || -max < r <= -min,
    {
        let magnitude = random_in_range(rng, min as usize, max as usize) as i32;
        if random_bool(rng) {
            magnitude
        } else {
            -magnitude
        }
    }
}

} // verus!
