//! Spawning decisions of the random-walk bot.
use vstd::prelude::*;
use crate::hlt::command::Command;
use crate::hlt::game::Game;
use crate::hlt::position::Position;
use crate::hlt::ShipId;
use crate::random_and_back::extended_map::ExtendedMap;
use crate::random_and_back::ship_bot::{BotError, ShipBot};
use rand::rngs::StdRng;
use std::collections::HashMap;

verus! {

/// No ship is built after this turn.
pub const SPAWN_UNTIL_TURN: u32 = 130;

/// No ship is built while this player has this many.
pub const MAX_SHIP_COUNT: usize = 15;

/// Whether a ship is built this turn, the shipyard's cell being `cell`.
pub open spec fn spawns(game: Game, map: ExtendedMap, cell: Position) -> bool {
    &&& game.me.ship_ids@.len() < MAX_SHIP_COUNT
    &&& game.turn_number <= SPAWN_UNTIL_TURN
    &&& game.me.halite >= game.ship_cost
    &&& map.map().cell_at(cell).ship is None
    &&& !map.reserved().contains(map.map().normalized(cell))
}

/// Builds a ship while there are few, the game is young, the player can pay,
/// and the shipyard is free; the shipyard is then claimed for the new ship.
pub fn maybe_spawn_ship(
    extended_map: &mut ExtendedMap,
    game: &Game,
    command_queue: &mut Vec<Command>,
)
    requires
        game.wf(),
        old(extended_map).map().wf(),
    ensures
        ({
            let cell = game.game_map.normalized(game.me.shipyard);
            let spawn = spawns(*game, *old(extended_map), cell);
            &&& final(command_queue)@ == if spawn {
                old(command_queue)@.push(Command::Spawn)
            } else {
                old(command_queue)@
            }
            &&& final(extended_map).reserved() == if spawn {
                old(extended_map).reserved().insert(old(extended_map).map().normalized(cell))
            } else {
                old(extended_map).reserved()
            }
            &&& final(extended_map).map() == old(extended_map).map()
        }),
{
    let me = game.me();
    let shipyard_cell = game.game_map.normalize(&me.shipyard);
    if me.ship_ids.len() < MAX_SHIP_COUNT && game.turn_number <= SPAWN_UNTIL_TURN && me.halite
        >= game.ship_cost && extended_map.can_move_safely_then_reserve(&shipyard_cell) {
        command_queue.push(Command::spawn_ship());
    }
}

/// Every bot in the list is well formed and stored under its ship's id.
pub open spec fn bots_wf(bots: Map<usize, ShipBot>) -> bool {
    forall|k: usize| #[trigger] bots.contains_key(k) ==> bots[k].wf() && bots[k].id().0 == k
}

/// Runs the bot of each of this player's ships, making one for a ship that
/// has none. Each ship adds its command to the queue, or its error to the
/// list returned.
pub fn process_ship_bots(
    extended_map: &mut ExtendedMap,
    game: &Game,
    command_queue: &mut Vec<Command>,
    bot_list: &mut HashMap<usize, ShipBot>,
    rng: &mut StdRng,
) -> (r: Vec<BotError>)
    requires
        game.wf(),
        old(extended_map).map().wf(),
        bots_wf(old(bot_list)@),
    ensures
        bots_wf(final(bot_list)@),
        final(extended_map).map() == old(extended_map).map(),
        final(command_queue)@.len() + r@.len() == old(command_queue)@.len()
            + game.me.ship_ids@.len(),
        forall|j: int|
            0 <= j < old(command_queue)@.len() ==> #[trigger] final(command_queue)@[j] == old(
                command_queue,
            )@[j],
        forall|id: ShipId|
            #[trigger] game.me.ship_ids@.contains(id) ==> final(bot_list)@.contains_key(id.0),
{
    let mut errors: Vec<BotError> = Vec::new();
    let mut i: usize = 0;
    while i < game.me.ship_ids.len()
        invariant
            game.wf(),
            extended_map.map() == old(extended_map).map(),
            old(extended_map).map().wf(),
            bots_wf(bot_list@),
            i <= game.me.ship_ids@.len(),
            command_queue@.len() + errors@.len() == old(command_queue)@.len() + i,
            command_queue@.len() >= old(command_queue)@.len(),
            forall|j: int|
                0 <= j < old(command_queue)@.len() ==> #[trigger] command_queue@[j] == old(
                    command_queue,
                )@[j],
            forall|j: int| 0 <= j < i ==> bot_list@.contains_key((#[trigger] game.me.ship_ids@[j]).0),
        decreases game.me.ship_ids@.len() - i,
    {
        let ship_id = game.me.ship_ids[i];
        let ghost before = bot_list@;
        // A ship without a bot gets a new one.
        let mut bot = match bot_list.remove(&ship_id.0) {
            Some(b) => {
                proof {
                    assert(before.contains_key(ship_id.0));
                }
                b
            },
            None => ShipBot::new(&ship_id),
        };
        match bot.next_turn(game, extended_map, rng) {
            Ok(command) => command_queue.push(command),
            Err(message) => errors.push(message),
        }
        bot_list.insert(ship_id.0, bot);
        proof {
            assert forall|k: usize| #[trigger] bot_list@.contains_key(k) implies bot_list@[k].wf()
                && bot_list@[k].id().0 == k by {}
        }
        i = i + 1;
    }
    proof {
        assert forall|id: ShipId| #[trigger] game.me.ship_ids@.contains(id) implies bot_list@.contains_key(
            id.0,
        ) by {
            let j = choose|j: int| 0 <= j < game.me.ship_ids@.len() && game.me.ship_ids@[j] == id;
        }
    }
    errors
}

} // verus!
