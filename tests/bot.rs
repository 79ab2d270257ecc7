use std::collections::HashSet;

use rand::rngs::StdRng;
use rand::SeedableRng;

use halite_sim::bot::path_finder::{choose_step, PathFinder};
use halite_sim::bot::random_path_generator::RandomPathGenerator;
use halite_sim::bot::simulating_bot::{biased_range, SimulatingBot};
use halite_sim::hlt::command::Command;
use halite_sim::hlt::direction::Direction;
use halite_sim::hlt::game::{Game, Player};
use halite_sim::hlt::game_map::{GameMap, MapCell};
use halite_sim::hlt::position::Position;
use halite_sim::hlt::ship::Ship;
use halite_sim::hlt::{PlayerId, ShipId};
use halite_sim::fixed_pattern_bot::FixedPattern;
use halite_sim::move_random_and_back::{maybe_spawn_ship, process_ship_bots};
use halite_sim::random_and_back::ship_bot::{BotError, ShipBot};
use std::collections::HashMap;
use halite_sim::random_and_back::extended_map::ExtendedMap;
use halite_sim::simulator::memory::Memory;
use halite_sim::simulator::simulator::Simulator;

fn map(width: usize, height: usize, halite: u32) -> GameMap {
    let mut cells = Vec::new();
    for _ in 0..height {
        let mut row = Vec::new();
        for _ in 0..width {
            row.push(MapCell { halite, ship: None, has_structure: false });
        }
        cells.push(row);
    }
    GameMap { width, height, cells }
}

fn game(turn_number: u32, ships: Vec<Ship>, halite: usize) -> Game {
    let ship_ids = ships.iter().map(|s| s.id).collect();
    Game {
        turn_number,
        me: Player {
            player_id: PlayerId(0),
            shipyard: Position { x: 8, y: 8 },
            halite,
            ship_ids,
        },
        ship_cost: 1000,
        game_map: map(32, 32, 80),
        ships,
    }
}

#[test]
fn path_finder_only_two_directions() {
    let mut rng = StdRng::seed_from_u64(1);
    let gen = PathFinder::new(&mut rng);
    let mut set = HashSet::new();

    for _ in 0..20 {
        // Ignores double entries.
        set.insert(gen.random_move(&mut rng));
    }
    assert_eq!(set.len(), 2)
}

#[test]
fn random_path_generator_only_two_directions() {
    let mut rng = StdRng::seed_from_u64(1);
    let gen = RandomPathGenerator::new(&mut rng);
    let mut set = HashSet::new();

    for _ in 0..20 {
        // Ignores double entries.
        set.insert(gen.random_move(&mut rng));
    }
    assert_eq!(set.len(), 2)
}

#[test]
fn choose_step_prefers_in_order() {
    assert_eq!(choose_step(Direction::North, true, Direction::East, true), Direction::North);
    assert_eq!(choose_step(Direction::North, false, Direction::East, true), Direction::East);
    assert_eq!(choose_step(Direction::North, false, Direction::East, false), Direction::Still);
}

#[test]
fn safe_random_move_stays_in_its_quadrant() {
    let s = Ship::new(PlayerId(0), ShipId(1), Position { x: 4, y: 4 }, 0, 1000);
    let g = game(3, vec![s], 0);
    let sim = Simulator::new(&g, Memory::new());
    let mut rng = StdRng::seed_from_u64(2);
    let finder = PathFinder::new(&mut rng);
    for _ in 0..20 {
        let d = finder.safe_random_move(&s, &sim, &mut rng);
        assert_ne!(d, Direction::Still);
    }
}

#[test]
fn navigate_to_dest_heads_for_a_free_cell() {
    let s = Ship::new(PlayerId(0), ShipId(1), Position { x: 4, y: 4 }, 0, 1000);
    let g = game(3, vec![s], 0);
    let sim = Simulator::new(&g, Memory::new());
    let mut rng = StdRng::seed_from_u64(2);
    let finder = PathFinder::new(&mut rng);
    for _ in 0..20 {
        let d = finder.navigate_to_dest(&Position { x: 8, y: 4 }, &s, &sim, &mut rng);
        assert_eq!(d, Direction::East);
    }
}

#[test]
fn bot_plans_and_follows_its_path() {
    let s = Ship::new(PlayerId(0), ShipId(1), Position { x: 8, y: 8 }, 0, 1000);
    let g = game(3, vec![s], 0);
    let mut sim = Simulator::new(&g, Memory::new());
    let mut bot = SimulatingBot::new(s.id);
    let mut rng = StdRng::seed_from_u64(3);
    let first = bot.calculate_command(&mut sim, &mut rng);
    assert!(matches!(first, Command::Move(ShipId(1), _)));
    // The rest of the plan is kept for the next turns.
    let rest = sim.memory_mut().ship_path(&s.id);
    assert!(rest.len() < 200);
    let expected = rest.last().cloned();
    sim.memory_mut().store_path(s.id, rest);
    let second = bot.calculate_command(&mut sim, &mut rng);
    if let Some(d) = expected {
        assert_eq!(second, Command::Move(ShipId(1), d));
    }
}

#[test]
fn empty_ship_collects_first() {
    let s = Ship::new(PlayerId(0), ShipId(1), Position { x: 8, y: 8 }, 0, 1000);
    let g = game(3, vec![s], 0);
    let mut sim = Simulator::new(&g, Memory::new());
    let mut bot = SimulatingBot::new(s.id);
    let mut rng = StdRng::seed_from_u64(3);
    // The cell holds 80 and the ship has no fuel for the 8 a move costs.
    assert_eq!(bot.calculate_command(&mut sim, &mut rng), Command::Move(ShipId(1), Direction::Still));
}

#[test]
fn biased_range_is_fixed_for_now() {
    assert_eq!(biased_range(10, 100), 50);
}

#[test]
fn spawn_when_allowed() {
    let g = game(3, vec![], 1000);
    let mut ex_map = ExtendedMap::new(&g.game_map);
    let mut queue = Vec::new();
    maybe_spawn_ship(&mut ex_map, &g, &mut queue);
    assert_eq!(queue, vec![Command::Spawn]);
    // The shipyard is claimed now.
    maybe_spawn_ship(&mut ex_map, &g, &mut queue);
    assert_eq!(queue, vec![Command::Spawn]);
}

#[test]
fn no_spawn_when_poor_or_late() {
    let poor = game(3, vec![], 999);
    let mut ex_map = ExtendedMap::new(&poor.game_map);
    let mut queue = Vec::new();
    maybe_spawn_ship(&mut ex_map, &poor, &mut queue);
    assert!(queue.is_empty());
    let late = game(131, vec![], 5000);
    let mut ex_map = ExtendedMap::new(&late.game_map);
    maybe_spawn_ship(&mut ex_map, &late, &mut queue);
    assert!(queue.is_empty());
    let mut occupied = game(3, vec![], 5000);
    occupied.game_map.cells[8][8].ship = Some(ShipId(3));
    let mut ex_map = ExtendedMap::new(&occupied.game_map);
    maybe_spawn_ship(&mut ex_map, &occupied, &mut queue);
    assert!(queue.is_empty());
}

#[test]
fn navigate_to_dest_picks_among_useful_steps() {
    let s = Ship::new(PlayerId(0), ShipId(1), Position { x: 4, y: 4 }, 0, 1000);
    let g = game(3, vec![s], 0);
    let sim = Simulator::new(&g, Memory::new());
    let mut rng = StdRng::seed_from_u64(2);
    let finder = PathFinder::new(&mut rng);
    let mut seen = HashSet::new();
    for _ in 0..60 {
        seen.insert(finder.navigate_to_dest(&Position { x: 8, y: 8 }, &s, &sim, &mut rng));
    }
    let expected: HashSet<Direction> = [Direction::East, Direction::South].iter().cloned().collect();
    assert_eq!(seen, expected);
}

#[test]
fn ship_bot_reports_a_lost_ship() {
    let g = game(3, vec![], 0);
    let mut ex_map = ExtendedMap::new(&g.game_map);
    let mut rng = StdRng::seed_from_u64(4);
    let mut bot = ShipBot::new(&ShipId(9));
    assert_eq!(bot.next_turn(&g, &mut ex_map, &mut rng), Err(BotError::ShipGone(ShipId(9))));
}

#[test]
fn ship_bot_sets_out_to_collect() {
    let s = Ship::new(PlayerId(0), ShipId(1), Position { x: 4, y: 4 }, 100, 1000);
    let g = game(3, vec![s], 0);
    let mut ex_map = ExtendedMap::new(&g.game_map);
    let mut rng = StdRng::seed_from_u64(4);
    let mut bot = ShipBot::new(&s.id);
    match bot.next_turn(&g, &mut ex_map, &mut rng) {
        Ok(Command::Move(id, d)) => {
            assert_eq!(id, s.id);
            assert_ne!(d, Direction::Still);
        }
        other => panic!("unexpected {:?}", other),
    }
}

#[test]
fn ship_bot_leaves_a_drop_off_cell_with_halite_to_collect() {
    let s = Ship::new(PlayerId(0), ShipId(1), Position { x: 4, y: 4 }, 100, 1000);
    let mut g = game(3, vec![s], 0);
    g.game_map.cells[4][4].has_structure = true;
    let mut ex_map = ExtendedMap::new(&g.game_map);
    let mut rng = StdRng::seed_from_u64(4);
    let mut bot = ShipBot::new(&s.id);
    // The cell holds 80, more than a fiftieth of the capacity: collect first.
    assert_eq!(bot.next_turn(&g, &mut ex_map, &mut rng), Ok(Command::Move(s.id, Direction::Still)));
}

#[test]
fn ship_bot_fullness_thresholds() {
    let full = Ship::new(PlayerId(0), ShipId(1), Position { x: 0, y: 0 }, 800, 1000);
    let almost = Ship::new(PlayerId(0), ShipId(1), Position { x: 0, y: 0 }, 799, 1000);
    assert!(ShipBot::is_full(&full, 80));
    assert!(!ShipBot::is_full(&almost, 80));
    assert!(!ShipBot::is_full(&full, 95));
}

#[test]
fn every_ship_gets_a_command_or_an_error() {
    let s = Ship::new(PlayerId(0), ShipId(1), Position { x: 4, y: 4 }, 100, 1000);
    let mut g = game(3, vec![s], 0);
    g.me.ship_ids.push(ShipId(2));
    let mut ex_map = ExtendedMap::new(&g.game_map);
    let mut queue = vec![Command::Spawn];
    let mut bots: HashMap<usize, ShipBot> = HashMap::new();
    let errors = process_ship_bots(&mut ex_map, &g, &mut queue, &mut bots, &mut StdRng::seed_from_u64(5));
    assert_eq!(errors, vec![BotError::ShipGone(ShipId(2))]);
    assert_eq!(queue.len(), 2);
    assert_eq!(queue[0], Command::Spawn);
    assert!(matches!(queue[1], Command::Move(ShipId(1), _)));
    assert!(bots.contains_key(&1) && bots.contains_key(&2));
}

#[test]
fn fixed_pattern_spawns_then_loops() {
    let s = Ship::new(PlayerId(0), ShipId(4), Position { x: 0, y: 0 }, 0, 1000);
    let mut bot = FixedPattern::new();
    assert_eq!(bot.turn_commands(Some(&s)), vec![Command::Spawn]);
    assert_eq!(bot.turn_commands(Some(&s)), vec![Command::Move(ShipId(4), Direction::Still)]);
    assert_eq!(bot.turn_commands(Some(&s)), vec![Command::Move(ShipId(4), Direction::East)]);
    for _ in 0..13 {
        bot.turn_commands(Some(&s));
    }
    assert_eq!(bot.turn_commands(Some(&s)), vec![Command::Move(ShipId(4), Direction::North)]);
    // A new round starts.
    assert_eq!(bot.turn_commands(Some(&s)), vec![Command::Move(ShipId(4), Direction::Still)]);
    assert_eq!(bot.turn_commands(None), vec![Command::Move(ShipId(4), Direction::East)]);
}

#[test]
fn fixed_pattern_waits_for_a_ship() {
    let mut bot = FixedPattern::new();
    assert_eq!(bot.turn_commands(None), vec![Command::Spawn]);
    assert_eq!(bot.turn_commands(None), vec![]);
}

#[test]
fn same_seed_same_plan() {
    let s = Ship::new(PlayerId(0), ShipId(1), Position { x: 8, y: 8 }, 300, 1000);
    let g = game(3, vec![s], 0);
    let mut plans = Vec::new();
    for _ in 0..2 {
        let mut sim = Simulator::new(&g, Memory::new());
        let mut rng = StdRng::seed_from_u64(42);
        let mut bot = SimulatingBot::new(s.id);
        let first = bot.calculate_command(&mut sim, &mut rng);
        plans.push((first, sim.memory_mut().ship_path(&s.id)));
    }
    assert_eq!(plans[0], plans[1]);
}
