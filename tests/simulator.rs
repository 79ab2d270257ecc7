use halite_sim::bot::collision_avoidance::CollisionAvoidance;
use halite_sim::extended_map::ExtendedMap;
use halite_sim::hlt::command::Command;
use halite_sim::hlt::direction::Direction;
use halite_sim::hlt::game::{Game, Player};
use halite_sim::hlt::game_map::{GameMap, MapCell};
use halite_sim::hlt::position::Position;
use halite_sim::hlt::ship::Ship;
use halite_sim::hlt::{PlayerId, ShipId};
use halite_sim::random_and_back::extended_map::ExtendedMap as SafeMap;
use halite_sim::simulator::action::Action;
use halite_sim::simulator::memory::Memory;
use halite_sim::simulator::simulator::Simulator;

fn map(width: usize, height: usize, halite: u32) -> GameMap {
    let mut cells = Vec::new();
    for _ in 0..height {
        let mut row = Vec::new();
        for _ in 0..width {
            row.push(MapCell { halite, ship: None, has_structure: false });
        }
        cells.push(row);
    }
    GameMap { width, height, cells }
}

fn game(ships: Vec<Ship>) -> Game {
    game_of_size(48, ships)
}

fn game_of_size(size: usize, ships: Vec<Ship>) -> Game {
    Game {
        turn_number: 10,
        me: Player {
            player_id: PlayerId(0),
            shipyard: Position { x: 8, y: 8 },
            halite: 5000,
            ship_ids: vec![],
        },
        ship_cost: 1000,
        game_map: map(size, size, 99),
        ships,
    }
}

fn ship(id: usize, x: i32, y: i32, halite: usize) -> Ship {
    Ship::new(PlayerId(0), ShipId(id), Position { x, y }, halite, 1000)
}

#[test]
fn two_moves_east() {
    let s = ship(1, 50, 50, 100);
    let g = game_of_size(64, vec![s]);
    let mut sim = Simulator::new(&g, Memory::new());
    sim.do_and_switch_to_next_turn(Action::MoveShip(s.id, Direction::East));
    assert_eq!(sim.id_to_ship(s.id).position, Position { x: 51, y: 50 });
    sim.do_and_switch_to_next_turn(Action::MoveShip(s.id, Direction::East));
    assert_eq!(sim.id_to_ship(s.id).position, Position { x: 52, y: 50 });
    assert_eq!(sim.halite_at(&Position { x: 51, y: 50 }), 99);
    assert_eq!(sim.id_to_ship(s.id).halite, 100 - 9 - 9);
    sim.apply();
    sim.do_and_switch_to_next_turn(Action::Nothing);
    assert_eq!(sim.id_to_ship(s.id).position, Position { x: 51, y: 50 });
    assert_eq!(sim.halite_at(&Position { x: 51, y: 50 }), 99);
}

#[test]
fn rollback_restores_every_query() {
    let s = ship(1, 5, 5, 0);
    let other = ship(2, 6, 5, 0);
    let g = game(vec![s, other]);
    let mut sim = Simulator::new(&g, Memory::new());
    assert!(!sim.is_safe(Position { x: 6, y: 5 }));
    assert!(sim.is_safe(Position { x: 5, y: 6 }));
    sim.do_and_switch_to_next_turn(Action::MoveShip(s.id, Direction::Still));
    sim.do_and_switch_to_next_turn(Action::MoveShip(s.id, Direction::South));
    assert_eq!(sim.id_to_ship(s.id).position, Position { x: 5, y: 6 });
    sim.rollback();
    assert_eq!(sim.id_to_ship(s.id).position, Position { x: 5, y: 5 });
    assert_eq!(sim.id_to_ship(s.id).halite, 0);
    assert_eq!(sim.halite_at(&Position { x: 5, y: 5 }), 99);
    assert!(!sim.is_safe(Position { x: 6, y: 5 }));
    assert!(sim.is_safe(Position { x: 5, y: 6 }));
    assert!(!sim.is_safe(Position { x: 5, y: 5 }));
}

#[test]
fn later_ships_see_a_committed_move() {
    let s = ship(1, 5, 5, 50);
    let g = game(vec![s]);
    let mut sim = Simulator::new(&g, Memory::new());
    sim.do_and_switch_to_next_turn(Action::MoveShip(s.id, Direction::North));
    sim.apply();
    // Planning the next ship starts again at the present turn; in the turn
    // after it the committed ship stands north of its start.
    assert!(!sim.is_safe(Position { x: 5, y: 4 }));
    assert!(sim.is_safe(Position { x: 5, y: 5 }));
}

#[test]
fn committed_and_saved_is_seen_by_the_next_simulator() {
    let s = ship(1, 5, 5, 0);
    let g = game(vec![s]);
    let mut sim = Simulator::new(&g, Memory::new());
    sim.do_and_switch_to_next_turn(Action::MoveShip(s.id, Direction::Still));
    sim.apply();
    sim.safe();
    let memory = sim.memory;
    let mut fresh = Simulator::new(&g, memory);
    assert_eq!(fresh.id_to_ship(s.id).halite, 0);
    fresh.do_and_switch_to_next_turn(Action::Nothing);
    assert_eq!(fresh.id_to_ship(s.id).halite, 25);
    assert_eq!(fresh.halite_at(&Position { x: 5, y: 5 }), 74);
}

#[test]
fn rolled_back_steps_are_not_saved() {
    let s = ship(1, 5, 5, 0);
    let g = game(vec![s]);
    let mut sim = Simulator::new(&g, Memory::new());
    sim.do_and_switch_to_next_turn(Action::MoveShip(s.id, Direction::Still));
    sim.rollback();
    sim.safe();
    let memory = sim.memory;
    let mut fresh = Simulator::new(&g, memory);
    fresh.do_and_switch_to_next_turn(Action::Nothing);
    assert_eq!(fresh.id_to_ship(s.id).halite, 0);
    assert_eq!(fresh.halite_at(&Position { x: 5, y: 5 }), 99);
}

#[test]
fn useful_directions_take_the_short_way_round() {
    let g = game(vec![]);
    let sim = Simulator::new(&g, Memory::new());
    assert_eq!(
        sim.useful_directions(&Position { x: 1, y: 1 }, &Position { x: 46, y: 3 }),
        vec![Direction::West, Direction::South]
    );
    assert_eq!(
        sim.useful_directions(&Position { x: 1, y: 40 }, &Position { x: 5, y: 2 }),
        vec![Direction::East, Direction::South]
    );
    assert_eq!(sim.useful_directions(&Position { x: 3, y: 3 }, &Position { x: 51, y: 3 }), vec![]);
    assert_eq!(sim.dropoff_near(ShipId(0)), Position { x: 8, y: 8 });
}

#[test]
fn try_reserve_once_per_turn() {
    let m = map(8, 8, 0);
    let mut table = ExtendedMap::from_game_map(&m);
    let p = Position { x: 3, y: 4 };
    assert!(table.try_reserve_cell(&p));
    assert!(!table.try_reserve_cell(&p));
    assert!(table.try_reserve_cell(&Position { x: 4, y: 3 }));
    table.clear_reserved_cells();
    assert!(table.try_reserve_cell(&p));
    // Positions naming the same cell share one claim.
    assert!(!table.try_reserve_cell(&Position { x: 11, y: -4 }));
    assert_eq!((table.width, table.height), (8, 8));
}

#[test]
fn occupied_cells_cannot_be_reserved() {
    let mut m = map(8, 8, 0);
    m.cells[2][1].ship = Some(ShipId(4));
    let mut avoider = CollisionAvoidance::new(&m);
    assert!(!avoider.can_move_safely_then_reserve(&Position { x: 1, y: 2 }));
    assert!(!avoider.can_move_safely_then_reserve(&Position { x: 9, y: 10 }));
    assert!(avoider.can_move_safely_then_reserve(&Position { x: 2, y: 2 }));
    assert!(!avoider.can_move_safely_then_reserve(&Position { x: 2, y: 2 }));
    assert!(!avoider.can_move_safely_then_reserve(&Position { x: 10, y: -6 }));
    let mut safe_map = SafeMap::new(&m);
    assert!(!safe_map.can_move_safely_then_reserve(&Position { x: 1, y: 2 }));
    assert!(safe_map.can_move_safely_then_reserve(&Position { x: 0, y: 0 }));
    assert!(!safe_map.can_move_safely_then_reserve(&Position { x: 0, y: 0 }));
}

#[test]
fn ship_commands() {
    let s = ship(6, 0, 0, 1000);
    assert!(s.is_full());
    assert_eq!(s.max_halite(), 1000);
    assert_eq!(s.make_dropoff(), Command::ConstructDropoff(ShipId(6)));
    assert_eq!(s.move_ship(Direction::West), Command::Move(ShipId(6), Direction::West));
    assert_eq!(s.stay_still(), Command::Move(ShipId(6), Direction::Still));
    let g = Ship::generate(PlayerId(2), 1000, 11, 3, 4, 17);
    assert_eq!(g.id, ShipId(11));
    assert_eq!(g.position, Position { x: 3, y: 4 });
    assert_eq!(g.halite, 17);
    assert!(!g.is_full());
}

#[test]
fn map_lookups_wrap() {
    let mut m = map(5, 4, 0);
    m.cells[1][2].halite = 7;
    assert_eq!(m.at_position(&Position { x: 7, y: -3 }).halite, 7);
    assert_eq!(m.normalize(&Position { x: -1, y: 9 }), Position { x: 4, y: 1 });
    let grid = m.get_halite_map();
    assert_eq!(grid[1][2], 7);
    assert_eq!(grid[0][0], 0);
    assert_eq!(Direction::North.get_char_encoding(), 'n');

}

#[test]
fn committed_move_across_the_edge_is_not_safe_to_enter() {
    let s = ship(1, 47, 0, 100);
    let g = game(vec![s]);
    let mut sim = Simulator::new(&g, Memory::new());
    sim.do_and_switch_to_next_turn(Action::MoveShip(s.id, Direction::East));
    assert_eq!(sim.id_to_ship(s.id).position, Position { x: 0, y: 0 });
    sim.apply();
    assert!(!sim.is_safe(Position { x: 0, y: 0 }));
    assert!(!sim.is_safe(Position { x: 48, y: 0 }));
    assert!(sim.is_safe(Position { x: 47, y: 0 }));
}

#[test]
fn saving_twice_keeps_what_memory_holds() {
    let s = ship(1, 5, 5, 0);
    let g = game(vec![s]);
    let mut sim = Simulator::new(&g, Memory::new());
    sim.do_and_switch_to_next_turn(Action::MoveShip(s.id, Direction::Still));
    sim.apply();
    sim.safe();
    let memory = sim.memory;
    // A second planning pass reads the same turns and saves again.
    let mut second = Simulator::new(&g, memory);
    second.safe();
    let memory = second.memory;
    let mut third = Simulator::new(&g, memory);
    third.do_and_switch_to_next_turn(Action::Nothing);
    assert_eq!(third.id_to_ship(s.id).halite, 25);
    assert_eq!(third.halite_at(&Position { x: 5, y: 5 }), 74);
}
