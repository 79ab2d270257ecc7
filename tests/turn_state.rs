use halite_sim::hlt::direction::Direction;
use halite_sim::hlt::game::{Game, Player};
use halite_sim::hlt::game_map::{GameMap, MapCell};
use halite_sim::hlt::position::Position;
use halite_sim::hlt::ship::Ship;
use halite_sim::hlt::{PlayerId, ShipId};
use halite_sim::simulator::action::Action;
use halite_sim::simulator::memory::Memory;
use halite_sim::simulator::turn_state::{at_normalized, at_normalized_mut, max_collect, TurnState};
use halite_sim::simulator::Halite;

const TEST_HALITE_AMOUNT: u32 = 99;

/// Hands out ships with consecutive ids.
struct SampleShips {
    next_id: usize,
}

impl SampleShips {
    fn new() -> SampleShips {
        SampleShips { next_id: 0 }
    }

    fn sample_ship(&mut self, pos: Position) -> Ship {
        let id = self.next_id;
        self.next_id += 1;
        Ship::new(PlayerId(1), ShipId(id), pos, 0, 1000)
    }
}

fn test_map() -> Vec<Vec<Halite>> {
    let width = 48;
    let height = 48;
    let mut halite_map: Vec<Vec<Halite>> = Vec::with_capacity(height);
    for _ in 0..height {
        let mut halite_row: Vec<Halite> = Vec::with_capacity(width);
        for _ in 0..width {
            halite_row.push(TEST_HALITE_AMOUNT);
        }
        halite_map.push(halite_row);
    }
    halite_map
}

fn test_game_map() -> GameMap {
    let cells = test_map()
        .into_iter()
        .map(|row| row.into_iter().map(|halite| MapCell { halite, ship: None, has_structure: false }).collect())
        .collect();
    GameMap { width: 48, height: 48, cells }
}

fn create_test_data(ships: Vec<Ship>) -> TurnState {
    let game = Game {
        turn_number: 42,
        me: Player {
            player_id: PlayerId(1),
            shipyard: Position { x: 8, y: 8 },
            halite: 5000,
            ship_ids: vec![],
        },
        ship_cost: 1000,
        game_map: test_game_map(),
        ships,
    };
    let memory = Memory::new();
    TurnState::new_current(&game, &memory)
}

#[test]
fn sample_ship_test() {
    let mut ships = SampleShips::new();
    let first = ships.sample_ship(Position { x: 0, y: 0 }).id.0;
    assert_eq!(ships.sample_ship(Position { x: 0, y: 0 }).id.0, first + 1);
    assert_eq!(ships.sample_ship(Position { x: 0, y: 0 }).id.0, first + 2);
    assert_eq!(ships.sample_ship(Position { x: 0, y: 0 }).id.0, first + 3);
}

#[test]
fn did_action_and_get_halite_and_ship() {
    let mut ships = SampleShips::new();
    let ship = ships.sample_ship(Position { x: 3, y: 19 });
    let action = Action::MoveShip(ship.id, Direction::North);
    let ship_still = ships.sample_ship(Position { x: 31, y: 41 });
    let action2 = Action::MoveShip(ship_still.id, Direction::Still);
    let mut turn_state = create_test_data(vec![ship, ship_still]);

    turn_state.did_action(action);
    turn_state.did_action(action2);
    // The empty ship cannot pay the 9 a move off a cell of 99 costs: it stays.
    assert_eq!(turn_state.ship(ship.id).position, Position { x: 3, y: 19 });
    assert_eq!(turn_state.ship(ship_still.id).position, Position { x: 31, y: 41 });
    // Halite was collected
    assert_eq!(
        turn_state.halite_at(&ship_still.position),
        TEST_HALITE_AMOUNT - max_collect(TEST_HALITE_AMOUNT)
    );
    assert_eq!(
        turn_state.halite_at(&ship.position),
        TEST_HALITE_AMOUNT - max_collect(TEST_HALITE_AMOUNT)
    );
}

#[test]
fn multiple_actions() {
    let mut ships = SampleShips::new();
    let ship = ships.sample_ship(Position { x: 50, y: 50 });
    let mut turn_state = create_test_data(vec![ship]);
    // The 48 x 48 grid wraps: the ship stands on cell (2, 2).
    assert_eq!(turn_state.ship(ship.id).position, Position { x: 2, y: 2 });

    // Without fuel the move east turns into collecting 25.
    turn_state.did_action(Action::MoveShip(ship.id, Direction::East));
    assert_eq!(turn_state.ship(ship.id).position, Position { x: 2, y: 2 });
    assert_eq!(turn_state.ship(ship.id).halite, 25);
    assert_eq!(turn_state.halite_at(&Position { x: 51, y: 50 }), TEST_HALITE_AMOUNT);

    // Now the move south costs 74 / 10 = 7.
    turn_state.did_action(Action::MoveShip(ship.id, Direction::South));
    assert_eq!(turn_state.ship(ship.id).position, Position { x: 2, y: 3 });
    assert_eq!(turn_state.ship(ship.id).halite, 18);
    assert_eq!(turn_state.halite_at(&Position { x: 51, y: 50 }), TEST_HALITE_AMOUNT);

    // Stay still and collect
    let pos = Position { x: 2, y: 3 };
    let halite_before = turn_state.halite_at(&pos);
    turn_state.did_action(Action::MoveShip(ship.id, Direction::Still));
    // Stay still
    assert_eq!(turn_state.ship(ship.id).position, pos);
    // Now there is less than before.
    assert!(turn_state.halite_at(&pos) < halite_before);
}

#[test]
fn at_normalized_test() {
    let mut map = test_map();
    let pos = Position { x: 10, y: 15 };

    // set and read
    *at_normalized_mut(&mut map, &pos) = 1111;
    assert_eq!(at_normalized(&map, &pos), 1111);
    assert_eq!(map[pos.y as usize][pos.x as usize], 1111);
}

#[test]
fn max_collect_test() {
    assert_eq!(max_collect(0), 0);
    assert_eq!(max_collect(1), 1);
    assert_eq!(max_collect(99), 25);
    // Collected real data
    assert_eq!(max_collect(174), 174 - 130);
    assert_eq!(max_collect(153), 153 - 114);
    assert_eq!(max_collect(195), 195 - 146);
    assert_eq!(max_collect(316), 316 - 237);
}

#[test]
fn collect_rounds_up_a_quarter() {
    assert_eq!(max_collect(4), 1);
    assert_eq!(max_collect(5), 2);
    assert_eq!(max_collect(8), 2);
    assert_eq!(max_collect(1000), 250);
}

#[test]
fn staying_collects_a_quarter_rounded_up() {
    let ship = Ship::new(PlayerId(0), ShipId(7), Position { x: 5, y: 5 }, 0, 1000);
    let mut turn_state = create_test_data(vec![ship]);
    turn_state.did_action(Action::MoveShip(ship.id, Direction::Still));
    assert_eq!(turn_state.halite_at(&Position { x: 5, y: 5 }), 74);
    assert_eq!(turn_state.ship(ship.id).halite, 25);
    assert_eq!(turn_state.ship(ship.id).position, Position { x: 5, y: 5 });
}

#[test]
fn move_without_fuel_collects_instead() {
    let ship = Ship::new(PlayerId(0), ShipId(3), Position { x: 20, y: 20 }, 5, 1000);
    let mut turn_state = create_test_data(vec![ship]);
    turn_state.did_action(Action::MoveShip(ship.id, Direction::West));
    assert_eq!(turn_state.ship(ship.id).position, Position { x: 20, y: 20 });
    assert_eq!(turn_state.ship(ship.id).halite, 5 + 25);
    assert_eq!(turn_state.halite_at(&Position { x: 20, y: 20 }), 74);
}

#[test]
fn paid_move_costs_a_tenth_rounded_down() {
    let ship = Ship::new(PlayerId(0), ShipId(3), Position { x: 20, y: 20 }, 100, 1000);
    let mut turn_state = create_test_data(vec![ship]);
    turn_state.did_action(Action::MoveShip(ship.id, Direction::West));
    assert_eq!(turn_state.ship(ship.id).position, Position { x: 19, y: 20 });
    assert_eq!(turn_state.ship(ship.id).halite, 91);
    assert_eq!(turn_state.halite_at(&Position { x: 20, y: 20 }), 99);
    assert_eq!(turn_state.ship_at(Position { x: 19, y: 20 }), Some(ShipId(3)));
    assert_eq!(turn_state.ship_at(Position { x: 20, y: 20 }), None);
}

#[test]
fn collecting_stops_at_capacity() {
    let ship = Ship::new(PlayerId(0), ShipId(4), Position { x: 1, y: 1 }, 990, 1000);
    let mut turn_state = create_test_data(vec![ship]);
    turn_state.did_action(Action::MoveShip(ship.id, Direction::Still));
    assert_eq!(turn_state.ship(ship.id).halite, 1000);
    assert_eq!(turn_state.halite_at(&Position { x: 1, y: 1 }), 89);
    assert!(turn_state.ship(ship.id).is_full());
}

#[test]
fn move_at_the_edge_of_i32_wraps() {
    let start = Position { x: i32::MAX, y: 0 };
    let ship = Ship::new(PlayerId(0), ShipId(9), start, 100, 1000);
    let mut turn_state = create_test_data(vec![ship]);
    turn_state.did_action(Action::MoveShip(ship.id, Direction::East));
    // i32::MAX is 31 modulo 48; the ship lands on column 32.
    assert_eq!(turn_state.ship(ship.id).position, Position { x: 32, y: 0 });
}

#[test]
fn cells_a_width_or_height_apart_are_the_same() {
    let ship = Ship::new(PlayerId(0), ShipId(2), Position { x: 10, y: 15 }, 0, 1000);
    let mut turn_state = create_test_data(vec![ship]);
    turn_state.did_action(Action::MoveShip(ship.id, Direction::Still));
    let here = turn_state.halite_at(&Position { x: 10, y: 15 });
    assert_eq!(here, 74);
    assert_eq!(turn_state.halite_at(&Position { x: 58, y: 15 }), here);
    assert_eq!(turn_state.halite_at(&Position { x: 10, y: 63 }), here);
    assert_eq!(turn_state.halite_at(&Position { x: -38, y: -33 }), here);
}

#[test]
fn speculative_layer_shadows_committed_one() {
    let ship = Ship::new(PlayerId(0), ShipId(2), Position { x: 4, y: 4 }, 0, 1000);
    let mut turn_state = create_test_data(vec![ship]);
    turn_state.did_action(Action::MoveShip(ship.id, Direction::Still));
    turn_state.apply();
    assert_eq!(turn_state.halite_at(&Position { x: 4, y: 4 }), 74);
    turn_state.did_action(Action::MoveShip(ship.id, Direction::Still));
    assert_eq!(turn_state.halite_at(&Position { x: 4, y: 4 }), 55);
    assert_eq!(turn_state.ship(ship.id).halite, 44);
    turn_state.rollback();
    assert_eq!(turn_state.halite_at(&Position { x: 4, y: 4 }), 74);
    assert_eq!(turn_state.ship(ship.id).halite, 25);
}

#[test]
fn next_turn_shares_the_real_game() {
    let ship = Ship::new(PlayerId(0), ShipId(2), Position { x: 4, y: 4 }, 0, 1000);
    let mut turn_state = create_test_data(vec![ship]);
    turn_state.did_action(Action::MoveShip(ship.id, Direction::Still));
    let memory = Memory::new();
    let mut next = TurnState::new_next(&turn_state, &memory);
    assert_eq!(next.halite_at(&Position { x: 4, y: 4 }), 99);
    next.clone_overwrites_from(&turn_state);
    assert_eq!(next.halite_at(&Position { x: 4, y: 4 }), 74);
    assert_eq!(next.ship_at(Position { x: 4, y: 4 }), Some(ShipId(2)));
}

#[test]
fn saved_turn_is_loaded_again() {
    let ship = Ship::new(PlayerId(0), ShipId(2), Position { x: 4, y: 4 }, 0, 1000);
    let mut turn_state = create_test_data(vec![ship]);
    turn_state.did_action(Action::MoveShip(ship.id, Direction::Still));
    turn_state.apply();
    let mut memory = Memory::new();
    turn_state.save(&mut memory);
    let game = Game {
        turn_number: 42,
        me: Player {
            player_id: PlayerId(1),
            shipyard: Position { x: 8, y: 8 },
            halite: 5000,
            ship_ids: vec![],
        },
        ship_cost: 1000,
        game_map: test_game_map(),
        ships: vec![ship],
    };
    let again = TurnState::new_current(&game, &memory);
    assert_eq!(again.halite_at(&Position { x: 4, y: 4 }), 74);
    assert_eq!(again.ship(ship.id).halite, 25);
}

#[test]
fn move_across_the_edge_lands_on_the_wrapped_cell() {
    let ship = Ship::new(PlayerId(0), ShipId(8), Position { x: 47, y: 0 }, 100, 1000);
    let mut turn_state = create_test_data(vec![ship]);
    turn_state.did_action(Action::MoveShip(ship.id, Direction::East));
    assert_eq!(turn_state.ship(ship.id).position, Position { x: 0, y: 0 });
    assert_eq!(turn_state.ship_at(Position { x: 0, y: 0 }), Some(ShipId(8)));
    assert_eq!(turn_state.ship_at(Position { x: 48, y: 0 }), Some(ShipId(8)));
    assert_eq!(turn_state.ship_at(Position { x: 47, y: 0 }), None);
    turn_state.did_action(Action::MoveShip(ship.id, Direction::North));
    assert_eq!(turn_state.ship(ship.id).position, Position { x: 0, y: 47 });
    assert_eq!(turn_state.ship_at(Position { x: 0, y: -1 }), Some(ShipId(8)));
}

#[test]
fn ships_reported_off_the_grid_stand_on_their_cell() {
    let ship = Ship::new(PlayerId(0), ShipId(8), Position { x: -1, y: 49 }, 0, 1000);
    let turn_state = create_test_data(vec![ship]);
    assert_eq!(turn_state.ship(ship.id).position, Position { x: 47, y: 1 });
    assert_eq!(turn_state.ship_at(Position { x: -1, y: 49 }), Some(ShipId(8)));
    assert_eq!(turn_state.ship_at(Position { x: 47, y: 1 }), Some(ShipId(8)));
}
