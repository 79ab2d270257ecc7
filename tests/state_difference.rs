use halite_sim::hlt::direction::Direction;
use halite_sim::hlt::position::Position;
use halite_sim::hlt::ship::Ship;
use halite_sim::hlt::{PlayerId, ShipId};
use halite_sim::simulator::memory::Memory;
use halite_sim::simulator::state_difference::StateDifference;

fn sample_ship(id: usize, pos: Position) -> Ship {
    Ship::new(PlayerId(1), ShipId(id), pos, 0, 1000)
}

#[test]
fn ships_set_get() {
    let mut diff = StateDifference::new();
    let pos_1 = Position { x: 4, y: 8 };
    let ship = sample_ship(0, pos_1);
    diff.set_ship(ship.clone(), None);
    assert_eq!(diff.ship(ship.id), Some(&ship));
    assert_eq!(diff.ship_at(pos_1), Some(ship.id));
}

#[test]
fn set_ship_moves_the_index_entry() {
    let mut diff = StateDifference::new();
    let a = Position { x: 1, y: 1 };
    let b = Position { x: 2, y: 1 };
    let ship = sample_ship(5, a);
    diff.set_ship(ship, None);
    let moved = Ship { position: b, ..ship };
    diff.set_ship(moved, Some(&ship));
    assert_eq!(diff.ship_at(a), None);
    assert_eq!(diff.ship_at(b), Some(ShipId(5)));
    assert_eq!(diff.ship(ShipId(5)).map(|s| s.position), Some(b));
}

#[test]
fn halite_set_get_and_clear() {
    let mut diff = StateDifference::new();
    let p = Position { x: -3, y: 7 };
    assert_eq!(diff.halite(&p), None);
    diff.set_halite(p, 12);
    assert_eq!(diff.halite(&p), Some(12));
    assert_eq!(diff.halite(&Position { x: 7, y: -3 }), None);
    diff.clear();
    assert_eq!(diff.halite(&p), None);
}

#[test]
fn extend_prefers_the_other_diff() {
    let mut lower = StateDifference::new();
    let mut upper = StateDifference::new();
    let a = Position { x: 1, y: 1 };
    let b = Position { x: 9, y: 9 };
    lower.set_halite(a, 10);
    lower.set_halite(b, 20);
    upper.set_halite(a, 30);
    let ship = sample_ship(1, a);
    lower.set_ship(ship, None);
    upper.set_ship(Ship { position: b, ..ship }, None);
    lower.extend(upper);
    assert_eq!(lower.halite(&a), Some(30));
    assert_eq!(lower.halite(&b), Some(20));
    assert_eq!(lower.ship(ShipId(1)).map(|s| s.position), Some(b));
    assert_eq!(lower.ship_at(b), Some(ShipId(1)));
    // The ship left `a`, so its old index entry is gone.
    assert_eq!(lower.ship_at(a), None);
}

#[test]
fn memory_keeps_a_loaded_diff() {
    let mut memory = Memory::new();
    let mut diff = StateDifference::new();
    diff.set_halite(Position { x: 0, y: 0 }, 5);
    memory.safe_diff(7, diff);
    let loaded = memory.load_diff(7);
    assert_eq!(loaded.halite(&Position { x: 0, y: 0 }), Some(5));
    let again = memory.load_diff(7);
    assert_eq!(again.halite(&Position { x: 0, y: 0 }), Some(5));
    assert_eq!(memory.load_diff(8).halite(&Position { x: 0, y: 0 }), None);
}

#[test]
fn memory_keeps_paths_per_ship() {
    let mut memory = Memory::new();
    memory.store_path(ShipId(2), vec![Direction::North, Direction::Still]);
    assert_eq!(memory.ship_path(&ShipId(3)), Vec::<Direction>::new());
    assert_eq!(memory.ship_path(&ShipId(2)), vec![Direction::North, Direction::Still]);
    assert_eq!(memory.ship_path(&ShipId(2)), Vec::<Direction>::new());
}
