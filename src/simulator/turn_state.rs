use vstd::prelude::*;
use std::collections::HashMap;
use std::rc::Rc;
use crate::hlt::direction::{dx, dy, Direction};
use crate::hlt::game::Game;
use crate::hlt::game_map::{GameMap, MapCell};
use crate::hlt::position::{
    key_of, pos_key, step_x, step_y, wrap, wrap_coordinate, Position,
};
use crate::hlt::ship::Ship;
use crate::hlt::ShipId;
use crate::maps::{keys_of, lemma_pos_map_empty, lemma_pos_map_insert, pos_map};
use crate::simulator::action::Action;
use crate::simulator::memory::{Memory, MemoryView};
use crate::simulator::state_difference::{opt_ship, DiffView, StateDifference};
use crate::simulator::Halite;

verus! {

broadcast use vstd::std_specs::hash::group_hash_axioms;

/// What a ship takes from a cell holding `h` when it stays there: a quarter,
/// rounded up.
pub open spec fn collect(h: int) -> int {
    (h + 3) / 4
}

/// Room left in the ship's hold.
pub open spec fn room(s: Ship) -> int {
    if s.halite < s.max_halite {
        s.max_halite - s.halite
    } else {
        0
    }
}

/// What a ship staying on a cell holding `h` really takes: no more than it has
/// room for. What does not fit stays in the cell, and a ship never ends up
/// over its capacity by collecting.
pub open spec fn taken(h: int, s: Ship) -> int {
    if collect(h) <= room(s) {
        collect(h)
    } else {
        room(s)
    }
}

/// Fuel that a move off a cell holding `h` costs: a tenth, rounded down.
pub open spec fn move_cost(h: int) -> int {
    h / 10
}

/// The ship standing on the cell of `map` that its position denotes.
pub open spec fn on_grid(s: Ship, map: GameMap) -> Ship {
    Ship { position: map.normalized(s.position), ..s }
}

/// The ships of a list by id, placed on the grid; a later ship replaces an
/// earlier one of the same id.
pub open spec fn ships_by_id(s: Seq<Ship>, map: GameMap) -> Map<usize, Ship>
    decreases s.len(),
{
    if s.len() == 0 {
        Map::empty()
    } else {
        ships_by_id(s.drop_last(), map).insert(s.last().id.0, on_grid(s.last(), map))
    }
}

/// The ids of a list of ships by the cell they stand on; a later ship
/// replaces an earlier one.
pub open spec fn ships_by_position(s: Seq<Ship>, map: GameMap) -> Map<Position, usize>
    decreases s.len(),
{
    if s.len() == 0 {
        Map::empty()
    } else {
        ships_by_position(s.drop_last(), map).insert(
            map.normalized(s.last().position),
            s.last().id.0,
        )
    }
}

/// The resource grid that the engine reported, indexed `[y][x]`.
pub open spec fn grid_of(map: GameMap) -> Seq<Seq<Halite>> {
    map.cells@.map_values(|row: Vec<MapCell>| row@.map_values(|c: MapCell| c.halite))
}

/// The turn state of the real game, with the diff that memory holds for its turn.
pub open spec fn current_turn_of(game: Game, memory: MemoryView) -> TurnView {
    TurnView {
        turn_number: game.turn_number,
        grid: grid_of(game.game_map),
        base_ships: ships_by_id(game.ships@, game.game_map),
        base_pos: ships_by_position(game.ships@, game.game_map),
        saved: memory.diff_for(game.turn_number),
        applied: DiffView::empty(),
        undoable: DiffView::empty(),
    }
}

/// The turn after `previous`, sharing its real game, with the diff that memory
/// holds for the next turn number.
pub open spec fn next_turn_of(previous: TurnView, memory: MemoryView) -> TurnView {
    TurnView {
        turn_number: (previous.turn_number + 1) as u32,
        saved: memory.diff_for((previous.turn_number + 1) as u32),
        applied: DiffView::empty(),
        undoable: DiffView::empty(),
        ..previous
    }
}

/// The layers of a turn state, from the real game up to the speculative diff.
pub struct TurnView {
    pub turn_number: u32,
    /// Resource per cell, indexed `[y][x]`.
    pub grid: Seq<Seq<Halite>>,
    pub base_ships: Map<usize, Ship>,
    pub base_pos: Map<Position, usize>,
    /// Lowest priority: loaded from memory.
    pub saved: DiffView,
    /// Committed earlier in this real turn.
    pub applied: DiffView,
    /// Highest priority: speculative, undone by a rollback.
    pub undoable: DiffView,
}

impl TurnView {
    pub open spec fn height(self) -> int {
        self.grid.len() as int
    }

    pub open spec fn width(self) -> int {
        self.grid[0].len() as int
    }

    /// A non-empty rectangular grid whose sides fit in `i32`, and consistent diffs.
    pub open spec fn wf(self) -> bool {
        &&& 1 <= self.height() <= i32::MAX
        &&& 1 <= self.width() <= i32::MAX
        &&& forall|y: int| 0 <= y < self.height() ==> #[trigger] self.grid[y].len() == self.width()
        &&& forall|id: usize| #[trigger] self.base_ships.contains_key(id) ==> self.base_ships[id].id.0 == id
        &&& self.saved.wf()
        &&& self.applied.wf()
        &&& self.undoable.wf()
    }

    /// The position, with coordinates in range, of the cell that `p` denotes.
    pub open spec fn cell(self, p: Position) -> Position {
        Position {
            x: wrap(p.x as int, self.width()) as i32,
            y: wrap(p.y as int, self.height()) as i32,
        }
    }

    /// The resource on the cell that `p` denotes: the most specific layer that
    /// sets the cell decides, and the real grid when none does.
    pub open spec fn halite_at(self, p: Position) -> Halite {
        let c = self.cell(p);
        if self.undoable.halite.contains_key(c) {
            self.undoable.halite[c]
        } else if self.applied.halite.contains_key(c) {
            self.applied.halite[c]
        } else if self.saved.halite.contains_key(c) {
            self.saved.halite[c]
        } else {
            self.grid[c.y as int][c.x as int]
        }
    }

    /// The ship with the id, from the most specific layer that holds it.
    pub open spec fn ship(self, id: usize) -> Option<Ship> {
        if self.undoable.ships.contains_key(id) {
            Some(self.undoable.ships[id])
        } else if self.applied.ships.contains_key(id) {
            Some(self.applied.ships[id])
        } else if self.saved.ships.contains_key(id) {
            Some(self.saved.ships[id])
        } else if self.base_ships.contains_key(id) {
            Some(self.base_ships[id])
        } else {
            None
        }
    }

    /// Whether the ship with the id stands on the cell `c` in this turn.
    pub open spec fn resolves(self, id: usize, c: Position) -> bool {
        self.ship(id) matches Some(s) && self.cell(s.position) == c
    }

    /// Whether some ship stands on the cell that `p` denotes.
    pub open spec fn occupied(self, p: Position) -> bool {
        exists|id: usize| #[trigger] self.resolves(id, self.cell(p))
    }

    /// The cell a step from the cell of `p` in `d` lands on, wrapped round the torus.
    pub open spec fn moved_position(self, p: Position, d: Direction) -> Position {
        let c = self.cell(p);
        self.cell(Position { x: step_x(c, d) as i32, y: step_y(c, d) as i32 })
    }

    /// The turn after ship `id` tried to go in direction `d`.
    /// A move costs a tenth of the cell it leaves; without the fuel for it,
    /// or with `d` still, the ship stays and collects from its cell instead.
    pub open spec fn after_move(self, id: usize, d: Direction) -> TurnView {
        let s = self.ship(id).unwrap();
        let here = self.halite_at(s.position) as int;
        if d != Direction::Still && move_cost(here) <= s.halite {
            let moved = Ship {
                position: self.moved_position(s.position, d),
                halite: (s.halite - move_cost(here)) as usize,
                ..s
            };
            TurnView { undoable: self.undoable.set_ship(moved, Some(s)), ..self }
        } else {
            let t = taken(here, s);
            let stayed = Ship { halite: (s.halite + t) as usize, ..s };
            TurnView {
                undoable: self.undoable.set_halite(self.cell(s.position), (here - t) as Halite).set_ship(
                    stayed,
                    Some(s),
                ),
                ..self
            }
        }
    }

    /// The turn after the action.
    pub open spec fn after_action(self, action: Action) -> TurnView {
        match action {
            Action::MoveShip(id, d) => self.after_move(id.0, d),
            Action::Nothing => self,
        }
    }

    /// Whether the action names a ship that the turn knows.
    pub open spec fn can_do(self, action: Action) -> bool {
        match action {
            Action::MoveShip(id, _) => self.ship(id.0) is Some,
            Action::Nothing => true,
        }
    }
}

/// Staying on a cell takes a quarter of it rounded up: nothing from an empty
/// cell, and never more than the cell holds.
pub proof fn lemma_collect(h: int)
    requires
        h >= 0,
    ensures
        4 * collect(h) - 4 < h <= 4 * collect(h),
        collect(0) == 0,
        h - collect(h) >= 0,
{
}

/// A cardinal move that the ship can pay for takes it to the neighbouring
/// cell, wrapped around the torus, where it then stands; it costs a
/// tenth of the cell it leaves, rounded down, and changes no cell. One it
/// cannot pay for leaves it where it was, with nothing paid, and it collects
/// from its cell as if it had stayed; no other cell changes.
pub proof fn lemma_cardinal_move(t: TurnView, id: usize, d: Direction)
    requires
        t.wf(),
        t.ship(id) is Some,
        d != Direction::Still,
    ensures
        ({
            let s = t.ship(id).unwrap();
            let here = t.halite_at(s.position) as int;
            let after = t.after_move(id, d);
            let s2 = after.ship(id).unwrap();
            &&& after.ship(id) is Some
            &&& s2.id == s.id && s2.owner == s.owner && s2.max_halite == s.max_halite
            &&& move_cost(here) <= s.halite ==> {
                &&& s2.position.x == wrap(s.position.x + dx(d), t.width())
                &&& s2.position.y == wrap(s.position.y + dy(d), t.height())
                &&& s2.halite == s.halite - move_cost(here)
                &&& after.resolves(id, after.cell(s2.position))
                &&& after.occupied(s2.position)
                &&& forall|q: Position| #[trigger] after.halite_at(q) == t.halite_at(q)
            }
            &&& move_cost(here) > s.halite ==> {
                &&& s2.position == s.position
                &&& s2.halite == s.halite + taken(here, s)
                &&& after.halite_at(s.position) == here - taken(here, s)
                &&& forall|q: Position|
                    t.cell(q) != t.cell(s.position) ==> #[trigger] after.halite_at(q) == t.halite_at(q)
            }
        }),
{
    let s = t.ship(id).unwrap();
    let here = t.halite_at(s.position) as int;
    let after = t.after_move(id, d);
    assert(s.id.0 == id);
    if move_cost(here) <= s.halite {
        let p = s.position;
        let c = t.cell(p);
        lemma_cell_of_cell(t, p);
        let q = Position { x: step_x(c, d) as i32, y: step_y(c, d) as i32 };
        let np = t.moved_position(p, d);
        lemma_cell_of_cell(t, q);
        lemma_wrap_shift(p.x as int, dx(d), t.width());
        lemma_wrap_shift(p.y as int, dy(d), t.height());
        assert(after.undoable.ships[id].position == np);
        assert(after.cell(np) == np);
        assert(after.resolves(id, after.cell(np)));
        assert forall|q2: Position| #[trigger] after.halite_at(q2) == t.halite_at(q2) by {}
    }
}

/// The cell of a cell is itself.
pub proof fn lemma_cell_of_cell(t: TurnView, p: Position)
    requires
        t.wf(),
    ensures
        t.cell(t.cell(p)) == t.cell(p),
        0 <= t.cell(p).x < t.width(),
        0 <= t.cell(p).y < t.height(),
{
    vstd::arithmetic::div_mod::lemma_mod_bound(p.x as int, t.width());
    vstd::arithmetic::div_mod::lemma_mod_bound(p.y as int, t.height());
    vstd::arithmetic::div_mod::lemma_small_mod(wrap(p.x as int, t.width()) as nat, t.width() as nat);
    vstd::arithmetic::div_mod::lemma_small_mod(wrap(p.y as int, t.height()) as nat, t.height() as nat);
}

/// Reducing before a shift changes nothing: `wrap(wrap(v) + k) == wrap(v + k)`.
pub proof fn lemma_wrap_shift(v: int, k: int, n: int)
    requires
        n > 0,
    ensures
        wrap(wrap(v, n) + k, n) == wrap(v + k, n),
{
    vstd::arithmetic::div_mod::lemma_fundamental_div_mod(v, n);
    vstd::arithmetic::div_mod::lemma_mod_multiples_vanish(v / n, v % n + k, n);
    assert(v + k == n * (v / n) + (v % n + k));
}

/// A value set in a more specific layer hides what the less specific layers
/// hold for the same cell or ship, whatever order the layers were written in:
/// writing a less specific layer changes nothing where a more specific one
/// already decides.
pub proof fn lemma_layer_precedence(t: TurnView, pos: Position, h: Halite, s: Ship)
    ensures
        ({
            let c = t.cell(pos);
            let id = s.id.0;
            &&& (TurnView { undoable: t.undoable.set_halite(c, h), ..t }).halite_at(pos) == h
            &&& (TurnView { applied: t.applied.set_halite(c, h), ..t }).halite_at(pos) == if t.undoable.halite.contains_key(c) {
                t.undoable.halite[c]
            } else {
                h
            }
            &&& (TurnView { saved: t.saved.set_halite(c, h), ..t }).halite_at(pos) == if t.undoable.halite.contains_key(c) {
                t.undoable.halite[c]
            } else if t.applied.halite.contains_key(c) {
                t.applied.halite[c]
            } else {
                h
            }
            &&& (TurnView { undoable: t.undoable.set_ship(s, None), ..t }).ship(id) == Some(s)
            &&& (TurnView { applied: t.applied.set_ship(s, None), ..t }).ship(id) == Some(if t.undoable.ships.contains_key(id) {
                t.undoable.ships[id]
            } else {
                s
            })
            &&& (TurnView { saved: t.saved.set_ship(s, None), ..t }).ship(id) == Some(if t.undoable.ships.contains_key(id) {
                t.undoable.ships[id]
            } else if t.applied.ships.contains_key(id) {
                t.applied.ships[id]
            } else {
                s
            })
        }),
{
}

/// Positions a whole width or a whole height apart denote the same cell, and
/// every lookup answers the same for them.
pub proof fn lemma_wraparound(t: TurnView, pos: Position)
    requires
        t.wf(),
        pos.x + t.width() <= i32::MAX,
        pos.y + t.height() <= i32::MAX,
    ensures
        ({
            let east = Position { x: (pos.x + t.width()) as i32, y: pos.y };
            let south = Position { x: pos.x, y: (pos.y + t.height()) as i32 };
            &&& t.cell(east) == t.cell(pos)
            &&& t.cell(south) == t.cell(pos)
            &&& t.halite_at(east) == t.halite_at(pos)
            &&& t.halite_at(south) == t.halite_at(pos)
        }),
{
    vstd::arithmetic::div_mod::lemma_mod_multiples_vanish(1, pos.x as int, t.width());
    vstd::arithmetic::div_mod::lemma_mod_multiples_vanish(1, pos.y as int, t.height());
}

/// Computes `collect`.
pub fn max_collect(halite_in_cell: Halite) -> (r: Halite)
    ensures
        r == collect(halite_in_cell as int),
{
    if halite_in_cell >= 1 {
        halite_in_cell / 4 + if halite_in_cell % 4 == 0 {
            0
        } else {
            1
        }
    } else {
        0
    }
}

/// The state of the game at one turn, real or hypothetical: the real game
/// shared by every turn of the chain, with three diffs laid over it.
pub struct TurnState {
    turn_number: u32,
    /// Amount of halite in each cell. Access with [y][x].
    real_halite_map: Rc<Vec<Vec<Halite>>>,
    real_ships: Rc<HashMap<usize, Ship>>,
    real_ship_pos: Rc<HashMap<u64, usize>>,
    /// Lowest priority: from memory.
    saved_diff: StateDifference,
    applied_diff: StateDifference,
    /// Highest priority: overwrites.
    undoable_diff: StateDifference,
}

impl View for TurnState {
    type V = TurnView;

    closed spec fn view(&self) -> TurnView {
        TurnView {
            turn_number: self.turn_number,
            grid: self.real_halite_map@.map_values(|row: Vec<Halite>| row@),
            base_ships: self.real_ships@,
            base_pos: pos_map(self.real_ship_pos@),
            saved: self.saved_diff@,
            applied: self.applied_diff@,
            undoable: self.undoable_diff@,
        }
    }
}

impl TurnState {
    /// Reduces `p` to the cell it denotes.
    fn cell(&self, p: &Position) -> (r: Position)
        requires
            self@.wf(),
        ensures
            r == self@.cell(*p),
            0 <= r.x < self@.width(),
            0 <= r.y < self@.height(),
    {
        let height = self.real_halite_map.len();
        let width = self.real_halite_map[0].len();
        proof {
            assert(self@.grid[0].len() == width);
        }
        Position {
            x: wrap_coordinate(p.x, width as i32),
            y: wrap_coordinate(p.y, height as i32),
        }
    }

    /// # Game logic
    /// A ship did an action on the previous turn which has an effect on this turn.
    pub fn did_action(&mut self, action: Action)
        requires
            old(self)@.wf(),
            old(self)@.can_do(action),
        ensures
            final(self)@ == old(self)@.after_action(action),
            final(self)@.wf(),
    {
        match action {
            Action::MoveShip(id, direction) => self.move_ship(id, direction),
            Action::Nothing => {},
        }
    }

    fn move_ship(&mut self, id: ShipId, direction: Direction)
        requires
            old(self)@.wf(),
            old(self)@.ship(id.0) is Some,
        ensures
            final(self)@ == old(self)@.after_move(id.0, direction),
            final(self)@.wf(),
    {
        let old_ship = *self.ship(id);
        let here = self.halite_at(&old_ship.position);
        let cost = (here / 10) as usize;
        if direction != Direction::Still && cost <= old_ship.halite {
            let position = self.moved_position(&old_ship.position, direction);
            let moved = Ship { position, halite: old_ship.halite - cost, ..old_ship };
            self.overwrite_ship(moved, &old_ship);
        } else {
            let collect = max_collect(here);
            let room: usize = if old_ship.halite < old_ship.max_halite {
                old_ship.max_halite - old_ship.halite
            } else {
                0
            };
            let taken: Halite = if (collect as usize) <= room {
                collect
            } else {
                room as Halite
            };
            let stayed = Ship { halite: old_ship.halite + taken as usize, ..old_ship };
            let cell = self.cell(&old_ship.position);
            self.undoable_diff.set_halite(cell, here - taken);
            self.undoable_diff.set_ship(stayed, Some(&old_ship));
        }
    }

    /// Computes `moved_position`.
    pub fn moved_position(&self, p: &Position, d: Direction) -> (r: Position)
        requires
            self@.wf(),
        ensures
            r == self@.moved_position(*p, d),
            0 <= r.x < self@.width(),
            0 <= r.y < self@.height(),
    {
        let c = self.cell(p);
        let step = c.directional_offset(d);
        self.cell(&step)
    }

    /// # Helpers and getters
    /// The ship with the id. It must exist in one of the layers.
    pub fn ship(&self, id: ShipId) -> (r: &Ship)
        requires
            self@.ship(id.0) is Some,
        ensures
            *r == self@.ship(id.0).unwrap(),
    {
        self.find_ship(id).unwrap()
    }

    /// Replaces a ship in the speculative layer; `current` is its snapshot now.
    fn overwrite_ship(&mut self, ship: Ship, current: &Ship)
        requires
            old(self)@.wf(),
            current.id == ship.id,
            old(self)@.ship(ship.id.0) == Some(*current),
        ensures
            final(self)@ == (TurnView {
                undoable: old(self)@.undoable.set_ship(ship, Some(*current)),
                ..old(self)@
            }),
            final(self)@.wf(),
    {
        self.undoable_diff.set_ship(ship, Some(current));
    }

    pub fn halite_at(&self, pos: &Position) -> (r: Halite)
        requires
            self@.wf(),
        ensures
            r == self@.halite_at(*pos),
    {
        let c = self.cell(pos);
        if let Some(halite) = self.undoable_diff.halite(&c) {
            halite
        } else if let Some(halite) = self.applied_diff.halite(&c) {
            halite
        } else if let Some(halite) = self.saved_diff.halite(&c) {
            halite
        } else {
            proof {
                assert forall|y: int| 0 <= y < self.real_halite_map@.len() implies #[trigger] self.real_halite_map@[y]@.len()
                    == self.real_halite_map@[0]@.len() by {
                    assert(self@.grid[y] == self.real_halite_map@[y]@);
                }
                assert(self@.grid[c.y as int] == self.real_halite_map@[c.y as int]@);
            }
            at_normalized(&self.real_halite_map, pos)
        }
    }

    /// A ship on the cell that `pos` denotes, if one stands there. The layers'
    /// indexes answer first; when they miss, every ship the layers hold is
    /// looked at.
    pub fn ship_at(&self, pos: Position) -> (r: Option<ShipId>)
        requires
            self@.wf(),
        ensures
            r is Some <==> self@.occupied(pos),
            r matches Some(i) ==> self@.resolves(i.0, self@.cell(pos)),
    {
        let c = self.cell(&pos);
        proof {
            lemma_cell_of_cell(self@, pos);
        }
        if let Some(id) = self.undoable_diff.ship_at(c) {
            if self.resolves(id, c) {
                return Some(id);
            }
        }
        if let Some(id) = self.applied_diff.ship_at(c) {
            if self.resolves(id, c) {
                return Some(id);
            }
        }
        if let Some(id) = self.saved_diff.ship_at(c) {
            if self.resolves(id, c) {
                return Some(id);
            }
        }
        if let Some(id) = self.real_ship_pos.get(&pos_key(&c)) {
            if self.resolves(ShipId(*id), c) {
                return Some(ShipId(*id));
            }
        }
        // The indexes missed: look at every ship the layers hold.
        let undoable_ids = self.undoable_diff.ship_ids();
        if let Some(id) = self.first_on_cell(&undoable_ids, c) {
            return Some(id);
        }
        let applied_ids = self.applied_diff.ship_ids();
        if let Some(id) = self.first_on_cell(&applied_ids, c) {
            return Some(id);
        }
        let saved_ids = self.saved_diff.ship_ids();
        if let Some(id) = self.first_on_cell(&saved_ids, c) {
            return Some(id);
        }
        let base_ids = keys_of(&self.real_ships);
        if let Some(id) = self.first_on_cell(&base_ids, c) {
            return Some(id);
        }
        proof {
            assert forall|id: usize| !#[trigger] self@.resolves(id, self@.cell(pos)) by {
                if self@.resolves(id, c) {
                    if self@.undoable.ships.contains_key(id) {
                        assert(undoable_ids@.contains(id));
                    } else if self@.applied.ships.contains_key(id) {
                        assert(applied_ids@.contains(id));
                    } else if self@.saved.ships.contains_key(id) {
                        assert(saved_ids@.contains(id));
                    } else {
                        assert(base_ids@.contains(id));
                    }
                }
            }
        }
        None
    }

    /// The first of `ids` whose ship stands on the cell `c`.
    fn first_on_cell(&self, ids: &Vec<usize>, c: Position) -> (r: Option<ShipId>)
        requires
            self@.wf(),
        ensures
            r matches Some(i) ==> self@.resolves(i.0, c),
            r is None ==> forall|k: usize| #[trigger] ids@.contains(k) ==> !self@.resolves(k, c),
    {
        let mut j: usize = 0;
        while j < ids.len()
            invariant
                self@.wf(),
                j <= ids@.len(),
                forall|jj: int| 0 <= jj < j ==> !self@.resolves(#[trigger] ids@[jj], c),
            decreases ids@.len() - j,
        {
            if self.resolves(ShipId(ids[j]), c) {
                return Some(ShipId(ids[j]));
            }
            j = j + 1;
        }
        None
    }

    /// Computes `resolves`.
    fn resolves(&self, id: ShipId, c: Position) -> (r: bool)
        requires
            self@.wf(),
        ensures
            r == self@.resolves(id.0, c),
    {
        match self.find_ship(id) {
            Some(s) => self.cell(&s.position) == c,
            None => false,
        }
    }

    /// The ship with the id, from the most specific layer that holds it.
    fn find_ship(&self, id: ShipId) -> (r: Option<&Ship>)
        ensures
            opt_ship(r) == self@.ship(id.0),
    {
        if let Some(s) = self.undoable_diff.ship(id) {
            Some(s)
        } else if let Some(s) = self.applied_diff.ship(id) {
            Some(s)
        } else if let Some(s) = self.saved_diff.ship(id) {
            Some(s)
        } else {
            self.real_ships.get(&id.0)
        }
    }

    /// # State and rollback management
    /// The turn state of the real game, with what memory recorded for its
    /// turn. Ships are placed on the cells their positions denote.
    pub fn new_current(hlt_game: &Game, memory: &Memory) -> (r: TurnState)
        requires
            hlt_game.wf(),
            memory@.wf(),
        ensures
            r@ == current_turn_of(*hlt_game, memory@),
            r@.wf(),
            r@.height() == hlt_game.game_map.height,
            r@.width() == hlt_game.game_map.width,
    {
        let turn_number = hlt_game.turn_number;
        let mut ships: HashMap<usize, Ship> = HashMap::new();
        let mut ship_pos: HashMap<u64, usize> = HashMap::new();
        proof {
            lemma_pos_map_empty::<usize>();
        }
        let mut i: usize = 0;
        while i < hlt_game.ships.len()
            invariant
                i <= hlt_game.ships@.len(),
                hlt_game.wf(),
                ships@ == ships_by_id(hlt_game.ships@.take(i as int), hlt_game.game_map),
                pos_map(ship_pos@) == ships_by_position(
                    hlt_game.ships@.take(i as int),
                    hlt_game.game_map,
                ),
                forall|id: usize| #[trigger] ships@.contains_key(id) ==> ships@[id].id.0 == id,
            decreases hlt_game.ships@.len() - i,
        {
            let s = hlt_game.ships[i];
            let cell = hlt_game.game_map.normalize(&s.position);
            let placed = Ship { position: cell, ..s };
            proof {
                assert(hlt_game.ships@.take(i + 1).drop_last() =~= hlt_game.ships@.take(i as int));
                lemma_pos_map_insert(ship_pos@, cell, s.id.0);
            }
            ships.insert(s.id.0, placed);
            ship_pos.insert(pos_key(&cell), s.id.0);
            i = i + 1;
        }
        proof {
            assert(hlt_game.ships@.take(i as int) =~= hlt_game.ships@);
        }
        let halite_map = hlt_game.game_map.get_halite_map();
        let saved_diff = memory.load_diff(turn_number);
        proof {
            assert(halite_map@[0]@.len() == hlt_game.game_map.width);
        }
        let r = TurnState {
            turn_number,
            real_halite_map: Rc::new(halite_map),
            real_ships: Rc::new(ships),
            real_ship_pos: Rc::new(ship_pos),
            saved_diff,
            applied_diff: StateDifference::new(),
            undoable_diff: StateDifference::new(),
        };
        proof {
            assert(r@.grid.len() == hlt_game.game_map.height);
            assert(r@.grid[0] == halite_map@[0]@);
            assert forall|y: int| 0 <= y < r@.height() implies #[trigger] r@.grid[y].len() == r@.width() by {
                assert(r@.grid[y] == halite_map@[y]@);
            }
            let g = grid_of(hlt_game.game_map);
            assert forall|y: int| 0 <= y < r@.height() implies #[trigger] r@.grid[y] == g[y] by {
                assert(r@.grid[y] == halite_map@[y]@);
                assert(r@.grid[y] =~= g[y]);
            }
            assert(r@.grid =~= g);
        }
        r
    }

    /// The turn after `previous`: the same real game, with what memory recorded
    /// for the next turn number.
    pub fn new_next(previous: &TurnState, memory: &Memory) -> (r: TurnState)
        requires
            previous@.wf(),
            previous@.turn_number < u32::MAX,
            memory@.wf(),
        ensures
            r@ == next_turn_of(previous@, memory@),
            r@.wf(),
    {
        let turn_number = previous.turn_number + 1;
        let r = TurnState {
            turn_number,
            real_halite_map: Rc::clone(&previous.real_halite_map),
            real_ships: Rc::clone(&previous.real_ships),
            real_ship_pos: Rc::clone(&previous.real_ship_pos),
            saved_diff: memory.load_diff(turn_number),
            applied_diff: StateDifference::new(),
            undoable_diff: StateDifference::new(),
        };
        proof {
            assert(r@.grid == previous@.grid);
            assert(r@.base_ships == previous@.base_ships);
        }
        r
    }

    /// Makes the speculative layer a copy of that of `previous`.
    pub fn clone_overwrites_from(&mut self, previous: &TurnState)
        requires
            previous@.wf(),
        ensures
            final(self)@ == (TurnView { undoable: previous@.undoable, ..old(self)@ }),
    {
        self.undoable_diff.clear();
        self.undoable_diff.extend(previous.undoable_diff.clone());
        proof {
            assert(self.undoable_diff@.ships =~= previous@.undoable.ships);
            assert(self.undoable_diff@.ship_pos =~= previous@.undoable.ship_pos);
            assert(self.undoable_diff@.halite =~= previous@.undoable.halite);
            assert(self@ == (TurnView { undoable: previous@.undoable, ..old(self)@ }));
        }
    }

    /// A copy of the speculative layer.
    pub(crate) fn undoable_layer(&self) -> (r: StateDifference)
        ensures
            r@ == self@.undoable,
    {
        self.undoable_diff.clone()
    }

    /// Makes `overwrites` the speculative layer.
    pub(crate) fn set_undoable_layer(&mut self, overwrites: StateDifference)
        ensures
            final(self)@ == (TurnView { undoable: overwrites@, ..old(self)@ }),
    {
        self.undoable_diff = overwrites;
    }

    /// Clears the speculative layer.
    pub fn rollback(&mut self)
        ensures
            final(self)@ == (TurnView { undoable: DiffView::empty(), ..old(self)@ }),
    {
        self.undoable_diff.clear()
    }

    /// Folds the speculative layer into the committed one, so ships processed
    /// later in this real turn see it.
    pub fn apply(&mut self)
        requires
            old(self)@.wf(),
        ensures
            final(self)@ == (TurnView {
                applied: old(self)@.applied.extend(old(self)@.undoable),
                undoable: DiffView::empty(),
                ..old(self)@
            }),
            final(self)@.wf(),
    {
        let mut overwrites = StateDifference::new();
        std::mem::swap(&mut self.undoable_diff, &mut overwrites);
        self.applied_diff.extend(overwrites);
    }

    /// Records in memory what is committed for this turn: the loaded diff with
    /// the committed layer over it.
    pub fn save(&self, memory: &mut Memory)
        requires
            self@.wf(),
            old(memory)@.wf(),
        ensures
            final(memory)@.diffs == old(memory)@.diffs.insert(
                self@.turn_number,
                self@.saved.extend(self@.applied),
            ),
            final(memory)@.paths == old(memory)@.paths,
            final(memory)@.wf(),
    {
        let mut diff = self.saved_diff.clone();
        diff.extend(self.applied_diff.clone());
        memory.safe_diff(self.turn_number, diff);
    }
}

/// The amount on the cell that `pos` denotes. Wraps around the edge of the map.
pub fn at_normalized(map: &Vec<Vec<Halite>>, pos: &Position) -> (r: Halite)
    requires
        1 <= map@.len() <= i32::MAX,
        1 <= map@[0]@.len() <= i32::MAX,
        forall|y: int| 0 <= y < map@.len() ==> #[trigger] map@[y]@.len() == map@[0]@.len(),
    ensures
        r == map@[wrap(pos.y as int, map@.len() as int)]@[wrap(
            pos.x as int,
            map@[0]@.len() as int,
        )],
{
    let height = map.len() as i32;
    let width = map[0].len() as i32;
    let y = wrap_coordinate(pos.y, height);
    let x = wrap_coordinate(pos.x, width);
    map[y as usize][x as usize]
}

/// The cell that `pos` denotes, to be written. Wraps around the edge of the map.
pub fn at_normalized_mut<'m>(map: &'m mut Vec<Vec<Halite>>, pos: &Position) -> (r: &'m mut Halite)
    requires
        1 <= old(map)@.len() <= i32::MAX,
        1 <= old(map)@[0]@.len() <= i32::MAX,
        forall|y: int|
            0 <= y < old(map)@.len() ==> #[trigger] old(map)@[y]@.len() == old(map)@[0]@.len(),
    ensures
        ({
            let y = wrap(pos.y as int, old(map)@.len() as int);
            let x = wrap(pos.x as int, old(map)@[0]@.len() as int);
            &&& *r == old(map)@[y]@[x]
            &&& final(map)@.len() == old(map)@.len()
            &&& forall|i: int|
                0 <= i < final(map)@.len() ==> (#[trigger] final(map)@[i])@ == if i == y {
                    old(map)@[i]@.update(x, *final(r))
                } else {
                    old(map)@[i]@
                }
        }),
{
    let height = map.len() as i32;
    let width = map[0].len() as i32;
    let y = wrap_coordinate(pos.y, height);
    let x = wrap_coordinate(pos.x, width);
    &mut map[y as usize][x as usize]
}

} // verus!
