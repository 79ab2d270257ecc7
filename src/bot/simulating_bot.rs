use vstd::prelude::*;
use crate::bot::path_finder::PathFinder;
use crate::chance::random_in_range;
use rand::rngs::StdRng;
use crate::hlt::command::Command;
use crate::hlt::direction::Direction;
use crate::hlt::ship::Ship;
use crate::hlt::ShipId;
use crate::simulator::action::Action;
use crate::simulator::simulator::{
    advance_all, keeps_committed, lemma_advance_all_keeps_committed, SimView, Simulator,
};
use crate::simulator::state_difference::DiffView;
use crate::simulator::Halite;

verus! {

/// The longest path a plan may have.
pub const MAX_PATH_LEN: usize = 200;

/// How many random paths are tried for each plan.
pub const PATH_ATTEMPTS: usize = 1;

/// Whether the simulator knows the ship: it is a ship of the real game.
pub open spec fn knows_ship(sim: SimView, id: ShipId) -> bool {
    &&& sim.wf()
    &&& sim.turns[0].base_ships.contains_key(id.0)
}

/// Whether `n` more steps from where the simulator stands keep the turn
/// numbers of the chain, and of the turn after, in `u32`.
pub open spec fn has_room(sim: SimView, n: int) -> bool {
    sim.turns[0].turn_number + sim.index + n + 3 <= u32::MAX
}

/// Whether the simulator can plan for the ship from its first turn: it knows
/// the ship, and the turn numbers of the longest plan fit.
pub open spec fn can_plan(sim: SimView, id: ShipId) -> bool {
    &&& knows_ship(sim, id)
    &&& sim.turns[0].turn_number + MAX_PATH_LEN + 3 <= u32::MAX
}

/// The ship's moves in the given directions, in order.
pub open spec fn steps(id: ShipId, dirs: Seq<Direction>) -> Seq<Action> {
    dirs.map_values(|d: Direction| Action::MoveShip(id, d))
}

/// `mid` is `old` rolled back: back at the first turn with no speculative
/// layer, the same committed layers and memory, and maybe more turns built.
pub open spec fn restarted(mid: SimView, old: SimView) -> bool {
    &&& mid.index == 0
    &&& forall|k: int| 0 <= k < mid.turns.len() ==> (#[trigger] mid.turns[k]).undoable == DiffView::empty()
    &&& keeps_committed(mid, old)
}

/// Rolling back after some steps from a rolled-back state gives again a
/// rolled-back state.
proof fn lemma_restart(pre: SimView, old: SimView, acts: Seq<Action>)
    requires
        restarted(pre, old),
        pre.turns[0].turn_number + acts.len() + 2 <= u32::MAX,
    ensures
        restarted(advance_all(pre, acts).after_rollback(), old),
{
    assert(keeps_committed(pre, pre));
    lemma_advance_all_keeps_committed(pre, acts);
    let a = advance_all(pre, acts);
    let r = a.after_rollback();
    assert forall|k: int| 0 <= k < old.turns.len() implies crate::simulator::simulator::committed_part(
        #[trigger] r.turns[k],
    ) == crate::simulator::simulator::committed_part(old.turns[k]) by {
        assert(crate::simulator::simulator::committed_part(a.turns[k])
            == crate::simulator::simulator::committed_part(pre.turns[k]));
    }
    assert(r.turns[0].turn_number == a.turns[0].turn_number);
    assert forall|k: int| 0 <= k < r.turns.len() implies (#[trigger] r.turns[k]).turn_number
        == r.turns[0].turn_number + k by {
        assert(r.turns[k].turn_number == a.turns[k].turn_number);
    }
}

/// `b` is planning on the same real game as `a`.
pub open spec fn same_game(a: SimView, b: SimView) -> bool {
    &&& b.turns[0].turn_number == a.turns[0].turn_number
    &&& b.turns[0].base_ships == a.turns[0].base_ships
}

/// Whether a ship carrying `carried` on a cell holding `here` should move
/// rather than collect: it can pay the move, and the cell is almost empty
/// or the ship is full.
pub open spec fn should_move(carried: int, full: bool, here: int, cell_empty: int) -> bool {
    carried >= here / 10 && (here <= cell_empty || full)
}

/// Decides the action of one ship. Future actions are kept in memory; the
/// bot is made anew every turn.
pub struct SimulatingBot {
    id: ShipId,
}

impl SimulatingBot {
    pub closed spec fn ship_id(&self) -> ShipId {
        self.id
    }

    pub fn new(id: ShipId) -> (r: SimulatingBot)
        ensures
            r.ship_id() == id,
    {
        SimulatingBot { id }
    }

    /// The ship's command for this turn: the next step of its stored plan,
    /// or of a new plan when none is left.
    pub fn calculate_command(&mut self, simulator: &mut Simulator, rng: &mut StdRng) -> (r:
        Command)
        requires
            can_plan(old(simulator)@, old(self).ship_id()),
        ensures
            final(self).ship_id() == old(self).ship_id(),
            final(simulator)@.wf(),
            same_game(old(simulator)@, final(simulator)@),
            exists|d: Direction| r == Command::Move(old(self).ship_id(), d),
            ({
                let paths = old(simulator)@.memory.paths;
                let id = old(self).ship_id().0;
                paths.contains_key(id) && paths[id].len() > 0 ==> {
                    &&& r == Command::Move(old(self).ship_id(), paths[id].last())
                    &&& final(simulator)@.memory.paths == paths.insert(id, paths[id].drop_last())
                    &&& final(simulator)@ == (SimView {
                        memory: final(simulator)@.memory,
                        ..old(simulator)@
                    })
                }
            }),
    {
        let mut path = simulator.memory_mut().ship_path(&self.id);
        if path.len() == 0 {
            path = self.calc_good_path(simulator, rng);
        }
        // One movement per turn.
        let dir = path.pop().unwrap();
        simulator.memory_mut().store_path(self.id, path);
        simulator.id_to_ship(self.id).move_ship(dir)
    }

    /// Tries random paths that collect and then return to a drop-off, scores
    /// each by cargo per turn, and commits the best one in the simulator.
    /// The path comes back last step first.
    fn calc_good_path(&mut self, simulator: &mut Simulator, rng: &mut StdRng) -> (r: Vec<
        Direction,
    >)
        requires
            can_plan(old(simulator)@, old(self).ship_id()),
        ensures
            final(self).ship_id() == old(self).ship_id(),
            can_plan(final(simulator)@, old(self).ship_id()),
            same_game(old(simulator)@, final(simulator)@),
            final(simulator)@.index == 0,
            final(simulator)@.memory.paths == old(simulator)@.memory.paths,
            0 < r@.len() <= MAX_PATH_LEN,
            exists|mid: SimView|
                restarted(mid, old(simulator)@) && final(simulator)@ == advance_all(
                    mid,
                    steps(old(self).ship_id(), r@.reverse()),
                ).after_apply(),
    {
        let mut best_score: u128 = 0;
        let mut best_path: Vec<Direction> = vec![Direction::Still];
        simulator.rollback();
        proof {
            let m = simulator@;
            assert(m.turns[0].turn_number == old(simulator)@.turns[0].turn_number);
            assert forall|k: int| 0 <= k < m.turns.len() implies (#[trigger] m.turns[k]).turn_number
                == m.turns[0].turn_number + k by {
                assert(m.turns[k].turn_number == old(simulator)@.turns[k].turn_number);
            }
        }
        let mut attempt: usize = 0;
        while attempt < PATH_ATTEMPTS
            invariant
                self.id == old(self).id,
                can_plan(simulator@, self.id),
                same_game(old(simulator)@, simulator@),
                simulator@.index == 0,
                simulator@.memory.paths == old(simulator)@.memory.paths,
                restarted(simulator@, old(simulator)@),
                0 < best_path@.len() <= MAX_PATH_LEN,
            decreases PATH_ATTEMPTS - attempt,
        {
            let go_back_cargo = random_in_range(rng, 200, 800);
            let cell_empty = biased_range(10, 100) as Halite;
            let ghost pre = simulator@;
            let path = self.some_complete_path(simulator, go_back_cargo, cell_empty, rng);
            // Simulator and ship changed state.
            let carried = simulator.id_to_ship(self.id).halite;
            let score: u128 = if path.len() == 0 {
                0
            } else {
                10 * (carried as u128) / (path.len() as u128)
            };
            if score > best_score {
                best_score = score;
                best_path = path;
            }
            simulator.rollback();
            proof {
                lemma_restart(pre, old(simulator)@, steps(self.id, path@.reverse()));
            }
            attempt = attempt + 1;
        }
        // Apply and return the best one.
        let ghost mid = simulator@;
        self.replay_path(simulator, &best_path);
        simulator.apply();
        best_path
    }

    /// Moves at random until the ship carries more than `go_back_cargo`, then
    /// heads for the drop-off; every step goes into the simulator. The path
    /// comes back last step first.
    fn some_complete_path(
        &mut self,
        simulator: &mut Simulator,
        go_back_cargo: usize,
        cell_empty: Halite,
        rng: &mut StdRng,
    ) -> (r: Vec<Direction>)
        requires
            knows_ship(old(simulator)@, old(self).ship_id()),
            has_room(old(simulator)@, MAX_PATH_LEN as int),
        ensures
            final(self).ship_id() == old(self).ship_id(),
            knows_ship(final(simulator)@, old(self).ship_id()),
            same_game(old(simulator)@, final(simulator)@),
            final(simulator)@.memory.paths == old(simulator)@.memory.paths,
            r@.len() <= MAX_PATH_LEN,
            final(simulator)@.index == old(simulator)@.index + r@.len(),
            final(simulator)@ == advance_all(old(simulator)@, steps(old(self).ship_id(), r@.reverse())),
    {
        let finder = PathFinder::new(rng);
        let mut path: Vec<Direction> = Vec::new();
        // Move at random until the ship is partially filled up.
        while self.ship(simulator).halite <= go_back_cargo && path.len() < MAX_PATH_LEN / 2
            invariant
                self.id == old(self).id,
                knows_ship(simulator@, self.id),
                same_game(old(simulator)@, simulator@),
                has_room(old(simulator)@, MAX_PATH_LEN as int),
                simulator@.index == old(simulator)@.index + path@.len(),
                path@.len() <= MAX_PATH_LEN / 2,
                simulator@.memory.paths == old(simulator)@.memory.paths,
                simulator@ == advance_all(old(simulator)@, steps(self.id, path@)),
                finder.wf(),
            decreases MAX_PATH_LEN / 2 - path@.len(),
        {
            let dir = if self.move_or_collect(simulator, cell_empty) {
                let ship = *self.ship(simulator);
                finder.safe_random_move(&ship, simulator, rng)
            } else {
                Direction::Still
            };
            let ghost before = path@;
            path.push(dir);
            self.step(simulator, dir);
            proof {
                assert(steps(self.id, path@).drop_last() =~= steps(self.id, before));
            }
        }
        // Then move until the drop-off is reached.
        let dropoff_pos = simulator.dropoff_near(self.id);
        while dropoff_pos != self.ship(simulator).position && path.len() < MAX_PATH_LEN
            invariant
                self.id == old(self).id,
                knows_ship(simulator@, self.id),
                same_game(old(simulator)@, simulator@),
                has_room(old(simulator)@, MAX_PATH_LEN as int),
                simulator@.index == old(simulator)@.index + path@.len(),
                path@.len() <= MAX_PATH_LEN,
                simulator@.memory.paths == old(simulator)@.memory.paths,
                simulator@ == advance_all(old(simulator)@, steps(self.id, path@)),
                finder.wf(),
            decreases MAX_PATH_LEN - path@.len(),
        {
            let dir = if self.move_or_collect(simulator, cell_empty) {
                let ship = *self.ship(simulator);
                finder.navigate_to_dest(&dropoff_pos, &ship, simulator, rng)
            } else {
                Direction::Still
            };
            let ghost before = path@;
            path.push(dir);
            self.step(simulator, dir);
            proof {
                assert(steps(self.id, path@).drop_last() =~= steps(self.id, before));
            }
        }
        // Invert the order.
        let mut output: Vec<Direction> = Vec::new();
        let mut i: usize = path.len();
        while i > 0
            invariant
                i <= path@.len(),
                output@.len() == path@.len() - i,
                forall|j: int|
                    0 <= j < output@.len() ==> #[trigger] output@[j] == path@[path@.len() - 1 - j],
            decreases i,
        {
            i = i - 1;
            output.push(path[i]);
        }
        proof {
            assert(output@.reverse() =~= path@);
        }
        output
    }

    /// Has the simulator advance with the ship stepping in `dir`.
    fn step(&self, simulator: &mut Simulator, dir: Direction)
        requires
            knows_ship(old(simulator)@, self.id),
            has_room(old(simulator)@, 0),
        ensures
            knows_ship(final(simulator)@, self.id),
            same_game(old(simulator)@, final(simulator)@),
            final(simulator)@.index == old(simulator)@.index + 1,
            final(simulator)@.memory.paths == old(simulator)@.memory.paths,
            final(simulator)@ == old(simulator)@.after_advance(Action::MoveShip(self.id, dir)),
    {
        let ghost s = simulator@;
        proof {
            assert(s.turns[s.index + 1].base_ships == s.turns[0].base_ships);
        }
        simulator.do_and_switch_to_next_turn(Action::MoveShip(self.id, dir));
        proof {
            let f = simulator@;
            assert(f.turns[0] == s.turns[0]);
        }
    }

    /// Returns true if the ship should move, false if it should collect.
    fn move_or_collect(&self, simulator: &Simulator, cell_empty: Halite) -> (r: bool)
        requires
            knows_ship(simulator@, self.id),
        ensures
            ({
                let ship = simulator@.current().ship(self.id.0).unwrap();
                r == should_move(
                    ship.halite as int,
                    ship.halite >= ship.max_halite,
                    simulator@.current().halite_at(ship.position) as int,
                    cell_empty as int,
                )
            }),
    {
        // If a cell contains less than cell_empty, it is considered empty.
        let ship = self.ship(simulator);
        let here = simulator.halite_at(&ship.position);
        if ship.halite < (here / 10) as usize {
            // Not enough fuel: stay still.
            false
        } else if here <= cell_empty || ship.is_full() {
            // Cell almost empty or ship full: move.
            true
        } else {
            // The cell has halite and the ship can collect.
            false
        }
    }

    /// Moves the ship along the path to change the simulator's state.
    fn replay_path(&mut self, simulator: &mut Simulator, path: &Vec<Direction>)
        requires
            can_plan(old(simulator)@, old(self).ship_id()),
            old(simulator)@.index == 0,
            path@.len() <= MAX_PATH_LEN,
        ensures
            final(self).ship_id() == old(self).ship_id(),
            can_plan(final(simulator)@, old(self).ship_id()),
            same_game(old(simulator)@, final(simulator)@),
            final(simulator)@.memory.paths == old(simulator)@.memory.paths,
            final(simulator)@ == advance_all(old(simulator)@, steps(old(self).ship_id(), path@.reverse())),
    {
        // The path is stored last step first: replay it from the back.
        let mut i: usize = path.len();
        while i > 0
            invariant
                self.id == old(self).id,
                can_plan(simulator@, self.id),
                same_game(old(simulator)@, simulator@),
                simulator@.index == path@.len() - i,
                i <= path@.len(),
                path@.len() <= MAX_PATH_LEN,
                simulator@.memory.paths == old(simulator)@.memory.paths,
                simulator@ == advance_all(
                    old(simulator)@,
                    steps(self.id, path@.reverse().take(path@.len() - i)),
                ),
            decreases i,
        {
            let ghost done = path@.reverse().take(path@.len() - i);
            i = i - 1;
            self.step(simulator, path[i]);
            proof {
                let now = path@.reverse().take(path@.len() - i);
                assert(now.drop_last() =~= done);
                assert(now.last() == path@[i as int]);
                assert(steps(self.id, now).drop_last() =~= steps(self.id, done));
            }
        }
        proof {
            assert(path@.reverse().take(path@.len() as int) =~= path@.reverse());
        }
    }

    /// The ship as the simulator's current turn sees it.
    fn ship<'s>(&self, simulator: &'s Simulator) -> (r: &'s Ship)
        requires
            knows_ship(simulator@, self.id),
        ensures
            *r == simulator@.current().ship(self.id.0).unwrap(),
    {
        proof {
            let s = simulator@;
            assert(s.turns[s.index].base_ships == s.turns[0].base_ships);
        }
        simulator.id_to_ship(self.id)
    }
}

/// The amount below which a cell counts as empty when planning. It is meant
/// to lie between `min` and `max` with small values more likely; for now it
/// is fixed.
pub fn biased_range(min: u16, max: u16) -> (r: u16)
    ensures
        r == 50,
{
    50
}

} // verus!
