use vstd::prelude::*;
use crate::chance::{random_bool, random_in_range};
use rand::rngs::StdRng;
use crate::hlt::direction::Direction;
use crate::hlt::position::Position;
use crate::hlt::ship::Ship;
use crate::hlt::game_map::moves_towards;
use crate::simulator::simulator::{SimView, Simulator};

verus! {

/// The first of `preferred` and `other` that may be taken, else staying.
pub fn choose_step(preferred: Direction, preferred_ok: bool, other: Direction, other_ok: bool) -> (r:
    Direction)
    ensures
        r == if preferred_ok {
            preferred
        } else if other_ok {
            other
        } else {
            Direction::Still
        },
{
    if preferred_ok {
        preferred
    } else if other_ok {
        other
    } else {
        Direction::Still
    }
}

/// Whether no ship stands, in the turn after the current one, where a step
/// from `p` in `d` lands.
pub open spec fn step_is_free(sim: SimView, p: Position, d: Direction) -> bool {
    !sim.next().occupied(sim.current().moved_position(p, d))
}

/// Moves that don't backtrack or stand still, and that avoid cells other
/// ships take next turn.
pub struct PathFinder {
    vertical_dir: Direction,
    horizontal_dir: Direction,
}

impl PathFinder {
    pub closed spec fn vertical(&self) -> Direction {
        self.vertical_dir
    }

    pub closed spec fn horizontal(&self) -> Direction {
        self.horizontal_dir
    }

    /// One direction is vertical, the other horizontal.
    pub open spec fn wf(&self) -> bool {
        &&& (self.vertical() == Direction::North || self.vertical() == Direction::South)
        &&& (self.horizontal() == Direction::East || self.horizontal() == Direction::West)
    }

    pub fn new(rng: &mut StdRng) -> (r: PathFinder)
        ensures
            r.wf(),
            r.vertical() == Direction::North || r.vertical() == Direction::South,
            r.horizontal() == Direction::East || r.horizontal() == Direction::West,
    {
        let vertical_dir = if random_bool(rng) {
            Direction::North
        } else {
            Direction::South
        };
        let horizontal_dir = if random_bool(rng) {
            Direction::East
        } else {
            Direction::West
        };
        PathFinder { vertical_dir, horizontal_dir }
    }

    /// Whether no ship stands next turn where a step from `p` in `d` lands.
    fn is_free(simulator: &Simulator, p: &Position, d: Direction) -> (r: bool)
        requires
            simulator@.wf(),
        ensures
            r == step_is_free(simulator@, *p, d),
    {
        simulator.is_safe(simulator.destination(p, d))
    }

    /// A random one of the two directions if no ship takes its cell next
    /// turn; else the other one, if its cell is free; else staying.
    pub fn safe_random_move(&self, ship: &Ship, simulator: &Simulator, rng: &mut StdRng) -> (r:
        Direction)
        requires
            self.wf(),
            simulator@.wf(),
        ensures
            r == self.vertical() || r == self.horizontal() || r == Direction::Still,
            r != Direction::Still ==> step_is_free(simulator@, ship.position, r),
            r == Direction::Still ==> !step_is_free(simulator@, ship.position, self.vertical())
                && !step_is_free(simulator@, ship.position, self.horizontal()),
    {
        let preferred = self.random_move(rng);
        let preferred_ok = PathFinder::is_free(simulator, &ship.position, preferred);
        let other = if preferred == self.horizontal_dir {
            self.vertical_dir
        } else {
            self.horizontal_dir
        };
        let other_ok = PathFinder::is_free(simulator, &ship.position, other);
        choose_step(preferred, preferred_ok, other, other_ok)
    }

    /// Either the vertical or the horizontal direction.
    pub fn random_move(&self, rng: &mut StdRng) -> (r: Direction)
        ensures
            r == self.vertical() || r == self.horizontal(),
    {
        if random_bool(rng) {
            self.vertical_dir
        } else {
            self.horizontal_dir
        }
    }

    /// A step towards `dest` onto a cell that is free next turn, picked at
    /// random among them; when there is none, a random step onto a free cell,
    /// or staying.
    pub fn navigate_to_dest(
        &self,
        dest: &Position,
        ship: &Ship,
        simulator: &Simulator,
        rng: &mut StdRng,
    ) -> (r: Direction)
        requires
            simulator@.wf(),
        ensures
            ({
                let towards = moves_towards(
                    simulator@.width,
                    simulator@.height,
                    ship.position,
                    *dest,
                );
                (exists|i: int|
                    0 <= i < towards.len() && #[trigger] step_is_free(simulator@, ship.position, towards[i]))
                    ==> towards.contains(r)
            }),
            r != Direction::Still ==> step_is_free(simulator@, ship.position, r),
    {
        let useful = simulator.useful_directions(&ship.position, dest);
        let mut safe: Vec<Direction> = Vec::new();
        let mut i: usize = 0;
        while i < useful.len()
            invariant
                simulator@.wf(),
                i <= useful@.len(),
                safe@.len() <= i,
                forall|j: int|
                    0 <= j < safe@.len() ==> useful@.contains(#[trigger] safe@[j]) && step_is_free(
                        simulator@,
                        ship.position,
                        safe@[j],
                    ),
                (exists|k: int| 0 <= k < i && #[trigger] step_is_free(simulator@, ship.position, useful@[k]))
                    ==> safe@.len() > 0,
            decreases useful@.len() - i,
        {
            let dir = useful[i];
            if PathFinder::is_free(simulator, &ship.position, dir) {
                safe.push(dir);
            }
            i = i + 1;
        }
        if safe.len() >= 2 {
            let k = random_in_range(rng, 0, safe.len());
            proof {
                assert(useful@.contains(safe@[k as int]));
            }
            safe[k]
        } else if safe.len() >= 1 {
            proof {
                assert(useful@.contains(safe@[0]));
            }
            safe[0]
        } else {
            // Evade: choose a random direction and try to move there.
            let cardinals = Direction::get_all_cardinals();
            let dir = cardinals[random_in_range(rng, 0, 4)];
            if PathFinder::is_free(simulator, &ship.position, dir) {
                dir
            } else {
                Direction::Still
            }
        }
    }
}

} // verus!
