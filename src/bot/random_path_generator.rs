use vstd::prelude::*;
use crate::chance::random_bool;
use rand::rngs::StdRng;
use crate::hlt::direction::Direction;

verus! {

/// Random moves that never backtrack or stand still: each goes one of two
/// directions fixed at creation, one vertical and one horizontal, so the
/// walk stays in one quadrant and does not cancel itself out.
pub struct RandomPathGenerator {
    vertical_dir: Direction,
    horizontal_dir: Direction,
}

impl RandomPathGenerator {
    pub closed spec fn vertical(&self) -> Direction {
        self.vertical_dir
    }

    pub closed spec fn horizontal(&self) -> Direction {
        self.horizontal_dir
    }

    pub fn new(rng: &mut StdRng) -> (r: RandomPathGenerator)
        ensures
            r.vertical() == Direction::North || r.vertical() == Direction::South,
            r.horizontal() == Direction::East || r.horizontal() == Direction::West,
    {
        let vertical_dir = if random_bool(rng) {
            Direction::North
        } else {
            Direction::South
        };
        let horizontal_dir = if random_bool(rng) {
            Direction::East
        } else {
            Direction::West
        };
        RandomPathGenerator { vertical_dir, horizontal_dir }
    }

    /// Either the vertical or the horizontal direction.
    pub fn random_move(&self, rng: &mut StdRng) -> (r: Direction)
        ensures
            r == self.vertical() || r == self.horizontal(),
    {
        if random_bool(rng) {
            self.vertical_dir
        } else {
            self.horizontal_dir
        }
    }
}

} // verus!
