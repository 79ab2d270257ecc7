use vstd::prelude::*;
use std::collections::HashSet;
use crate::hlt::position::{key_of, pos_key, Position};
use crate::maps::{lemma_pos_set_empty, lemma_pos_set_insert, pos_set};

verus! {

broadcast use vstd::std_specs::hash::group_hash_axioms;

/// Positions that ships have claimed for the next turn.
pub struct Reservations {
    positions: HashSet<u64>,
}

impl View for Reservations {
    type V = Set<Position>;

    closed spec fn view(&self) -> Set<Position> {
        pos_set(self.positions@)
    }
}

impl Reservations {
    pub fn new() -> (r: Reservations)
        ensures
            r@ == Set::<Position>::empty(),
    {
        proof {
            lemma_pos_set_empty();
        }
        Reservations { positions: HashSet::new() }
    }

    pub fn clear(&mut self)
        ensures
            final(self)@ == Set::<Position>::empty(),
    {
        self.positions.clear();
        proof {
            lemma_pos_set_empty();
        }
    }

    /// Claims the position unless it is claimed already; says whether it claimed it.
    pub fn try_reserve(&mut self, position: &Position) -> (r: bool)
        ensures
            r == !old(self)@.contains(*position),
            final(self)@ == old(self)@.insert(*position),
    {
        let k = pos_key(position);
        proof {
            lemma_pos_set_insert(self.positions@, *position);
        }
        self.positions.insert(k)
    }
}

} // verus!
