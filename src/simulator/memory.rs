use vstd::prelude::*;
use std::collections::HashMap;
use crate::hlt::direction::Direction;
use crate::hlt::ShipId;
use crate::simulator::state_difference::{DiffView, StateDifference};

verus! {

broadcast use vstd::std_specs::hash::group_hash_axioms;

/// What the memory holds: each ship's planned path, and the diff recorded for
/// each turn number.
pub struct MemoryView {
    pub paths: Map<usize, Seq<Direction>>,
    pub diffs: Map<u32, DiffView>,
}

/// Lives for the whole game. Plans and committed diffs made in one real turn
/// are found here again in later ones.
pub struct Memory {
    ship_path: HashMap<usize, Vec<Direction>>,
    /// Diff per turn number.
    diffs: HashMap<u32, StateDifference>,
}

impl View for Memory {
    type V = MemoryView;

    closed spec fn view(&self) -> MemoryView {
        MemoryView {
            paths: self.ship_path@.map_values(|v: Vec<Direction>| v@),
            diffs: self.diffs@.map_values(|d: StateDifference| d@),
        }
    }
}

impl MemoryView {
    /// Every stored diff keeps its index consistent.
    pub open spec fn wf(self) -> bool {
        forall|t: u32| #[trigger] self.diffs.contains_key(t) ==> self.diffs[t].wf()
    }

    /// The diff a turn state for `turn_number` starts from.
    pub open spec fn diff_for(self, turn_number: u32) -> DiffView {
        if self.diffs.contains_key(turn_number) {
            self.diffs[turn_number]
        } else {
            DiffView::empty()
        }
    }
}

impl Memory {
    pub fn new() -> (r: Memory)
        ensures
            r@.paths == Map::<usize, Seq<Direction>>::empty(),
            r@.diffs == Map::<u32, DiffView>::empty(),
            r@.wf(),
    {
        let r = Memory { ship_path: HashMap::new(), diffs: HashMap::new() };
        proof {
            assert(r@.paths =~= Map::<usize, Seq<Direction>>::empty());
            assert(r@.diffs =~= Map::<u32, DiffView>::empty());
        }
        r
    }

    /// A copy of the diff stored for the turn, or an empty one. Memory keeps
    /// what it holds.
    pub fn load_diff(&self, turn_number: u32) -> (r: StateDifference)
        requires
            self@.wf(),
        ensures
            r@ == self@.diff_for(turn_number),
            r@.wf(),
    {
        match self.diffs.get(&turn_number) {
            Some(d) => d.clone(),
            None => StateDifference::new(),
        }
    }

    /// Stores the diff for the turn, replacing what was there.
    pub fn safe_diff(&mut self, turn_number: u32, diff: StateDifference)
        requires
            old(self)@.wf(),
            diff@.wf(),
        ensures
            final(self)@.diffs == old(self)@.diffs.insert(turn_number, diff@),
            final(self)@.paths == old(self)@.paths,
            final(self)@.wf(),
    {
        let ghost d = diff@;
        self.diffs.insert(turn_number, diff);
        proof {
            assert(self@.diffs =~= old(self)@.diffs.insert(turn_number, d));
        }
    }

    pub fn store_path(&mut self, id: ShipId, dir: Vec<Direction>)
        ensures
            final(self)@.paths == old(self)@.paths.insert(id.0, dir@),
            final(self)@.diffs == old(self)@.diffs,
    {
        let ghost p = dir@;
        self.ship_path.insert(id.0, dir);
        proof {
            assert(self@.paths =~= old(self)@.paths.insert(id.0, p));
        }
    }

    /// Takes out the ship's stored path, or an empty one.
    pub fn ship_path(&mut self, id: &ShipId) -> (r: Vec<Direction>)
        ensures
            r@ == if old(self)@.paths.contains_key(id.0) {
                old(self)@.paths[id.0]
            } else {
                Seq::<Direction>::empty()
            },
            final(self)@.paths == old(self)@.paths.remove(id.0),
            final(self)@.diffs == old(self)@.diffs,
    {
        let r = match self.ship_path.remove(&id.0) {
            Some(dir) => dir,
            None => Vec::new(),
        };
        proof {
            assert(self@.paths =~= old(self)@.paths.remove(id.0));
        }
        r
    }
}

} // verus!
