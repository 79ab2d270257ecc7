use vstd::prelude::*;
use std::collections::HashMap;
use vstd::std_specs::hash::{obeys_key_model, spec_hash_map_iter};
use vstd::std_specs::iter::IteratorSpec;
use crate::hlt::position::{key_of, lemma_key_of_injective, pos_key, Position};
use crate::hlt::ship::Ship;
use crate::hlt::ShipId;
use crate::maps::{
    extend_map, key_in_prefix, keys_of, key_position, lemma_key_position, lemma_pos_map_empty,
    lemma_pos_map_insert, lemma_pos_map_remove, lemma_pos_map_union, pos_map,
};
use crate::simulator::Halite;

verus! {

broadcast use vstd::std_specs::hash::group_hash_axioms;

/// What a diff holds: the ships it changes, the index from positions to the
/// ships it places there, and the cells it changes.
pub struct DiffView {
    pub ships: Map<usize, Ship>,
    pub ship_pos: Map<Position, usize>,
    pub halite: Map<Position, Halite>,
}

/// The snapshot of a ship handed by reference, as a value.
pub open spec fn opt_ship(o: Option<&Ship>) -> Option<Ship> {
    match o {
        Some(s) => Some(*s),
        None => None,
    }
}

impl DiffView {
    pub open spec fn empty() -> DiffView {
        DiffView { ships: Map::empty(), ship_pos: Map::empty(), halite: Map::empty() }
    }

    /// Every ship is stored under its own id, and every indexed position names
    /// a ship of the diff that stands there.
    pub open spec fn wf(self) -> bool {
        &&& forall|id: usize| #[trigger] self.ships.contains_key(id) ==> self.ships[id].id.0 == id
        &&& forall|p: Position|
            #[trigger] self.ship_pos.contains_key(p) ==> self.ships.contains_key(self.ship_pos[p])
                && self.ships[self.ship_pos[p]].position == p
    }

    /// `new` replaces the ship of its id. The index entry at the position of
    /// the previous snapshot `old`, if given, goes first, and so does the
    /// entry of the ship the diff held under that id, if any.
    pub open spec fn set_ship(self, new: Ship, old: Option<Ship>) -> DiffView {
        let given = match old {
            Some(o) => self.ship_pos.remove(o.position),
            None => self.ship_pos,
        };
        let id = new.id.0;
        let index = if self.ships.contains_key(id) && given.contains_key(self.ships[id].position)
            && given[self.ships[id].position] == id {
            given.remove(self.ships[id].position)
        } else {
            given
        };
        DiffView {
            ships: self.ships.insert(new.id.0, new),
            ship_pos: index.insert(new.position, new.id.0),
            halite: self.halite,
        }
    }

    pub open spec fn set_halite(self, pos: Position, amount: Halite) -> DiffView {
        DiffView { halite: self.halite.insert(pos, amount), ..self }
    }

    /// Index entries of this diff whose ship `other` places elsewhere.
    pub open spec fn stale_in(self, other: DiffView) -> Set<Position> {
        Set::new(
            |p: Position|
                self.ship_pos.contains_key(p) && other.ships.contains_key(self.ship_pos[p])
                    && other.ships[self.ship_pos[p]].position != p,
        )
    }

    /// `other` laid over this diff: its entries win; index entries of ships
    /// that `other` moves are dropped.
    pub open spec fn extend(self, other: DiffView) -> DiffView {
        DiffView {
            ships: self.ships.union_prefer_right(other.ships),
            ship_pos: self.ship_pos.remove_keys(self.stale_in(other)).union_prefer_right(
                other.ship_pos,
            ),
            halite: self.halite.union_prefer_right(other.halite),
        }
    }
}

/// A sparse overlay on the game state: only the ships and cells that differ
/// from the layers below it.
pub struct StateDifference {
    ships: HashMap<usize, Ship>,
    /// Fast access for `ship_at`.
    ship_pos: HashMap<u64, usize>,
    halite: HashMap<u64, Halite>,
}

impl View for StateDifference {
    type V = DiffView;

    closed spec fn view(&self) -> DiffView {
        DiffView {
            ships: self.ships@,
            ship_pos: pos_map(self.ship_pos@),
            halite: pos_map(self.halite@),
        }
    }
}

impl Clone for StateDifference {
    fn clone(&self) -> (r: Self)
        ensures
            r@ == self@,
    {
        StateDifference {
            ships: self.ships.clone(),
            ship_pos: self.ship_pos.clone(),
            halite: self.halite.clone(),
        }
    }
}

impl StateDifference {
    pub fn new() -> (r: StateDifference)
        ensures
            r@ == DiffView::empty(),
            r@.wf(),
    {
        proof {
            lemma_pos_map_empty::<usize>();
            lemma_pos_map_empty::<Halite>();
        }
        StateDifference { ships: HashMap::new(), ship_pos: HashMap::new(), halite: HashMap::new() }
    }

    pub fn ship(&self, id: ShipId) -> (r: Option<&Ship>)
        ensures
            opt_ship(r) == if self@.ships.contains_key(id.0) {
                Some(self@.ships[id.0])
            } else {
                None
            },
    {
        self.ships.get(&id.0)
    }

    /// `previous` is the snapshot of the ship that `new` replaces; its index entry is removed.
    pub fn set_ship(&mut self, new: Ship, previous: Option<&Ship>)
        requires
            old(self)@.wf(),
            match previous {
                Some(o) => o.id == new.id,
                None => true,
            },
        ensures
            final(self)@ == old(self)@.set_ship(new, opt_ship(previous)),
            final(self)@.wf(),
    {
        let ghost sp0 = self.ship_pos@;
        if let Some(old_ship) = previous {
            let k = pos_key(&old_ship.position);
            self.ship_pos.remove(&k);
            proof {
                lemma_pos_map_remove(sp0, old_ship.position);
            }
        }
        let ghost sp_given = self.ship_pos@;
        if let Some(held) = self.ships.get(&new.id.0) {
            let hk = pos_key(&held.position);
            let indexed = match self.ship_pos.get(&hk) {
                Some(i) => *i == new.id.0,
                None => false,
            };
            if indexed {
                self.ship_pos.remove(&hk);
            }
            proof {
                lemma_pos_map_remove(sp_given, held.position);
            }
        }
        let ghost sp1 = self.ship_pos@;
        let k = pos_key(&new.position);
        self.ship_pos.insert(k, new.id.0);
        self.ships.insert(new.id.0, new);
        proof {
            lemma_pos_map_insert(sp1, new.position, new.id.0);
            let v = self@;
            let o = old(self)@;
            assert forall|p: Position| #[trigger] v.ship_pos.contains_key(p) implies v.ships.contains_key(
                v.ship_pos[p],
            ) && v.ships[v.ship_pos[p]].position == p by {
                if p != new.position {
                    assert(o.ship_pos.contains_key(p));
                    if o.ship_pos[p] == new.id.0 {
                        assert(o.ships[new.id.0].position == p);
                    }
                }
            }
        }
    }

    /// The ids of every ship of the diff.
    pub fn ship_ids(&self) -> (r: Vec<usize>)
        ensures
            forall|k: usize| #[trigger] r@.contains(k) <==> self@.ships.contains_key(k),
    {
        keys_of(&self.ships)
    }

    pub fn ship_at(&self, pos: Position) -> (r: Option<ShipId>)
        ensures
            r == if self@.ship_pos.contains_key(pos) {
                Some(ShipId(self@.ship_pos[pos]))
            } else {
                None
            },
    {
        let k = pos_key(&pos);
        match self.ship_pos.get(&k) {
            Some(id) => Some(ShipId(*id)),
            None => None,
        }
    }

    pub fn halite(&self, pos: &Position) -> (r: Option<Halite>)
        ensures
            r == if self@.halite.contains_key(*pos) {
                Some(self@.halite[*pos])
            } else {
                None
            },
    {
        let k = pos_key(pos);
        match self.halite.get(&k) {
            Some(h) => Some(*h),
            None => None,
        }
    }

    pub fn set_halite(&mut self, pos: Position, halite: Halite)
        ensures
            final(self)@ == old(self)@.set_halite(pos, halite),
            old(self)@.wf() ==> final(self)@.wf(),
    {
        let ghost h0 = self.halite@;
        let k = pos_key(&pos);
        self.halite.insert(k, halite);
        proof {
            lemma_pos_map_insert(h0, pos, halite);
            assert(self@.ship_pos == old(self)@.ship_pos);
            assert(self@.ships == old(self)@.ships);
        }
    }

    pub fn clear(&mut self)
        ensures
            final(self)@ == DiffView::empty(),
            final(self)@.wf(),
    {
        self.ships.clear();
        self.ship_pos.clear();
        self.halite.clear();
        proof {
            lemma_pos_map_empty::<usize>();
            lemma_pos_map_empty::<Halite>();
        }
    }

    /// Overwrite existing entries with those of `with`.
    pub fn extend(&mut self, with: StateDifference)
        requires
            old(self)@.wf(),
            with@.wf(),
        ensures
            final(self)@ == old(self)@.extend(with@),
            final(self)@.wf(),
    {
        let ghost sp0 = self.ship_pos@;
        let ghost o = old(self)@;
        let ghost w = with@;
        self.drop_moved_entries(&with);
        let ghost sp1 = self.ship_pos@;
        proof {
            assert(pos_map(sp1) =~= o.ship_pos.remove_keys(o.stale_in(w))) by {
                assert forall|p: Position| #[trigger] pos_map(sp1).contains_key(p) <==> o.ship_pos.remove_keys(
                    o.stale_in(w),
                ).contains_key(p) by {
                    lemma_key_position(key_of(p));
                }
            }
        }
        extend_map(&mut self.ships, &with.ships);
        extend_map(&mut self.ship_pos, &with.ship_pos);
        extend_map(&mut self.halite, &with.halite);
        proof {
            lemma_pos_map_union(sp1, with.ship_pos@);
            lemma_pos_map_union(old(self).halite@, with.halite@);
            let v = self@;
            assert(v == o.extend(w));
            assert forall|p: Position| #[trigger] v.ship_pos.contains_key(p) implies v.ships.contains_key(
                v.ship_pos[p],
            ) && v.ships[v.ship_pos[p]].position == p by {
                if !w.ship_pos.contains_key(p) {
                    assert(o.ship_pos.contains_key(p));
                    assert(!o.stale_in(w).contains(p));
                }
            }
        }
    }

    /// Removes the index entries of ships that `with` places elsewhere.
    fn drop_moved_entries(&mut self, with: &StateDifference)
        requires
            old(self)@.wf(),
        ensures
            final(self).ships == old(self).ships,
            final(self).halite == old(self).halite,
            forall|k: u64|
                #[trigger] final(self).ship_pos@.contains_key(k) <==> old(self).ship_pos@.contains_key(k)
                    && !old(self)@.stale_in(with@).contains(key_position(k)),
            forall|k: u64|
                #[trigger] final(self).ship_pos@.contains_key(k) ==> final(self).ship_pos@[k]
                    == old(self).ship_pos@[k],
    {
        let ghost sp0 = self.ship_pos@;
        let ghost whole = spec_hash_map_iter(&with.ships).remaining();
        proof {
            vstd::std_specs::hash::axiom_spec_hash_map_iter(&with.ships);
        }
        for (id, ship) in it: with.ships.iter()
            invariant
                self.ships == old(self).ships,
                self.halite == old(self).halite,
                old(self)@.wf(),
                sp0 == old(self).ship_pos@,
                it.seq() == whole,
                forall|i: int|
                    0 <= i < whole.len() ==> with.ships@.contains_key(*(#[trigger] whole[i]).0)
                        && with.ships@[*whole[i].0] == *whole[i].1,
                forall|k: u64|
                    #[trigger] self.ship_pos@.contains_key(k) <==> sp0.contains_key(k) && !(
                    key_in_prefix(whole, it.index() as int, sp0[k]) && key_of(
                        with.ships@[sp0[k]].position,
                    ) != k),
                forall|k: u64| #[trigger]
                    self.ship_pos@.contains_key(k) ==> self.ship_pos@[k] == sp0[k],
        {
            let ghost n = it.index() as int;
            proof {
                assert(whole[n] == (id, ship));
                assert forall|key: usize| key_in_prefix(whole, n + 1, key) <==> key_in_prefix(
                    whole,
                    n,
                    key,
                ) || key == *id by {
                    if key_in_prefix(whole, n + 1, key) && !key_in_prefix(whole, n, key) {
                        let i = choose|i: int| 0 <= i < n + 1 && *(#[trigger] whole[i]).0 == key;
                        assert(i == n);
                    }
                    if key == *id {
                        assert(*whole[n].0 == key);
                    }
                }
            }
            if let Some(prev) = self.ships.get(id) {
                if prev.position != ship.position {
                    let k = pos_key(&prev.position);
                    let indexed = match self.ship_pos.get(&k) {
                        Some(i) => *i == *id,
                        None => false,
                    };
                    if indexed {
                        self.ship_pos.remove(&k);
                    }
                    proof {
                        assert forall|k2: u64| key_of(with.ships@[*id].position) != k2 && sp0.contains_key(
                            k2,
                        ) && sp0[k2] == *id implies k2 == k by {
                            lemma_key_position(k2);
                            assert(pos_map(sp0).contains_key(key_position(k2)));
                            assert(pos_map(sp0)[key_position(k2)] == sp0[k2]);
                            assert(old(self)@.ship_pos.contains_key(key_position(k2)));
                            assert(old(self)@.ships[*id].position == key_position(k2));
                        }
                        lemma_key_of_injective(with.ships@[*id].position, prev.position);
                    }
                } else {
                    proof {
                        assert forall|k2: u64| sp0.contains_key(k2) && sp0[k2] == *id implies key_of(
                            with.ships@[*id].position,
                        ) == k2 by {
                            lemma_key_position(k2);
                            assert(pos_map(sp0).contains_key(key_position(k2)));
                            assert(pos_map(sp0)[key_position(k2)] == sp0[k2]);
                            assert(old(self)@.ship_pos.contains_key(key_position(k2)));
                            assert(old(self)@.ships[*id].position == key_position(k2));
                            assert(with.ships@[*whole[n].0] == *whole[n].1);
                        }
                    }
                }
            } else {
                proof {
                    assert forall|k2: u64| sp0.contains_key(k2) implies sp0[k2] != *id by {
                        lemma_key_position(k2);
                        assert(pos_map(sp0).contains_key(key_position(k2)));
                        assert(pos_map(sp0)[key_position(k2)] == sp0[k2]);
                        assert(old(self)@.ship_pos.contains_key(key_position(k2)));
                    }
                }
            }
        }
        proof {
            assert forall|k: u64| old(self)@.stale_in(with@).contains(key_position(k)) <==> sp0.contains_key(
                k,
            ) && key_in_prefix(whole, whole.len() as int, sp0[k]) && key_of(
                with.ships@[sp0[k]].position,
            ) != k by {
                lemma_key_position(k);
                if sp0.contains_key(k) && with.ships@.contains_key(sp0[k]) {
                    let key = sp0[k];
                    let i = choose|i: int| 0 <= i < whole.len() && whole[i] == (&key, &with.ships@[key]);
                    assert(*whole[i].0 == key);
                }
                if sp0.contains_key(k) && with.ships@.contains_key(sp0[k]) {
                    lemma_key_of_injective(key_position(k), with.ships@[sp0[k]].position);
                }
            }
        }
    }
}

} // verus!
