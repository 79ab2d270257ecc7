use vstd::prelude::*;
use std::collections::HashMap;
use std::hash::Hash;
use vstd::std_specs::hash::{obeys_key_model, spec_hash_map_iter};
use vstd::std_specs::iter::IteratorSpec;
use crate::hlt::position::{key_of, lemma_key_of_injective, Position};

verus! {

broadcast use vstd::std_specs::hash::group_hash_axioms;

/// Whether one of the first `n` entries of `s` has the key `key`.
pub open spec fn key_in_prefix<K, V>(s: Seq<(&K, &V)>, n: int, key: K) -> bool {
    exists|i: int| 0 <= i < n && *(#[trigger] s[i]).0 == key
}

/// Copies every entry of `src` into `dst`, overwriting entries with the same key.
pub fn extend_map<K: Copy + Eq + Hash, V: Copy>(dst: &mut HashMap<K, V>, src: &HashMap<K, V>)
    requires
        obeys_key_model::<K>(),
    ensures
        final(dst)@ == old(dst)@.union_prefer_right(src@),
{
    let ghost d0 = dst@;
    let ghost whole = spec_hash_map_iter(src).remaining();
    proof {
        vstd::std_specs::hash::axiom_spec_hash_map_iter(src);
    }
    for (k, v) in it: src.iter()
        invariant
            obeys_key_model::<K>(),
            it.seq() == whole,
            forall|i: int|
                0 <= i < whole.len() ==> src@.contains_key(*(#[trigger] whole[i]).0) && src@[*whole[i].0]
                    == *whole[i].1,
            forall|key: K|
                #[trigger] dst@.contains_key(key) <==> d0.contains_key(key) || key_in_prefix(
                    whole,
                    it.index() as int,
                    key,
                ),
            forall|key: K|
                #[trigger] dst@.contains_key(key) ==> dst@[key] == if key_in_prefix(
                    whole,
                    it.index() as int,
                    key,
                ) {
                    src@[key]
                } else {
                    d0[key]
                },
    {
        let ghost n = it.index() as int;
        proof {
            assert(whole[n] == (k, v));
            assert forall|key: K| key_in_prefix(whole, n + 1, key) <==> key_in_prefix(whole, n, key)
                || key == *k by {
                if key_in_prefix(whole, n + 1, key) && !key_in_prefix(whole, n, key) {
                    let i = choose|i: int| 0 <= i < n + 1 && *(#[trigger] whole[i]).0 == key;
                    assert(i == n);
                }
                if key == *k {
                    assert(*whole[n].0 == key);
                }
            }
        }
        dst.insert(*k, *v);
    }
    proof {
        assert forall|key: K| src@.contains_key(key) implies key_in_prefix(
            whole,
            whole.len() as int,
            key,
        ) by {
            let i = choose|i: int| 0 <= i < whole.len() && whole[i] == (&key, &src@[key]);
            assert(*whole[i].0 == key);
        }
        assert(dst@ =~= d0.union_prefer_right(src@));
    }
}

/// Every key of the table, in some order.
pub fn keys_of<V>(m: &HashMap<usize, V>) -> (r: Vec<usize>)
    ensures
        forall|k: usize| #[trigger] r@.contains(k) <==> m@.contains_key(k),
{
    let ghost whole = spec_hash_map_iter(m).remaining();
    proof {
        vstd::std_specs::hash::axiom_spec_hash_map_iter(m);
    }
    let mut r: Vec<usize> = Vec::new();
    for (k, v) in it: m.iter()
        invariant
            it.seq() == whole,
            forall|i: int|
                0 <= i < whole.len() ==> m@.contains_key(*(#[trigger] whole[i]).0),
            r@.len() == it.index(),
            forall|i: int| 0 <= i < r@.len() ==> #[trigger] r@[i] == *whole[i].0,
    {
        r.push(*k);
    }
    proof {
        assert forall|k: usize| #[trigger] r@.contains(k) <==> m@.contains_key(k) by {
            if r@.contains(k) {
                let i = choose|i: int| 0 <= i < r@.len() && r@[i] == k;
                assert(m@.contains_key(*whole[i].0));
            }
            if m@.contains_key(k) {
                let i = choose|i: int| 0 <= i < whole.len() && whole[i] == (&k, &m@[k]);
                assert(r@[i] == k);
            }
        }
    }
    r
}

/// The position whose key is `k`.
pub open spec fn key_position(k: u64) -> Position {
    Position {
        x: (k as int / 0x1_0000_0000 - 0x8000_0000) as i32,
        y: (k as int % 0x1_0000_0000 - 0x8000_0000) as i32,
    }
}

/// Every key is the key of a position.
pub proof fn lemma_key_position(k: u64)
    ensures
        key_of(key_position(k)) == k,
{
    let q = k as int / 0x1_0000_0000;
    let r = k as int % 0x1_0000_0000;
    vstd::arithmetic::div_mod::lemma_fundamental_div_mod(k as int, 0x1_0000_0000);
    assert(q < 0x1_0000_0000) by (nonlinear_arith)
        requires
            k as int == 0x1_0000_0000 * q + r,
            0 <= r,
            k < 0x1_0000_0000_0000_0000,
    ;
    assert(0 <= q) by (nonlinear_arith)
        requires
            k as int == 0x1_0000_0000 * q + r,
            r < 0x1_0000_0000,
            k >= 0,
    ;
}

/// A table keyed by `key_of`, seen as a map over positions.
pub open spec fn pos_map<V>(m: Map<u64, V>) -> Map<Position, V> {
    Map::new(|p: Position| m.contains_key(key_of(p)), |p: Position| m[key_of(p)])
}

pub proof fn lemma_pos_map_empty<V>()
    ensures
        pos_map(Map::<u64, V>::empty()) == Map::<Position, V>::empty(),
{
    assert(pos_map(Map::<u64, V>::empty()) =~= Map::<Position, V>::empty());
}

pub proof fn lemma_pos_map_insert<V>(m: Map<u64, V>, p: Position, v: V)
    ensures
        pos_map(m.insert(key_of(p), v)) == pos_map(m).insert(p, v),
{
    assert forall|q: Position| key_of(q) == key_of(p) <==> q == p by {
        lemma_key_of_injective(q, p);
    }
    assert(pos_map(m.insert(key_of(p), v)) =~= pos_map(m).insert(p, v));
}

pub proof fn lemma_pos_map_remove<V>(m: Map<u64, V>, p: Position)
    ensures
        pos_map(m.remove(key_of(p))) == pos_map(m).remove(p),
{
    assert forall|q: Position| key_of(q) == key_of(p) <==> q == p by {
        lemma_key_of_injective(q, p);
    }
    assert(pos_map(m.remove(key_of(p))) =~= pos_map(m).remove(p));
}

pub proof fn lemma_pos_map_union<V>(a: Map<u64, V>, b: Map<u64, V>)
    ensures
        pos_map(a.union_prefer_right(b)) == pos_map(a).union_prefer_right(pos_map(b)),
{
    assert(pos_map(a.union_prefer_right(b)) =~= pos_map(a).union_prefer_right(pos_map(b)));
}

/// A set of keys seen as a set of positions.
pub open spec fn pos_set(s: Set<u64>) -> Set<Position> {
    Set::new(|p: Position| s.contains(key_of(p)))
}

pub proof fn lemma_pos_set_empty()
    ensures
        pos_set(Set::<u64>::empty()) == Set::<Position>::empty(),
{
    assert(pos_set(Set::<u64>::empty()) =~= Set::<Position>::empty());
}

pub proof fn lemma_pos_set_insert(s: Set<u64>, p: Position)
    ensures
        pos_set(s.insert(key_of(p))) == pos_set(s).insert(p),
{
    assert forall|q: Position| key_of(q) == key_of(p) <==> q == p by {
        lemma_key_of_injective(q, p);
    }
    assert(pos_set(s.insert(key_of(p))) =~= pos_set(s).insert(p));
}

} // verus!
