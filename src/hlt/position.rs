use vstd::prelude::*;
use crate::hlt::direction::{dx, dy, Direction};

verus! {

/// A point on the grid. Coordinates are not kept reduced: the cell a
/// position denotes is found by wrapping it around the torus.
#[derive(Clone, Copy, Debug, PartialEq, Eq, Structural, Hash)]
pub struct Position {
    pub x: i32,
    pub y: i32,
}

/// `v` reduced into `[0, n)`.
pub open spec fn wrap(v: int, n: int) -> int {
    v % n
}

/// The position after one mathematical step in `d`, without any bound.
pub open spec fn step_x(p: Position, d: Direction) -> int {
    p.x + dx(d)
}

pub open spec fn step_y(p: Position, d: Direction) -> int {
    p.y + dy(d)
}

/// Whether a step from `p` in `d` stays within `i32`.
pub open spec fn offset_fits(p: Position, d: Direction) -> bool {
    i32::MIN <= step_x(p, d) <= i32::MAX && i32::MIN <= step_y(p, d) <= i32::MAX
}

/// The cell that `p` denotes on a `width` x `height` torus.
pub open spec fn cell_of(p: Position, width: int, height: int) -> (int, int) {
    (wrap(p.x as int, width), wrap(p.y as int, height))
}

/// Reduces `v` into `[0, n)` on the torus.
pub fn wrap_coordinate(v: i32, n: i32) -> (r: i32)
    requires
        n > 0,
    ensures
        r == wrap(v as int, n as int),
        0 <= r < n,
{
    if v >= 0 {
        let a = (v as u32) % (n as u32);
        a as i32
    } else {
        let k = (0i64 - v as i64) as u64;
        let m = k % (n as u64);
        proof {
            let q = k as int / n as int;
            assert(k as int == q * n + m) by (nonlinear_arith)
                requires
                    n > 0,
                    q == k as int / n as int,
                    m == k as int % n as int,
            ;
            if m == 0 {
                assert(v as int == (-q) * n) by (nonlinear_arith)
                    requires
                        v as int == -(k as int),
                        k as int == q * n + m,
                        m == 0,
                ;
                vstd::arithmetic::div_mod::lemma_mod_multiples_basic(-q, n as int);
            } else {
                assert(v as int == (-q - 1) * n + (n - m)) by (nonlinear_arith)
                    requires
                        v as int == -(k as int),
                        k as int == q * n + m,
                ;
                vstd::arithmetic::div_mod::lemma_fundamental_div_mod_converse(
                    v as int,
                    n as int,
                    -q - 1,
                    n - m,
                );
            }
        }
        if m == 0 {
            0
        } else {
            n - m as i32
        }
    }
}

impl Position {
    /// The position one step away in `d`.
    pub fn directional_offset(&self, d: Direction) -> (r: Position)
        requires
            offset_fits(*self, d),
        ensures
            r.x == step_x(*self, d),
            r.y == step_y(*self, d),
    {
        match d {
            Direction::North => Position { x: self.x, y: self.y - 1 },
            Direction::East => Position { x: self.x + 1, y: self.y },
            Direction::South => Position { x: self.x, y: self.y + 1 },
            Direction::West => Position { x: self.x - 1, y: self.y },
            Direction::Still => *self,
        }
    }
}

/// The key under which a position is stored in hash tables: both coordinates
/// shifted to be non-negative and packed into one `u64`.
pub open spec fn key_of(p: Position) -> u64 {
    ((p.x + 0x8000_0000) * 0x1_0000_0000 + (p.y + 0x8000_0000)) as u64
}

/// Distinct positions have distinct keys, and every key is the key of one position.
pub proof fn lemma_key_of_injective(a: Position, b: Position)
    ensures
        key_of(a) == key_of(b) <==> a == b,
{
    let ax = a.x + 0x8000_0000;
    let ay = a.y + 0x8000_0000;
    let bx = b.x + 0x8000_0000;
    let by = b.y + 0x8000_0000;
    assert(0 <= ax * 0x1_0000_0000 + ay < 0x1_0000_0000_0000_0000) by (nonlinear_arith)
        requires
            0 <= ax < 0x1_0000_0000,
            0 <= ay < 0x1_0000_0000,
    ;
    assert(0 <= bx * 0x1_0000_0000 + by < 0x1_0000_0000_0000_0000) by (nonlinear_arith)
        requires
            0 <= bx < 0x1_0000_0000,
            0 <= by < 0x1_0000_0000,
    ;
    if ax * 0x1_0000_0000 + ay == bx * 0x1_0000_0000 + by {
        vstd::arithmetic::div_mod::lemma_fundamental_div_mod_converse(
            ax * 0x1_0000_0000 + ay,
            0x1_0000_0000,
            ax,
            ay,
        );
        vstd::arithmetic::div_mod::lemma_fundamental_div_mod_converse(
            bx * 0x1_0000_0000 + by,
            0x1_0000_0000,
            bx,
            by,
        );
    }
}

/// Computes `key_of`.
pub fn pos_key(p: &Position) -> (k: u64)
    ensures
        k == key_of(*p),
{
    let hx = (p.x as i64 + 0x8000_0000) as u64;
    let hy = (p.y as i64 + 0x8000_0000) as u64;
    assert(hx * 0x1_0000_0000 + hy < 0x1_0000_0000_0000_0000) by (nonlinear_arith)
        requires
            hx < 0x1_0000_0000,
            hy < 0x1_0000_0000,
    ;
    hx * 0x1_0000_0000 + hy
}

} // verus!
