use vstd::prelude::*;
use crate::hlt::direction::{dx, dy, Direction};
use crate::hlt::position::{cell_of, wrap, wrap_coordinate, Position};
use crate::hlt::ShipId;

verus! {

/// What the engine reports about one cell.
#[derive(Clone, Copy, Debug, PartialEq, Eq, Structural)]
pub struct MapCell {
    pub halite: u32,
    pub ship: Option<ShipId>,
    /// A shipyard or a drop-off stands on the cell.
    pub has_structure: bool,
}

/// The grid as the engine reports it at the start of a turn.
/// `cells[y][x]` is the cell at column `x` of row `y`.
pub struct GameMap {
    pub width: usize,
    pub height: usize,
    pub cells: Vec<Vec<MapCell>>,
}

/// The horizontal step towards `tx` from `sx`, on a torus of width `w`, or none.
pub open spec fn horizontal_moves(sx: int, tx: int, w: int) -> Seq<Direction> {
    let d = if sx < tx { tx - sx } else { sx - tx };
    let wrapped = w - d;
    if sx < tx {
        seq![if d > wrapped { Direction::West } else { Direction::East }]
    } else if sx > tx {
        seq![if d < wrapped { Direction::West } else { Direction::East }]
    } else {
        seq![]
    }
}

/// The vertical step towards `ty` from `sy`, on a torus of height `h`, or none.
pub open spec fn vertical_moves(sy: int, ty: int, h: int) -> Seq<Direction> {
    let d = if sy < ty { ty - sy } else { sy - ty };
    let wrapped = h - d;
    if sy < ty {
        seq![if d > wrapped { Direction::North } else { Direction::South }]
    } else if sy > ty {
        seq![if d < wrapped { Direction::North } else { Direction::South }]
    } else {
        seq![]
    }
}

impl GameMap {
    /// The grid is non-empty and rectangular, and its sides fit in `i32`.
    pub open spec fn wf(&self) -> bool {
        &&& 1 <= self.width <= i32::MAX
        &&& 1 <= self.height <= i32::MAX
        &&& self.cells@.len() == self.height
        &&& forall|y: int| 0 <= y < self.height ==> #[trigger] self.cells@[y]@.len() == self.width
    }

    /// The cell that `p` denotes.
    pub open spec fn cell_at(&self, p: Position) -> MapCell {
        let c = cell_of(p, self.width as int, self.height as int);
        self.cells@[c.1]@[c.0]
    }

    /// The position of the cell that `p` denotes, with coordinates in range.
    pub open spec fn normalized(&self, p: Position) -> Position {
        Position {
            x: wrap(p.x as int, self.width as int) as i32,
            y: wrap(p.y as int, self.height as int) as i32,
        }
    }

    /// The cell one step from the one `p` denotes, with coordinates in range.
    pub open spec fn neighbour_of(&self, p: Position, d: Direction) -> Position {
        let c = self.normalized(p);
        self.normalized(Position { x: (c.x + dx(d)) as i32, y: (c.y + dy(d)) as i32 })
    }

    /// Computes `neighbour_of`.
    pub fn neighbour(&self, p: &Position, d: Direction) -> (r: Position)
        requires
            self.wf(),
        ensures
            r == self.neighbour_of(*p, d),
            0 <= r.x < self.width,
            0 <= r.y < self.height,
    {
        let c = self.normalize(p);
        let step = c.directional_offset(d);
        self.normalize(&step)
    }

    /// Computes `normalized`.
    pub fn normalize(&self, p: &Position) -> (r: Position)
        requires
            self.wf(),
        ensures
            r == self.normalized(*p),
            0 <= r.x < self.width,
            0 <= r.y < self.height,
    {
        Position {
            x: wrap_coordinate(p.x, self.width as i32),
            y: wrap_coordinate(p.y, self.height as i32),
        }
    }

    pub fn at_position(&self, p: &Position) -> (r: &MapCell)
        requires
            self.wf(),
        ensures
            *r == self.cell_at(*p),
    {
        let n = self.normalize(p);
        &self.cells[n.y as usize][n.x as usize]
    }

    /// The amount of resource on every cell, indexed `[y][x]`.
    pub fn get_halite_map(&self) -> (r: Vec<Vec<u32>>)
        requires
            self.wf(),
        ensures
            r@.len() == self.height,
            forall|y: int|
                0 <= y < self.height ==> (#[trigger] r@[y])@.len() == self.width,
            forall|y: int, x: int|
                0 <= y < self.height && 0 <= x < self.width ==> #[trigger] r@[y]@[x]
                    == self.cells@[y]@[x].halite,
    {
        let mut r: Vec<Vec<u32>> = Vec::new();
        let mut y: usize = 0;
        while y < self.height
            invariant
                self.wf(),
                y <= self.height,
                r@.len() == y,
                forall|i: int| 0 <= i < y ==> (#[trigger] r@[i])@.len() == self.width,
                forall|i: int, x: int|
                    0 <= i < y && 0 <= x < self.width ==> #[trigger] r@[i]@[x]
                        == self.cells@[i]@[x].halite,
            decreases self.height - y,
        {
            let row = &self.cells[y];
            let mut out: Vec<u32> = Vec::new();
            let mut x: usize = 0;
            while x < self.width
                invariant
                    self.wf(),
                    y < self.height,
                    row@ == self.cells@[y as int]@,
                    x <= self.width,
                    out@.len() == x,
                    forall|j: int| 0 <= j < x ==> #[trigger] out@[j] == row@[j].halite,
                decreases self.width - x,
            {
                out.push(row[x].halite);
                x = x + 1;
            }
            r.push(out);
            y = y + 1;
        }
        r
    }

    /// The directions that bring `source` closer to `destination`.
    pub fn get_unsafe_moves(&self, source: &Position, destination: &Position) -> (r: Vec<
        Direction,
    >)
        requires
            self.wf(),
        ensures
            r@ == moves_towards(self.width as int, self.height as int, *source, *destination),
    {
        unsafe_moves(self.width, self.height, source, destination)
    }
}

/// At most one horizontal and one vertical step from `source` towards
/// `destination`, each the shorter way round the torus.
pub open spec fn moves_towards(width: int, height: int, source: Position, destination: Position) -> Seq<
    Direction,
> {
    horizontal_moves(wrap(source.x as int, width), wrap(destination.x as int, width), width)
        + vertical_moves(wrap(source.y as int, height), wrap(destination.y as int, height), height)
}

/// Computes `moves_towards`.
pub fn unsafe_moves(width: usize, height: usize, source: &Position, destination: &Position) -> (r:
    Vec<Direction>)
    requires
        1 <= width <= i32::MAX,
        1 <= height <= i32::MAX,
    ensures
        r@ == moves_towards(width as int, height as int, *source, *destination),
{
    let w = width as i32;
    let h = height as i32;
    let sx = wrap_coordinate(source.x, w);
    let sy = wrap_coordinate(source.y, h);
    let tx = wrap_coordinate(destination.x, w);
    let ty = wrap_coordinate(destination.y, h);
    let mut r: Vec<Direction> = Vec::new();
    let dx = if sx < tx { tx - sx } else { sx - tx };
    let wrapped_dx = w - dx;
    if sx < tx {
        r.push(if dx > wrapped_dx { Direction::West } else { Direction::East });
    } else if sx > tx {
        r.push(if dx < wrapped_dx { Direction::West } else { Direction::East });
    }
    let dy = if sy < ty { ty - sy } else { sy - ty };
    let wrapped_dy = h - dy;
    if sy < ty {
        r.push(if dy > wrapped_dy { Direction::North } else { Direction::South });
    } else if sy > ty {
        r.push(if dy < wrapped_dy { Direction::North } else { Direction::South });
    }
    proof {
        assert(r@ =~= horizontal_moves(sx as int, tx as int, w as int) + vertical_moves(
            sy as int,
            ty as int,
            h as int,
        ));
    }
    r
}

} // verus!
