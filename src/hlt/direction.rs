use vstd::prelude::*;

verus! {

/// One of the four cardinal steps, or staying on the same cell.
#[derive(Clone, Copy, Debug, PartialEq, Eq, Structural, Hash)]
pub enum Direction {
    North,
    East,
    South,
    West,
    Still,
}

/// Horizontal change of a step in `d`.
pub open spec fn dx(d: Direction) -> int {
    match d {
        Direction::East => 1,
        Direction::West => -1,
        _ => 0,
    }
}

/// Vertical change of a step in `d` (north is towards smaller `y`).
pub open spec fn dy(d: Direction) -> int {
    match d {
        Direction::North => -1,
        Direction::South => 1,
        _ => 0,
    }
}

impl Direction {
    /// The four directions that leave the cell.
    pub fn get_all_cardinals() -> (r: Vec<Direction>)
        ensures
            r@ == seq![Direction::North, Direction::South, Direction::East, Direction::West],
    {
        vec![Direction::North, Direction::South, Direction::East, Direction::West]
    }

    /// The letter that encodes the direction in a move command.
    pub fn get_char_encoding(&self) -> (r: char)
        ensures
            r == match *self {
                Direction::North => 'n',
                Direction::East => 'e',
                Direction::South => 's',
                Direction::West => 'w',
                Direction::Still => 'o',
            },
    {
        match self {
            Direction::North => 'n',
            Direction::East => 'e',
            Direction::South => 's',
            Direction::West => 'w',
            Direction::Still => 'o',
        }
    }
}

} // verus!
