//! The eight compass directions, with their grid offsets and opposites.

use vstd::prelude::*;

verus! {

/// A compass direction. Cardinal directions tag room sides and door facings;
/// the diagonals appear only in the cave boundary walk.
#[derive(PartialEq, Eq, Structural, Debug, Clone, Copy, Hash)]
pub enum Direction {
    North,
    NorthEast,
    East,
    SouthEast,
    South,
    SouthWest,
    West,
    NorthWest,
}

impl Direction {
    /// The unit grid offset of this direction; north is negative y.
    pub open spec fn offset_spec(self) -> (int, int) {
        match self {
            Direction::North => (0, -1),
            Direction::NorthEast => (1, -1),
            Direction::East => (1, 0),
            Direction::SouthEast => (1, 1),
            Direction::South => (0, 1),
            Direction::SouthWest => (-1, 1),
            Direction::West => (-1, 0),
            Direction::NorthWest => (-1, -1),
        }
    }

    pub open spec fn opposite_spec(self) -> Direction {
        match self {
            Direction::North => Direction::South,
            Direction::NorthEast => Direction::SouthWest,
            Direction::East => Direction::West,
            Direction::SouthEast => Direction::NorthWest,
            Direction::South => Direction::North,
            Direction::SouthWest => Direction::NorthEast,
            Direction::West => Direction::East,
            Direction::NorthWest => Direction::SouthEast,
        }
    }

    /// True for the four axis-aligned directions.
    pub open spec fn is_cardinal(self) -> bool {
        match self {
            Direction::North | Direction::East | Direction::South | Direction::West => true,
            _ => false,
        }
    }

    /// The position of this direction in the clockwise order.
    pub open spec fn index_spec(self) -> int {
        match self {
            Direction::North => 0,
            Direction::NorthEast => 1,
            Direction::East => 2,
            Direction::SouthEast => 3,
            Direction::South => 4,
            Direction::SouthWest => 5,
            Direction::West => 6,
            Direction::NorthWest => 7,
        }
    }

    /// The sequence of all eight directions, clockwise from north.
    pub open spec fn all_spec() -> Seq<Direction> {
        seq![
            Direction::North,
            Direction::NorthEast,
            Direction::East,
            Direction::SouthEast,
            Direction::South,
            Direction::SouthWest,
            Direction::West,
            Direction::NorthWest,
        ]
    }

    /// All eight directions, clockwise from north.
    pub fn iterator() -> (r: Vec<Direction>)
        ensures
            r@ == Direction::all_spec(),
    {
        let mut dirs: Vec<Direction> = Vec::new();
        dirs.push(Direction::North);
        dirs.push(Direction::NorthEast);
        dirs.push(Direction::East);
        dirs.push(Direction::SouthEast);
        dirs.push(Direction::South);
        dirs.push(Direction::SouthWest);
        dirs.push(Direction::West);
        dirs.push(Direction::NorthWest);
        proof {
            assert(dirs@ =~= Direction::all_spec());
        }
        dirs
    }

    /// The four cardinal directions, clockwise from north.
    pub fn compass() -> (r: Vec<Direction>)
        ensures
            r@ == seq![Direction::North, Direction::East, Direction::South, Direction::West],
            forall|i: int| 0 <= i < r@.len() ==> (#[trigger] r@[i]).is_cardinal(),
    {
        let mut dirs: Vec<Direction> = Vec::new();
        dirs.push(Direction::North);
        dirs.push(Direction::East);
        dirs.push(Direction::South);
        dirs.push(Direction::West);
        proof {
            assert(dirs@ =~= seq![
                Direction::North,
                Direction::East,
                Direction::South,
                Direction::West,
            ]);
        }
        dirs
    }

    /// The unit grid offset of this direction as integers.
    pub fn to_tup(self) -> (r: (i64, i64))
        ensures
            (r.0 as int, r.1 as int) == self.offset_spec(),
    {
        match self {
            Direction::North => (0, -1),
            Direction::NorthEast => (1, -1),
            Direction::East => (1, 0),
            Direction::SouthEast => (1, 1),
            Direction::South => (0, 1),
            Direction::SouthWest => (-1, 1),
            Direction::West => (-1, 0),
            Direction::NorthWest => (-1, -1),
        }
    }

    /// Steps the grid coordinate `other` one cell in this direction.
    pub fn dir_from_tup(self, other: (i64, i64)) -> (r: (i64, i64))
        requires
            -0x4000_0000_0000_0000 < other.0 < 0x4000_0000_0000_0000,
            -0x4000_0000_0000_0000 < other.1 < 0x4000_0000_0000_0000,
        ensures
            r.0 == other.0 + self.offset_spec().0,
            r.1 == other.1 + self.offset_spec().1,
    {
        let modifier = self.to_tup();
        (other.0 + modifier.0, other.1 + modifier.1)
    }

    /// The cardinal direction a unit contact normal points in.
    /// The normal must be exactly axis-aligned; the collision model only
    /// produces such normals.
    pub fn from_normal(norm: (i64, i64)) -> (r: Direction)
        requires
            (norm.0 == 1 && norm.1 == 0) || (norm.0 == 0 && norm.1 == 1) || (norm.0 == -1
                && norm.1 == 0) || (norm.0 == 0 && norm.1 == -1),
        ensures
            r.is_cardinal(),
            r.offset_spec() == (norm.0 as int, norm.1 as int),
    {
        if norm.0 == 1 {
            Direction::East
        } else if norm.1 == 1 {
            Direction::South
        } else if norm.0 == -1 {
            Direction::West
        } else {
            Direction::North
        }
    }

    pub fn opposite(self) -> (r: Direction)
        ensures
            r == self.opposite_spec(),
    {
        match self {
            Direction::North => Direction::South,
            Direction::NorthEast => Direction::SouthWest,
            Direction::East => Direction::West,
            Direction::SouthEast => Direction::NorthWest,
            Direction::South => Direction::North,
            Direction::SouthWest => Direction::NorthEast,
            Direction::West => Direction::East,
            Direction::NorthWest => Direction::SouthEast,
        }
    }
}

} // verus!
