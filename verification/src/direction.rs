//! The six axis-aligned face directions, with their unit offset vectors,
//! stable ordinals, and canonical names.
use vstd::prelude::*;

verus! {

/// One of the six axis-aligned orientations a block face can have.
#[allow(non_camel_case_types)]
#[derive(Hash, Eq, PartialEq, Structural, Debug, Clone, Copy)]
pub enum Direction {
    UP,
    DOWN,
    NORTH,
    WEST,
    SOUTH,
    EAST,
}

/// The stable small ordinal of each direction.
pub open spec fn dir_ordinal(d: Direction) -> int {
    match d {
        Direction::UP => 0,
        Direction::DOWN => 1,
        Direction::NORTH => 2,
        Direction::SOUTH => 3,
        Direction::WEST => 4,
        Direction::EAST => 5,
    }
}

/// The direction registered under each ordinal; inverse of `dir_ordinal`.
pub open spec fn dir_of(id: int) -> Direction {
    if id == 0 {
        Direction::UP
    } else if id == 1 {
        Direction::DOWN
    } else if id == 2 {
        Direction::NORTH
    } else if id == 3 {
        Direction::SOUTH
    } else if id == 4 {
        Direction::WEST
    } else {
        Direction::EAST
    }
}

/// The unit offset vector pointing out of a face with this direction.
pub open spec fn dir_offset(d: Direction) -> (int, int, int) {
    match d {
        Direction::UP => (0, 1, 0),
        Direction::DOWN => (0, -1, 0),
        Direction::NORTH => (0, 0, -1),
        Direction::SOUTH => (0, 0, 1),
        Direction::WEST => (1, 0, 0),
        Direction::EAST => (-1, 0, 0),
    }
}

/// The canonical name of each direction.
pub open spec fn dir_name(d: Direction) -> Seq<char> {
    match d {
        Direction::UP => "up"@,
        Direction::DOWN => "down"@,
        Direction::NORTH => "north"@,
        Direction::SOUTH => "south"@,
        Direction::WEST => "west"@,
        Direction::EAST => "east"@,
    }
}

impl Direction {
    /// Looks a direction up by its ordinal. Ordinals outside the closed set
    /// are a fatal misuse, so they are ruled out up front.
    pub fn get(id: u8) -> (r: Direction)
        requires
            id < 6,
        ensures
            r == dir_of(id as int),
            dir_ordinal(r) == id,
    {
        match id {
            0 => Direction::UP,
            1 => Direction::DOWN,
            2 => Direction::NORTH,
            3 => Direction::SOUTH,
            4 => Direction::WEST,
            _ => Direction::EAST,
        }
    }

    /// The unit offset vector of this direction.
    pub fn get_vec(&self) -> (r: (i8, i8, i8))
        ensures
            (r.0 as int, r.1 as int, r.2 as int) == dir_offset(*self),
    {
        match self {
            Direction::UP => (0, 1, 0),
            Direction::DOWN => (0, -1, 0),
            Direction::NORTH => (0, 0, -1),
            Direction::SOUTH => (0, 0, 1),
            Direction::WEST => (1, 0, 0),
            Direction::EAST => (-1, 0, 0),
        }
    }

    /// The stable ordinal of this direction.
    pub fn get_id(&self) -> (r: u8)
        ensures
            r as int == dir_ordinal(*self),
            dir_of(r as int) == *self,
    {
        match self {
            Direction::UP => 0,
            Direction::DOWN => 1,
            Direction::NORTH => 2,
            Direction::SOUTH => 3,
            Direction::WEST => 4,
            Direction::EAST => 5,
        }
    }

    /// The canonical name of this direction.
    pub fn get_string(&self) -> (r: String)
        ensures
            r@ == dir_name(*self),
    {
        match self {
            Direction::UP => "up".to_owned(),
            Direction::DOWN => "down".to_owned(),
            Direction::NORTH => "north".to_owned(),
            Direction::SOUTH => "south".to_owned(),
            Direction::WEST => "west".to_owned(),
            Direction::EAST => "east".to_owned(),
        }
    }
}

} // verus!
