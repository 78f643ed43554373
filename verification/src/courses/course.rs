//! The `Course` record and its components. Courses are immutable once the
//! catalog is built; a course's id is its position in the catalog.

use vstd::prelude::*;

verus! {

/// Game from which a given `Course` originated.
#[derive(Clone, Copy, Debug, PartialEq, Eq, Structural)]
#[non_exhaustive]
pub enum Origin {
    /// Super Nintendo.
    SNES,
    /// Game Boy Advance.
    GBA,
    /// Nintendo 64.
    N64,
    /// GameCube.
    GCN,
    /// Nintendo DS.
    DS,
    /// Wii.
    Wii,
    /// Nintendo 3DS.
    TDS,
    /// Mario Kart Tour.
    Tour,
    /// Mario Kart 8.
    MK8,
}

/// A coordinate in the selection screen: row and column give a cup, and
/// position is the number of the course in that cup.
#[derive(Clone, Copy, Debug, PartialEq, Eq, Structural)]
pub struct Coord {
    /// Row of the cup in the selection screen.
    pub row: u8,
    /// Column of the cup in the selection screen.
    pub col: u8,
    /// Position of the course within its cup.
    pub pos: u8,
}

impl Coord {
    /// Create a new coordinate.
    pub fn new(row: u8, col: u8, pos: u8) -> (r: Coord)
        ensures
            r == (Coord { row, col, pos }),
    {
        Coord { row, col, pos }
    }
}

/// A course.
#[derive(Clone, Debug)]
pub struct Course {
    /// The course's name, e.g. "Rainbow Road."
    pub name: String,
    /// The game from which the course originated.
    pub origin: Origin,
    /// The course's position in the selection screen.
    pub coord: Coord,
    /// The course's quality ranking relative to other courses. This should be
    /// unique, descending, and start at 1: if there are N courses in the
    /// catalog, 1 is the best and N is the worst.
    pub rank: usize,
}

impl Course {
    /// Create a new course.
    pub fn new(rank: usize, coord: Coord, origin: Origin, name: &str) -> (r: Course)
        ensures
            r.name@ == name@,
            r.origin == origin,
            r.coord == coord,
            r.rank == rank,
    {
        Course { name: name.to_owned(), origin, coord, rank }
    }
}

} // verus!
