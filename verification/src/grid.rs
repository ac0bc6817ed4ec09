//! Grid geometry: headings, coordinates and the arena.

use vstd::prelude::*;

verus! {

/// One of the four cardinal headings a player can move in.
#[derive(Clone, Copy, PartialEq, Eq, Hash, Debug, Structural)]
pub enum Direction {
    Left,
    Right,
    Up,
    Down,
}

impl Direction {
    /// The heading pointing the opposite way: Left <-> Right, Up <-> Down.
    pub open spec fn opposite_spec(self) -> Direction {
        match self {
            Direction::Left => Direction::Right,
            Direction::Right => Direction::Left,
            Direction::Up => Direction::Down,
            Direction::Down => Direction::Up,
        }
    }

    /// Executable counterpart of `opposite_spec`.
    pub fn opposite(self) -> (r: Direction)
        ensures
            r == self.opposite_spec(),
    {
        match self {
            Direction::Left => Direction::Right,
            Direction::Right => Direction::Left,
            Direction::Up => Direction::Down,
            Direction::Down => Direction::Up,
        }
    }

    /// `opposite` is an involution: applying it twice yields the original.
    pub proof fn lemma_opposite_involutive(self)
        ensures
            self.opposite_spec().opposite_spec() == self,
    {
    }

    /// No heading is its own opposite.
    pub proof fn lemma_opposite_changes(self)
        ensures
            self.opposite_spec() != self,
    {
    }
}

/// A discrete position on the arena grid.  Equality is structural: two
/// coordinates are equal exactly when both components match.
#[derive(Clone, Copy, PartialEq, Eq, Hash, Debug, Structural)]
pub struct GridCoordinate {
    pub x: i64,
    pub y: i64,
}

/// The fixed playing field: a `width` x `height` rectangle whose cells are
/// `pitch` units apart.  All motion is pitch-aligned, so every position a
/// player ever occupies is an integer multiple of `pitch` on both axes.
#[derive(Clone, Copy, PartialEq, Eq, Debug, Structural)]
pub struct Arena {
    pub pitch: i64,
    pub width: i64,
    pub height: i64,
}

impl GridCoordinate {
    /// The coordinate one `pitch` away in direction `d`.  Up decreases `y`
    /// and Down increases it, matching screen conventions.
    pub open spec fn translate_spec(self, d: Direction, pitch: i64) -> GridCoordinate {
        match d {
            Direction::Left => GridCoordinate { x: (self.x - pitch) as i64, y: self.y },
            Direction::Right => GridCoordinate { x: (self.x + pitch) as i64, y: self.y },
            Direction::Up => GridCoordinate { x: self.x, y: (self.y - pitch) as i64 },
            Direction::Down => GridCoordinate { x: self.x, y: (self.y + pitch) as i64 },
        }
    }

    /// Executable counterpart of `translate_spec`; exact because the caller
    /// guarantees the offset stays within the machine range.
    pub fn translate(self, d: Direction, pitch: i64) -> (r: GridCoordinate)
        requires
            0 <= pitch,
            i64::MIN <= self.x - pitch,
            self.x + pitch <= i64::MAX,
            i64::MIN <= self.y - pitch,
            self.y + pitch <= i64::MAX,
        ensures
            r == self.translate_spec(d, pitch),
    {
        match d {
            Direction::Left => GridCoordinate { x: self.x - pitch, y: self.y },
            Direction::Right => GridCoordinate { x: self.x + pitch, y: self.y },
            Direction::Up => GridCoordinate { x: self.x, y: self.y - pitch },
            Direction::Down => GridCoordinate { x: self.x, y: self.y + pitch },
        }
    }
}

impl Arena {
    /// A well-formed arena: a positive pitch that divides both extents, room
    /// for at least one cell, and extents small enough that one pitch of
    /// motion can never overflow a machine integer.
    pub open spec fn wf(self) -> bool {
        &&& 0 < self.pitch
        &&& self.pitch <= self.width <= 0x1000_0000
        &&& self.pitch <= self.height <= 0x1000_0000
        &&& self.width % self.pitch == 0
        &&& self.height % self.pitch == 0
    }

    /// Is `c` inside the playing field?
    pub open spec fn in_bounds_spec(self, c: GridCoordinate) -> bool {
        &&& 0 <= c.x < self.width
        &&& 0 <= c.y < self.height
    }

    /// Is `c` aligned to the grid pitch on both axes?
    pub open spec fn aligned_spec(self, c: GridCoordinate) -> bool {
        &&& c.x % self.pitch == 0
        &&& c.y % self.pitch == 0
    }

    /// A coordinate the simulation may ever hold: in bounds and on the grid.
    pub open spec fn valid_spec(self, c: GridCoordinate) -> bool {
        self.in_bounds_spec(c) && self.aligned_spec(c)
    }

    /// Builds an arena, rejecting any combination of pitch and extents that
    /// is not well-formed.
    pub fn new(pitch: i64, width: i64, height: i64) -> (r: Option<Arena>)
        ensures
            r is Some <==> (Arena { pitch, width, height }).wf(),
            r is Some ==> r->Some_0 == (Arena { pitch, width, height }),
    {
        if 0 < pitch && pitch <= width && width <= 0x1000_0000 && pitch <= height
            && height <= 0x1000_0000 && width % pitch == 0 && height % pitch == 0 {
            Some(Arena { pitch, width, height })
        } else {
            None
        }
    }

    /// Executable counterpart of `in_bounds_spec`.
    pub fn in_bounds(&self, c: GridCoordinate) -> (r: bool)
        ensures
            r == self.in_bounds_spec(c),
    {
        0 <= c.x && c.x < self.width && 0 <= c.y && c.y < self.height
    }

    /// Executable counterpart of `valid_spec`: may `c` ever be a position
    /// or trail cell on this arena?
    pub fn is_valid(&self, c: GridCoordinate) -> (r: bool)
        requires
            self.wf(),
        ensures
            r == self.valid_spec(c),
    {
        self.in_bounds(c) && c.x % self.pitch == 0 && c.y % self.pitch == 0
    }
}

} // verus!
