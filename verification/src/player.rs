//! A single light cycle: identity, heading state, position and trail.

use vstd::prelude::*;
use crate::grid::Arena;
use crate::grid::Direction;
use crate::grid::GridCoordinate;

verus! {

/// A display color, carried through untouched for the rendering
/// collaborator; the simulation never reads it.
#[derive(Clone, Copy, PartialEq, Eq, Debug, Structural)]
pub struct Color {
    pub red: u8,
    pub green: u8,
    pub blue: u8,
}

/// The mathematical value of a [`Player`]: the trail is abstracted to the
/// set of cells it contains, since membership is all the simulation reads.
pub ghost struct PlayerView {
    pub name: Seq<char>,
    pub color: Color,
    pub heading: Direction,
    pub pending_heading: Direction,
    pub position: GridCoordinate,
    pub trail: Set<GridCoordinate>,
    pub alive: bool,
    pub start_position: GridCoordinate,
    pub start_heading: Direction,
}

impl PlayerView {
    /// What every reachable player state satisfies: the current and starting
    /// positions and every trail cell are valid for `arena`, the trail is a
    /// finite set not containing the current position, and the latched
    /// heading is never the direct reverse of the current one.
    pub open spec fn inv(self, arena: Arena) -> bool {
        &&& arena.valid_spec(self.position)
        &&& arena.valid_spec(self.start_position)
        &&& self.trail.finite()
        &&& !self.trail.contains(self.position)
        &&& (forall|c: GridCoordinate| self.trail.contains(c) ==> arena.valid_spec(c))
        &&& self.pending_heading != self.heading.opposite_spec()
    }

    /// The state a restart puts the player back into: starting placement,
    /// starting heading, empty trail, alive.
    pub open spec fn reset_spec(self) -> PlayerView {
        PlayerView {
            name: self.name,
            color: self.color,
            heading: self.start_heading,
            pending_heading: self.start_heading,
            position: self.start_position,
            trail: Set::empty(),
            alive: true,
            start_position: self.start_position,
            start_heading: self.start_heading,
        }
    }

    /// How a heading request is latched: the direct reverse of the current
    /// heading is dropped, anything else overwrites the pending heading.
    pub open spec fn request_spec(self, h: Direction) -> PlayerView {
        PlayerView {
            pending_heading: if h == self.heading.opposite_spec() {
                self.pending_heading
            } else {
                h
            },
            ..self
        }
    }
}

/// One player of the match.  `heading` is authoritative for the current
/// tick; `pending_heading` holds the most recent valid request and becomes
/// the heading at the next tick.  Once `alive` is false the player is
/// frozen until a restart.
pub struct Player {
    pub name: String,
    pub color: Color,
    pub heading: Direction,
    pub pending_heading: Direction,
    pub position: GridCoordinate,
    pub trail: Vec<GridCoordinate>,
    pub alive: bool,
    pub start_position: GridCoordinate,
    pub start_heading: Direction,
}

impl View for Player {
    type V = PlayerView;

    open spec fn view(&self) -> PlayerView {
        PlayerView {
            name: self.name@,
            color: self.color,
            heading: self.heading,
            pending_heading: self.pending_heading,
            position: self.position,
            trail: self.trail@.to_set(),
            alive: self.alive,
            start_position: self.start_position,
            start_heading: self.start_heading,
        }
    }
}

impl Player {
    /// Well-formedness of the concrete representation: the abstract
    /// invariant, plus the trail vector listing each cell once.
    pub open spec fn wf(self, arena: Arena) -> bool {
        &&& self@.inv(arena)
        &&& self.trail@.no_duplicates()
    }

    /// A fresh player at its starting placement: empty trail, alive, the
    /// pending heading agreeing with the initial heading.
    pub fn new(name: String, position: GridCoordinate, color: Color, heading: Direction) -> (p:
        Player)
        ensures
            p@ == (PlayerView {
                name: name@,
                color,
                heading,
                pending_heading: heading,
                position,
                trail: Set::empty(),
                alive: true,
                start_position: position,
                start_heading: heading,
            }),
            p.trail@ == Seq::<GridCoordinate>::empty(),
    {
        let p = Player {
            name,
            color,
            heading,
            pending_heading: heading,
            position,
            trail: Vec::new(),
            alive: true,
            start_position: position,
            start_heading: heading,
        };
        proof {
            assert(p.trail@.to_set() =~= Set::empty());
        }
        p
    }

    /// Whether the player is still in the round.
    pub fn is_alive(&self) -> (r: bool)
        ensures
            r == self@.alive,
    {
        self.alive
    }

    /// Latches a heading request arriving between ticks.  A request for the
    /// direct reverse of the current heading is silently dropped; any other
    /// request overwrites the pending heading (no queuing).  Nothing else
    /// about the player changes.
    pub fn request_heading(&mut self, h: Direction)
        ensures
            final(self)@ == old(self)@.request_spec(h),
            final(self).trail@ == old(self).trail@,
    {
        if !(h == self.heading.opposite()) {
            self.pending_heading = h;
        }
    }

    /// Puts the player back to its starting conditions for a new round.
    pub fn reset(&mut self)
        ensures
            final(self)@ == old(self)@.reset_spec(),
            final(self).trail@ == Seq::<GridCoordinate>::empty(),
    {
        self.heading = self.start_heading;
        self.pending_heading = self.start_heading;
        self.position = self.start_position;
        self.trail = Vec::new();
        self.alive = true;
        proof {
            assert(self.trail@.to_set() =~= Set::empty());
        }
    }

    /// Commits this player's share of one tick, after the roster-level
    /// collision test decided its fate.  The latched heading becomes
    /// current either way.  A doomed player is only marked dead: position
    /// and trail stay frozen at their pre-death values.  A survivor records
    /// its previous position in the trail and advances to `next`.
    pub fn commit_tick(&mut self, doomed: bool, next: GridCoordinate)
        requires
            old(self).alive,
        ensures
            final(self).name == old(self).name,
            final(self).color == old(self).color,
            final(self).start_position == old(self).start_position,
            final(self).start_heading == old(self).start_heading,
            final(self).heading == old(self).pending_heading,
            final(self).pending_heading == old(self).pending_heading,
            doomed ==> final(self).alive == false && final(self).position == old(self).position
                && final(self).trail@ == old(self).trail@,
            !doomed ==> final(self).alive == true && final(self).position == next
                && final(self).trail@ == old(self).trail@.push(old(self).position),
    {
        self.heading = self.pending_heading;
        if doomed {
            self.alive = false;
        } else {
            let prev = self.position;
            self.trail.push(prev);
            self.position = next;
        }
    }
}

} // verus!
