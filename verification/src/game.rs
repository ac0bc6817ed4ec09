//! The round controller: owns the roster, advances the simulation one tick
//! at a time, reports the round state and restarts the match.

use vstd::prelude::*;
use vstd::arithmetic::div_mod::lemma_mod_add_multiples_vanish;
use vstd::arithmetic::div_mod::lemma_mod_sub_multiples_vanish;
use crate::grid::Arena;
use crate::grid::Direction;
use crate::grid::GridCoordinate;
use crate::player::Player;
use crate::player::PlayerView;

verus! {

/// A control-surface request with no player identity attached.
#[derive(Clone, Copy, PartialEq, Eq, Hash, Debug, Structural)]
pub enum Action {
    Restart,
}

/// The lifecycle of one round, derived from the alive count each tick.
#[derive(Clone, Copy, PartialEq, Eq, Debug, Structural)]
pub enum RoundState {
    Playing,
    RoundOver,
}

/// The mathematical value of a [`Game`]: the arena and the roster of
/// player views, in roster order.
pub ghost struct GameView {
    pub arena: Arena,
    pub players: Seq<PlayerView>,
}

impl GameView {
    /// Every player satisfies its invariant against a well-formed arena.
    pub open spec fn inv(self) -> bool {
        &&& self.arena.wf()
        &&& forall|i: int|
            0 <= i < self.players.len() ==> #[trigger] self.players[i].inv(self.arena)
    }

    /// Player `i`'s tentative next position this tick: one pitch from its
    /// current position in the heading its latched request resolves to.
    pub open spec fn next_of(self, i: int) -> GridCoordinate {
        self.players[i].position.translate_spec(
            self.players[i].pending_heading,
            self.arena.pitch,
        )
    }

    /// The collision universe of the tick: a cell counts as occupied when
    /// it lies in some alive player's pre-tick trail or is some alive
    /// player's pre-tick position (about to be trailed).
    pub open spec fn occupied_spec(self, c: GridCoordinate) -> bool {
        exists|j: int|
            0 <= j < self.players.len() && #[trigger] self.players[j].alive && (
            self.players[j].trail.contains(c) || self.players[j].position == c)
    }

    /// Two players steering into the same cell in the same tick: player `i`
    /// shares its tentative next position with some other alive player.
    pub open spec fn contested_spec(self, i: int) -> bool {
        exists|j: int|
            0 <= j < self.players.len() && j != i && #[trigger] self.players[j].alive
                && self.next_of(j) == self.next_of(i)
    }

    /// Whether alive player `i` dies this tick: its tentative next position
    /// leaves the arena, meets the collision universe (its own trail
    /// included), or coincides with another alive player's tentative next
    /// position.  All three tests read only pre-tick state, so the outcome
    /// is independent of roster order.
    pub open spec fn dies_spec(self, i: int) -> bool {
        ||| !self.arena.in_bounds_spec(self.next_of(i))
        ||| self.occupied_spec(self.next_of(i))
        ||| self.contested_spec(i)
    }

    /// Player `i` after one tick.  A dead player is untouched.  An alive
    /// player resolves its latched heading either way; if it dies its
    /// position and trail freeze, otherwise it records its previous
    /// position in the trail and advances.
    pub open spec fn step_player(self, i: int) -> PlayerView {
        let p = self.players[i];
        if !p.alive {
            p
        } else if self.dies_spec(i) {
            PlayerView { heading: p.pending_heading, alive: false, ..p }
        } else {
            PlayerView {
                heading: p.pending_heading,
                position: self.next_of(i),
                trail: p.trail.insert(p.position),
                ..p
            }
        }
    }

    /// The whole game after one tick: every player stepped against the same
    /// pre-tick snapshot `self`.
    pub open spec fn step(self) -> GameView {
        GameView { arena: self.arena, players: Seq::new(self.players.len(), |i: int| self.step_player(i)) }
    }

    /// How many players are still alive.
    pub open spec fn count_alive(self) -> nat {
        count_alive_seq(self.players)
    }

    /// The round is over once at most one player is left alive; mutual
    /// elimination (zero alive) ends it too.
    pub open spec fn round_state_spec(self) -> RoundState {
        if self.count_alive() <= 1 {
            RoundState::RoundOver
        } else {
            RoundState::Playing
        }
    }

    /// The whole game after a restart: every player back at its starting
    /// conditions.
    pub open spec fn restart_spec(self) -> GameView {
        GameView {
            arena: self.arena,
            players: Seq::new(self.players.len(), |i: int| self.players[i].reset_spec()),
        }
    }
}

/// The collision universe restricted to the first `n` players of the
/// roster; `occupied_spec` is the case `n == players.len()`.
spec fn occupied_upto(g: GameView, n: int, c: GridCoordinate) -> bool {
    exists|j: int|
        0 <= j < n && #[trigger] g.players[j].alive && (g.players[j].trail.contains(c)
            || g.players[j].position == c)
}

/// An alive player's tick outcome keeps the invariant: the latched heading
/// is resolved, and a survivor's new position is a valid cell outside its
/// grown trail.
pub proof fn lemma_step_player_inv(g: GameView, i: int)
    requires
        g.inv(),
        0 <= i < g.players.len(),
    ensures
        g.step_player(i).inv(g.arena),
{
    let p = g.players[i];
    assert(p.inv(g.arena));
    p.pending_heading.lemma_opposite_changes();
    if p.alive && !g.dies_spec(i) {
        let pitch = g.arena.pitch;
        let next = g.next_of(i);
        assert(g.arena.in_bounds_spec(next));
        assert(0 <= p.position.x < g.arena.width && 0 <= p.position.y < g.arena.height);
        assert(0 < pitch <= 0x1000_0000);
        match p.pending_heading {
            Direction::Left => {
                assert(next.x == p.position.x - pitch);
                lemma_mod_sub_multiples_vanish(p.position.x as int, pitch as int);
            },
            Direction::Right => {
                assert(next.x == p.position.x + pitch);
                lemma_mod_add_multiples_vanish(p.position.x as int, pitch as int);
            },
            Direction::Up => {
                assert(next.y == p.position.y - pitch);
                lemma_mod_sub_multiples_vanish(p.position.y as int, pitch as int);
            },
            Direction::Down => {
                assert(next.y == p.position.y + pitch);
                lemma_mod_add_multiples_vanish(p.position.y as int, pitch as int);
            },
        }
        assert(g.arena.aligned_spec(next));
        if p.trail.contains(next) {
            assert(g.occupied_spec(next));
        }
        if p.position == next {
            assert(g.occupied_spec(next));
        }
        assert(!g.step_player(i).trail.contains(g.step_player(i).position));
    }
}

/// The number of alive players in a roster.
pub open spec fn count_alive_seq(ps: Seq<PlayerView>) -> nat
    decreases ps.len(),
{
    if ps.len() == 0 {
        0
    } else {
        count_alive_seq(ps.drop_last()) + if ps.last().alive {
            1nat
        } else {
            0nat
        }
    }
}

/// Linear membership test over a frozen list of cells.
fn coords_contains(cells: &Vec<GridCoordinate>, c: GridCoordinate) -> (r: bool)
    ensures
        r == cells@.contains(c),
{
    let len = cells.len();
    let mut k: usize = 0;
    while k < len
        invariant
            0 <= k <= len,
            len == cells@.len(),
            forall|t: int| 0 <= t < k ==> cells@[t] != c,
        decreases len - k,
    {
        if cells[k] == c {
            return true;
        }
        k = k + 1;
    }
    false
}

/// One match: the arena and the roster it exclusively owns.
pub struct Game {
    pub arena: Arena,
    pub players: Vec<Player>,
}

impl View for Game {
    type V = GameView;

    open spec fn view(&self) -> GameView {
        GameView { arena: self.arena, players: self.players@.map_values(|p: Player| p@) }
    }
}

impl Game {
    /// Well-formedness of the concrete game: the abstract invariant holds
    /// and every trail vector lists each cell once.
    pub open spec fn wf(self) -> bool {
        &&& self@.inv()
        &&& forall|i: int|
            0 <= i < self.players@.len() ==> (#[trigger] self.players@[i].trail@).no_duplicates()
    }

    /// Assembles a match from a well-formed arena and a roster of
    /// well-formed players.
    pub fn new(arena: Arena, players: Vec<Player>) -> (g: Game)
        requires
            arena.wf(),
            forall|i: int| 0 <= i < players@.len() ==> (#[trigger] players@[i]).wf(arena),
        ensures
            g.wf(),
            g.arena == arena,
            g.players@ == players@,
    {
        let g = Game { arena, players };
        proof {
            assert forall|i: int| 0 <= i < g@.players.len() implies #[trigger] g@.players[i].inv(
                g.arena,
            ) by {
                assert(g.players@[i].wf(arena));
            }
        }
        g
    }

    /// How many players are still alive.
    pub fn alive_count(&self) -> (n: usize)
        ensures
            n == self@.count_alive(),
    {
        let ghost ps = self@.players;
        let mut n: usize = 0;
        let len = self.players.len();
        let mut i: usize = 0;
        while i < len
            invariant
                0 <= i <= len,
                len == self.players@.len(),
                ps == self@.players,
                n == count_alive_seq(ps.take(i as int)),
                n <= i,
            decreases len - i,
        {
            proof {
                assert(ps.take(i + 1).drop_last() =~= ps.take(i as int));
                assert(ps.take(i + 1).last() == ps[i as int]);
                assert(ps[i as int] == self.players@[i as int]@);
            }
            if self.players[i].alive {
                n = n + 1;
            }
            i = i + 1;
        }
        proof {
            assert(ps.take(len as int) =~= ps);
        }
        n
    }

    /// The round state derived from the roster, recomputed on demand.
    pub fn round_state(&self) -> (r: RoundState)
        ensures
            r == self@.round_state_spec(),
    {
        if self.alive_count() <= 1 {
            RoundState::RoundOver
        } else {
            RoundState::Playing
        }
    }

    /// Snapshot phase of a tick: the collision universe as one frozen list
    /// of cells, holding exactly the members of every alive player's trail
    /// and every alive player's current position.
    #[verifier::loop_isolation(false)]
    fn snapshot_universe(&self) -> (u: Vec<GridCoordinate>)
        ensures
            forall|c: GridCoordinate| #[trigger] u@.contains(c) <==> self@.occupied_spec(c),
    {
        broadcast use vstd::seq_lib::group_seq_properties;
        broadcast use vstd::set::group_set_axioms;

        let mut u: Vec<GridCoordinate> = Vec::new();
        let len = self.players.len();
        let mut i: usize = 0;
        while i < len
            invariant
                0 <= i <= len,
                forall|c: GridCoordinate| #[trigger] u@.contains(c) <==> occupied_upto(
                    self@,
                    i as int,
                    c,
                ),
            decreases len - i,
        {
            if self.players[i].alive {
                let ghost tr = self.players@[i as int].trail@;
                proof {
                    assert(self@.players[i as int].trail == tr.to_set());
                }
                let p = &self.players[i];
                let tlen = p.trail.len();
                let mut k: usize = 0;
                while k < tlen
                    invariant
                        0 <= k <= tlen,
                        tlen == tr.len(),
                        forall|c: GridCoordinate| #[trigger] u@.contains(c) <==> (occupied_upto(
                            self@,
                            i as int,
                            c,
                        ) || (exists|t: int| 0 <= t < k && tr[t] == c)),
                    decreases tlen - k,
                {
                    let cell = p.trail[k];
                    u.push(cell);
                    proof {
                        assert forall|c: GridCoordinate| #[trigger] u@.contains(c) <==> (
                        occupied_upto(self@, i as int, c) || (exists|t: int|
                            0 <= t < k + 1 && tr[t] == c)) by {
                            if c == cell {
                                assert(tr[k as int] == c);
                            }
                        }
                    }
                    k = k + 1;
                }
                let pos = p.position;
                u.push(pos);
                proof {
                    assert forall|c: GridCoordinate| #[trigger] u@.contains(c) implies
                    occupied_upto(self@, i + 1, c) by {
                        if c == pos {
                            assert(self@.players[i as int].alive && self@.players[
                                i as int
                            ].position == c);
                        } else if !occupied_upto(self@, i as int, c) {
                            let t = choose|t: int| 0 <= t < tlen && tr[t] == c;
                            assert(tr.contains(c));
                            assert(self@.players[i as int].alive && self@.players[
                                i as int
                            ].trail.contains(c));
                        }
                    }
                    assert forall|c: GridCoordinate| occupied_upto(self@, i + 1, c) implies #[
                    trigger] u@.contains(c) by {
                        let j = choose|j: int|
                            0 <= j < i + 1 && #[trigger] self@.players[j].alive && (
                            self@.players[j].trail.contains(c) || self@.players[j].position == c);
                        if j == i as int {
                            if self@.players[j].trail.contains(c) {
                                assert(tr.contains(c));
                                let t = choose|t: int| 0 <= t < tr.len() && tr[t] == c;
                                assert(0 <= t < tlen && tr[t] == c);
                            }
                        } else {
                            assert(occupied_upto(self@, i as int, c));
                        }
                    }
                }
            } else {
                proof {
                    assert forall|c: GridCoordinate| occupied_upto(self@, i + 1, c) <==>
                    occupied_upto(self@, i as int, c) by {
                        if occupied_upto(self@, i + 1, c) {
                            let j = choose|j: int|
                                0 <= j < i + 1 && #[trigger] self@.players[j].alive && (
                                self@.players[j].trail.contains(c) || self@.players[j].position
                                    == c);
                            assert(j != i as int);
                        }
                    }
                }
            }
            i = i + 1;
        }
        proof {
            assert forall|c: GridCoordinate| #[trigger] u@.contains(c) <==> self@.occupied_spec(c)
            by {
                if occupied_upto(self@, len as int, c) {
                    assert(self@.occupied_spec(c));
                }
                if self@.occupied_spec(c) {
                    assert(occupied_upto(self@, len as int, c));
                }
            }
        }
        u
    }

    /// Whether alive player `i`'s tentative next position coincides with
    /// another alive player's tentative next position this tick.
    #[verifier::loop_isolation(false)]
    fn contested_at(&self, nexts: &Vec<GridCoordinate>, i: usize) -> (r: bool)
        requires
            nexts@.len() == self.players@.len(),
            i < self.players@.len(),
            forall|k: int| 0 <= k < nexts@.len() ==> #[trigger] nexts@[k] == self@.next_of(k),
        ensures
            r == self@.contested_spec(i as int),
    {
        let len = self.players.len();
        let target = nexts[i];
        let mut j: usize = 0;
        while j < len
            invariant
                0 <= j <= len,
                forall|k: int|
                    0 <= k < j ==> !(k != i as int && #[trigger] self@.players[k].alive
                        && self@.next_of(k) == self@.next_of(i as int)),
            decreases len - j,
        {
            if j != i && self.players[j].alive {
                if nexts[j] == target {
                    proof {
                        assert(self@.players[j as int].alive);
                        assert(self@.next_of(j as int) == self@.next_of(i as int));
                    }
                    return true;
                }
            }
            proof {
                assert(self@.players[j as int].alive == self.players@[j as int].alive);
            }
            j = j + 1;
        }
        false
    }

    /// One full simulation step over the whole roster, the three phases of
    /// which read only the pre-tick state: the committed result is exactly
    /// `step` of the pre-tick game, so re-running a tick from the same
    /// state always yields the same deaths, whatever the roster order.
    #[verifier::loop_isolation(false)]
    pub fn tick(&mut self)
        requires
            old(self).wf(),
        ensures
            final(self).wf(),
            final(self)@ == old(self)@.step(),
    {
        broadcast use vstd::seq_lib::group_seq_properties;
        broadcast use vstd::set::group_set_axioms;
        broadcast use vstd::prelude::Seq::lemma_push_to_set_commute;

        let ghost g0 = self@;
        let ghost ps0 = self.players@;
        let len = self.players.len();

        // Snapshot phase: freeze the collision universe before any player
        // moves; judging against post-move trails would make the outcome
        // depend on roster order.
        let universe = self.snapshot_universe();

        // Tentative-move phase: where each alive player is steering.
        let mut nexts: Vec<GridCoordinate> = Vec::new();
        let mut i: usize = 0;
        while i < len
            invariant
                0 <= i <= len,
                nexts@.len() == i,
                forall|k: int| 0 <= k < i ==> #[trigger] nexts@[k] == g0.next_of(k),
            decreases len - i,
        {
            proof {
                assert(g0.players[i as int].inv(g0.arena));
            }
            let p = &self.players[i];
            let next = p.position.translate(p.pending_heading, self.arena.pitch);
            nexts.push(next);
            i = i + 1;
        }

        // Collision phase: simultaneous test of every alive player against
        // the one snapshot plus the coinciding-targets rule.
        let mut doomed: Vec<bool> = Vec::new();
        let mut i: usize = 0;
        while i < len
            invariant
                0 <= i <= len,
                doomed@.len() == i,
                forall|k: int|
                    0 <= k < i ==> #[trigger] doomed@[k] == (g0.players[k].alive && g0.dies_spec(
                        k,
                    )),
            decreases len - i,
        {
            if self.players[i].alive {
                let next = nexts[i];
                let out = !self.arena.in_bounds(next);
                let hit = coords_contains(&universe, next);
                let ct = self.contested_at(&nexts, i);
                doomed.push(out || hit || ct);
                proof {
                    assert(next == g0.next_of(i as int));
                    assert((out || hit || ct) == g0.dies_spec(i as int));
                }
            } else {
                doomed.push(false);
                proof {
                    assert(!g0.players[i as int].alive);
                }
            }
            i = i + 1;
        }

        // Commit phase: resolve headings and apply each player's fate.
        let mut i: usize = 0;
        while i < len
            invariant
                0 <= i <= len,
                self.players@.len() == len,
                self.arena == g0.arena,
                forall|k: int| i <= k < len ==> #[trigger] self.players@[k] == ps0[k],
                forall|k: int| 0 <= k < i ==> #[trigger] self.players@[k]@ == g0.step_player(k),
                forall|k: int|
                    0 <= k < i ==> (#[trigger] self.players@[k].trail@).no_duplicates(),
            decreases len - i,
        {
            proof {
                assert(self.players@[i as int] == ps0[i as int]);
                assert(g0.players[i as int] == ps0[i as int]@);
                assert(g0.players[i as int].inv(g0.arena));
                lemma_step_player_inv(g0, i as int);
            }
            if self.players[i].alive {
                let doom = doomed[i];
                let next = nexts[i];
                let ghost p0 = self.players@[i as int];
                let p = &mut self.players[i];
                p.commit_tick(doom, next);
                proof {
                    assert(doom == g0.dies_spec(i as int));
                    if !doom {
                        assert(self.players@[i as int].trail@ == p0.trail@.push(p0.position));
                        assert(self.players@[i as int].trail@.to_set() == p0.trail@.to_set().insert(
                            p0.position,
                        ));
                        assert(!p0.trail@.contains(p0.position)) by {
                            assert(!p0@.trail.contains(p0@.position));
                        }
                        assert(self.players@[i as int].trail@.no_duplicates());
                    }
                    assert(self.players@[i as int]@ == g0.step_player(i as int));
                }
            } else {
                proof {
                    assert(self.players@[i as int]@ == g0.step_player(i as int));
                }
            }
            i = i + 1;
        }
        proof {
            assert(self@.players =~= g0.step().players);
            assert(self@ == g0.step());
            assert forall|k: int| 0 <= k < self@.players.len() implies #[trigger] self@.players[k].inv(
                self.arena,
            ) by {
                lemma_step_player_inv(g0, k);
            }
        }
    }

    /// Resets every player to its starting position, starting heading and
    /// an empty trail, and brings it back to life: a full-state reset to a
    /// fresh round, triggered externally by the control surface.
    pub fn restart(&mut self)
        requires
            old(self).wf(),
        ensures
            final(self).wf(),
            final(self)@ == old(self)@.restart_spec(),
    {
        let ghost g0 = self@;
        let ghost ps0 = self.players@;
        let len = self.players.len();
        let mut i: usize = 0;
        while i < len
            invariant
                0 <= i <= len,
                len == self.players@.len(),
                self.arena == g0.arena,
                g0 == (GameView { arena: g0.arena, players: ps0.map_values(|p: Player| p@) }),
                ps0.len() == len,
                g0.players.len() == len,
                forall|k: int| i <= k < len ==> self.players@[k] == ps0[k],
                forall|k: int|
                    0 <= k < i ==> #[trigger] self.players@[k]@ == g0.players[k].reset_spec(),
                forall|k: int|
                    0 <= k < i ==> (#[trigger] self.players@[k].trail@).no_duplicates(),
                g0.inv(),
            decreases len - i,
        {
            proof {
                assert(g0.players[i as int] == ps0[i as int]@);
            }
            let p = &mut self.players[i];
            p.reset();
            i = i + 1;
        }
        proof {
            assert(self@.players =~= g0.restart_spec().players);
            assert(self@ == g0.restart_spec());
            assert forall|k: int| 0 <= k < self@.players.len() implies #[trigger] self@.players[k].inv(
                self.arena,
            ) by {
                assert(self@.players[k] == g0.players[k].reset_spec());
                assert(g0.players[k].inv(g0.arena));
            }
        }
    }
}

} // verus!
