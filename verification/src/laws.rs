//! The laws the simulation obeys, proved once and for all against the
//! mathematical step function rather than observed on sample runs.

use vstd::prelude::*;
use crate::game::GameView;
use crate::game::lemma_step_player_inv;
use crate::grid::Direction;

verus! {

/// The game after `n` ticks with no input arriving in between.
pub open spec fn run(g: GameView, n: nat) -> GameView
    decreases n,
{
    if n == 0 {
        g
    } else {
        run(g, (n - 1) as nat).step()
    }
}

/// One tick keeps the game invariant: every player of the stepped game,
/// dead or alive, still satisfies its invariant against the arena.
pub proof fn lemma_step_preserves_inv(g: GameView)
    requires
        g.inv(),
    ensures
        g.step().inv(),
        g.step().arena == g.arena,
        g.step().players.len() == g.players.len(),
{
    assert forall|i: int| 0 <= i < g.step().players.len() implies #[trigger] g.step().players[i].inv(
        g.step().arena,
    ) by {
        lemma_step_player_inv(g, i);
    }
}

/// The arena and the roster size never change over a run.
pub proof fn lemma_run_frame(g: GameView, n: nat)
    ensures
        run(g, n).arena == g.arena,
        run(g, n).players.len() == g.players.len(),
    decreases n,
{
    if n > 0 {
        lemma_run_frame(g, (n - 1) as nat);
    }
}

/// The game invariant holds at every tick of a run.
pub proof fn lemma_run_inv(g: GameView, n: nat)
    requires
        g.inv(),
    ensures
        run(g, n).inv(),
    decreases n,
{
    if n > 0 {
        lemma_run_inv(g, (n - 1) as nat);
        lemma_step_preserves_inv(run(g, (n - 1) as nat));
    }
}

/// Grid alignment: at any tick of a run, every player's position is an
/// exact multiple of the grid pitch on both axes, and inside the arena.
pub proof fn lemma_grid_alignment(g: GameView, n: nat, i: int)
    requires
        g.inv(),
        0 <= i < g.players.len(),
    ensures
        run(g, n).players.len() == g.players.len(),
        run(g, n).players[i].position.x % g.arena.pitch == 0,
        run(g, n).players[i].position.y % g.arena.pitch == 0,
        g.arena.in_bounds_spec(run(g, n).players[i].position),
{
    lemma_run_frame(g, n);
    lemma_run_inv(g, n);
    assert(run(g, n).players[i].inv(run(g, n).arena));
}

/// No instant reversal: however a heading request is latched between two
/// ticks, an alive player's heading after the next tick is never the
/// direct reverse of its heading when the request arrived.
pub proof fn lemma_no_instant_reversal(g: GameView, i: int, h: Direction)
    requires
        g.inv(),
        0 <= i < g.players.len(),
        g.players[i].alive,
    ensures
        ({
            let latched = GameView {
                arena: g.arena,
                players: g.players.update(i, g.players[i].request_spec(h)),
            };
            latched.step_player(i).heading != g.players[i].heading.opposite_spec()
        }),
{
    assert(g.players[i].inv(g.arena));
}

/// Self-trail lethality: an alive player steering onto a cell its own
/// trail already holds is marked dead by that tick.
pub proof fn lemma_self_trail_lethal(g: GameView, i: int)
    requires
        0 <= i < g.players.len(),
        g.players[i].alive,
        g.players[i].trail.contains(g.next_of(i)),
    ensures
        !g.step_player(i).alive,
{
    assert(g.occupied_spec(g.next_of(i)));
}

/// Simultaneous symmetry: when two alive players steer into the same cell
/// in the same tick, both are marked dead — neither survives, whatever
/// their roster order.
pub proof fn lemma_simultaneous_symmetry(g: GameView, i: int, j: int)
    requires
        0 <= i < g.players.len(),
        0 <= j < g.players.len(),
        i != j,
        g.players[i].alive,
        g.players[j].alive,
        g.next_of(i) == g.next_of(j),
    ensures
        !g.step_player(i).alive,
        !g.step_player(j).alive,
{
    assert(g.contested_spec(i));
    assert(g.contested_spec(j));
}

/// Trail monotonicity: a tick never removes a trail cell.  A survivor's
/// trail grows by exactly one cell — its previous position; a player that
/// dies this tick, or was already dead, keeps its trail unchanged.
pub proof fn lemma_trail_monotone(g: GameView, i: int)
    requires
        g.inv(),
        0 <= i < g.players.len(),
    ensures
        g.players[i].trail.subset_of(g.step_player(i).trail),
        g.players[i].alive && !g.dies_spec(i) ==> g.step_player(i).trail == g.players[
            i
        ].trail.insert(g.players[i].position) && g.step_player(i).trail.len() == g.players[
            i
        ].trail.len() + 1,
        !(g.players[i].alive && !g.dies_spec(i)) ==> g.step_player(i).trail == g.players[i].trail,
{
    broadcast use vstd::set::group_set_axioms;

    assert(g.players[i].inv(g.arena));
    if g.players[i].alive && !g.dies_spec(i) {
        assert(g.players[i].trail.subset_of(g.step_player(i).trail));
    } else {
        assert(g.players[i].trail =~= g.step_player(i).trail);
    }
}

/// A dead player is frozen: a tick leaves every field of it untouched.
pub proof fn lemma_dead_stays_frozen(g: GameView, i: int)
    requires
        0 <= i < g.players.len(),
        !g.players[i].alive,
    ensures
        g.step_player(i) == g.players[i],
{
}

/// Trail monotonicity over a whole round: at every tick of a run, each
/// player's trail is a subset of its trail one tick later.
pub proof fn lemma_trail_monotone_run(g: GameView, n: nat, i: int)
    requires
        g.inv(),
        0 <= i < g.players.len(),
    ensures
        run(g, n).players[i].trail.subset_of(run(g, n + 1).players[i].trail),
{
    lemma_run_frame(g, n);
    lemma_run_inv(g, n);
    lemma_trail_monotone(run(g, n), i);
    assert(run(g, n + 1) == run(g, n).step());
}

/// Restart idempotence: what a restart produces depends only on each
/// player's identity, color and starting placement, never on how far the
/// round had got.  Two restarts of the same match therefore coincide, and
/// with no input the rounds that follow replay the same tick-by-tick
/// trajectory.
pub proof fn lemma_restart_deterministic(g1: GameView, g2: GameView, n: nat)
    requires
        g1.arena == g2.arena,
        g1.players.len() == g2.players.len(),
        forall|i: int|
            0 <= i < g1.players.len() ==> {
                &&& (#[trigger] g1.players[i]).name == g2.players[i].name
                &&& g1.players[i].color == g2.players[i].color
                &&& g1.players[i].start_position == g2.players[i].start_position
                &&& g1.players[i].start_heading == g2.players[i].start_heading
            },
    ensures
        g1.restart_spec() == g2.restart_spec(),
        run(g1.restart_spec(), n) == run(g2.restart_spec(), n),
{
    assert forall|i: int| 0 <= i < g1.players.len() implies g1.restart_spec().players[i]
        == g2.restart_spec().players[i] by {
        assert((#[trigger] g1.players[i]).name == g2.players[i].name);
    }
    assert(g1.restart_spec().players =~= g2.restart_spec().players);
    assert(g1.restart_spec() == g2.restart_spec());
}

} // verus!
