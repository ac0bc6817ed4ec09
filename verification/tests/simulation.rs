use tron::Arena;
use tron::Color;
use tron::Direction;
use tron::Game;
use tron::GridCoordinate;
use tron::Player;
use tron::RoundState;

fn coord(x: i64, y: i64) -> GridCoordinate {
    GridCoordinate { x, y }
}

fn grey() -> Color {
    Color { red: 128, green: 128, blue: 128 }
}

fn player(name: &str, x: i64, y: i64, heading: Direction) -> Player {
    Player::new(name.to_string(), coord(x, y), grey(), heading)
}

fn trail_has(p: &Player, x: i64, y: i64) -> bool {
    p.trail.iter().any(|c| c.x == x && c.y == y)
}

/// Arena of 24 x 20 cells at pitch 1.
fn small_arena() -> Arena {
    Arena::new(1, 24, 20).unwrap()
}

#[test]
fn new_player_starts_fresh() {
    let p = player("player1", 2, 10, Direction::Right);
    assert_eq!(p.position, coord(2, 10));
    assert_eq!(p.heading, Direction::Right);
    assert_eq!(p.pending_heading, Direction::Right);
    assert_eq!(p.start_position, coord(2, 10));
    assert_eq!(p.start_heading, Direction::Right);
    assert!(p.alive);
    assert!(p.is_alive());
    assert!(p.trail.is_empty());
    assert_eq!(p.name, "player1");
    assert_eq!(p.color, grey());
}

#[test]
fn straight_run_lays_trail() {
    let mut g = Game::new(small_arena(), vec![player("solo", 2, 10, Direction::Right)]);
    for tick in 1..=4 {
        g.tick();
        let p = &g.players[0];
        assert!(p.alive);
        assert_eq!(p.position, coord(2 + tick, 10));
        assert_eq!(p.trail.len(), tick as usize);
    }
    let p = &g.players[0];
    for x in 2..6 {
        assert!(trail_has(p, x, 10));
    }
}

#[test]
fn positions_stay_on_the_grid() {
    // Pixel scale: a 20-pixel pitch on a 480 x 400 field.
    let arena = Arena::new(20, 480, 400).unwrap();
    let mut g = Game::new(
        arena,
        vec![player("player1", 40, 200, Direction::Right), player("player2", 420, 200, Direction::Left)],
    );
    for _ in 0..5 {
        g.tick();
        for p in &g.players {
            assert_eq!(p.position.x % 20, 0);
            assert_eq!(p.position.y % 20, 0);
            for c in &p.trail {
                assert_eq!(c.x % 20, 0);
                assert_eq!(c.y % 20, 0);
            }
        }
    }
    assert_eq!(g.players[0].position, coord(140, 200));
    assert_eq!(g.players[1].position, coord(320, 200));
}

#[test]
fn reversal_request_is_dropped() {
    let mut g = Game::new(small_arena(), vec![player("solo", 5, 10, Direction::Right)]);
    g.players[0].request_heading(Direction::Left);
    assert_eq!(g.players[0].pending_heading, Direction::Right);
    g.tick();
    let p = &g.players[0];
    assert_eq!(p.heading, Direction::Right);
    assert_eq!(p.position, coord(6, 10));
    assert!(p.alive);
}

#[test]
fn latest_request_wins_no_queuing() {
    let mut g = Game::new(small_arena(), vec![player("solo", 5, 10, Direction::Right)]);
    g.players[0].request_heading(Direction::Up);
    g.players[0].request_heading(Direction::Down);
    g.tick();
    let p = &g.players[0];
    assert_eq!(p.heading, Direction::Down);
    assert_eq!(p.position, coord(5, 11));
}

#[test]
fn turn_applies_at_next_tick_only() {
    let mut g = Game::new(small_arena(), vec![player("solo", 5, 10, Direction::Right)]);
    g.tick();
    g.players[0].request_heading(Direction::Up);
    assert_eq!(g.players[0].heading, Direction::Right);
    g.tick();
    let p = &g.players[0];
    assert_eq!(p.heading, Direction::Up);
    assert_eq!(p.position, coord(6, 9));
}

#[test]
fn self_collision_closed_loop() {
    // A single player steered around a unit square dies exactly on the
    // tick whose tentative next position is the earliest trail cell.
    let mut g = Game::new(small_arena(), vec![player("solo", 5, 5, Direction::Right)]);
    g.tick();
    assert_eq!(g.players[0].position, coord(6, 5));
    g.players[0].request_heading(Direction::Down);
    g.tick();
    assert_eq!(g.players[0].position, coord(6, 6));
    g.players[0].request_heading(Direction::Left);
    g.tick();
    assert_eq!(g.players[0].position, coord(5, 6));
    assert!(g.players[0].alive);
    g.players[0].request_heading(Direction::Up);
    g.tick();
    let p = &g.players[0];
    assert!(!p.alive);
    assert_eq!(p.position, coord(5, 6));
    assert_eq!(p.trail.len(), 3);
    assert!(trail_has(p, 5, 5));
    assert!(trail_has(p, 6, 5));
    assert!(trail_has(p, 6, 6));
}

#[test]
fn converging_targets_kill_both() {
    // Head-on on one row with an odd gap: both steer into the same cell
    // on the third tick and neither survives.
    let mut g = Game::new(
        small_arena(),
        vec![player("a", 2, 10, Direction::Right), player("b", 8, 10, Direction::Left)],
    );
    g.tick();
    g.tick();
    assert_eq!(g.players[0].position, coord(4, 10));
    assert_eq!(g.players[1].position, coord(6, 10));
    assert!(g.players[0].alive && g.players[1].alive);
    assert_eq!(g.round_state(), RoundState::Playing);
    g.tick();
    let a = &g.players[0];
    let b = &g.players[1];
    assert!(!a.alive);
    assert!(!b.alive);
    // Both are frozen where they were; the trails recorded up to the
    // previous tick are unchanged.
    assert_eq!(a.position, coord(4, 10));
    assert_eq!(b.position, coord(6, 10));
    assert_eq!(a.trail.len(), 2);
    assert_eq!(b.trail.len(), 2);
    assert!(trail_has(a, 2, 10) && trail_has(a, 3, 10));
    assert!(trail_has(b, 8, 10) && trail_has(b, 7, 10));
    assert_eq!(g.alive_count(), 0);
    assert_eq!(g.round_state(), RoundState::RoundOver);
}

#[test]
fn head_to_head_swap_kills_both() {
    // Adjacent players moving through each other both step onto a cell
    // the other is about to trail.
    let mut g = Game::new(
        small_arena(),
        vec![player("a", 4, 10, Direction::Right), player("b", 5, 10, Direction::Left)],
    );
    g.tick();
    assert!(!g.players[0].alive);
    assert!(!g.players[1].alive);
    assert_eq!(g.players[0].position, coord(4, 10));
    assert_eq!(g.players[1].position, coord(5, 10));
    assert_eq!(g.round_state(), RoundState::RoundOver);
}

#[test]
fn crossing_another_trail_is_fatal() {
    let mut g = Game::new(
        small_arena(),
        vec![player("a", 3, 13, Direction::Up), player("b", 2, 10, Direction::Right)],
    );
    g.tick();
    g.tick();
    assert_eq!(g.players[0].position, coord(3, 11));
    assert_eq!(g.players[1].position, coord(4, 10));
    g.tick();
    // a steered onto (3, 10), already in b's trail; b rides on.
    assert!(!g.players[0].alive);
    assert!(g.players[1].alive);
    assert_eq!(g.players[0].position, coord(3, 11));
    assert_eq!(g.players[1].position, coord(5, 10));
    assert_eq!(g.round_state(), RoundState::RoundOver);
}

#[test]
fn dead_player_stays_frozen() {
    let mut g = Game::new(
        small_arena(),
        vec![player("a", 3, 13, Direction::Up), player("b", 2, 10, Direction::Right)],
    );
    for _ in 0..3 {
        g.tick();
    }
    assert!(!g.players[0].alive);
    let frozen_pos = g.players[0].position;
    let frozen_len = g.players[0].trail.len();
    g.tick();
    g.tick();
    assert_eq!(g.players[0].position, frozen_pos);
    assert_eq!(g.players[0].trail.len(), frozen_len);
    assert!(g.players[1].alive);
    assert_eq!(g.players[1].position, coord(7, 10));
}

#[test]
fn boundary_left_edge_is_fatal() {
    let mut g = Game::new(small_arena(), vec![player("solo", 0, 10, Direction::Left)]);
    g.tick();
    let p = &g.players[0];
    assert!(!p.alive);
    assert_eq!(p.position, coord(0, 10));
    assert!(p.trail.is_empty());
}

#[test]
fn boundary_far_edge_is_fatal() {
    let mut g = Game::new(small_arena(), vec![player("solo", 23, 10, Direction::Right)]);
    g.tick();
    assert!(!g.players[0].alive);
    let mut h = Game::new(small_arena(), vec![player("solo", 10, 19, Direction::Down)]);
    h.tick();
    assert!(!h.players[0].alive);
}

#[test]
fn trail_only_grows_and_keeps_members() {
    let mut g = Game::new(small_arena(), vec![player("solo", 2, 10, Direction::Right)]);
    let mut seen: Vec<GridCoordinate> = Vec::new();
    for _ in 0..4 {
        let before = g.players[0].trail.len();
        g.tick();
        let p = &g.players[0];
        assert_eq!(p.trail.len(), before + 1);
        for c in &seen {
            assert!(trail_has(p, c.x, c.y));
        }
        seen = p.trail.clone();
    }
}

#[test]
fn restart_resets_everything() {
    let mut g = Game::new(
        small_arena(),
        vec![player("a", 2, 10, Direction::Right), player("b", 8, 10, Direction::Left)],
    );
    for _ in 0..3 {
        g.tick();
    }
    assert_eq!(g.round_state(), RoundState::RoundOver);
    g.restart();
    assert_eq!(g.round_state(), RoundState::Playing);
    for p in &g.players {
        assert!(p.alive);
        assert!(p.trail.is_empty());
        assert_eq!(p.position, p.start_position);
        assert_eq!(p.heading, p.start_heading);
        assert_eq!(p.pending_heading, p.start_heading);
    }
    assert_eq!(g.players[0].position, coord(2, 10));
    assert_eq!(g.players[1].position, coord(8, 10));
}

#[test]
fn restarted_round_replays_the_same_trajectory() {
    let mut g = Game::new(
        small_arena(),
        vec![player("a", 2, 10, Direction::Right), player("b", 8, 10, Direction::Left)],
    );
    let mut first: Vec<(GridCoordinate, GridCoordinate, bool, bool)> = Vec::new();
    for _ in 0..3 {
        g.tick();
        first.push((
            g.players[0].position,
            g.players[1].position,
            g.players[0].alive,
            g.players[1].alive,
        ));
    }
    g.restart();
    for expected in &first {
        g.tick();
        let got = (
            g.players[0].position,
            g.players[1].position,
            g.players[0].alive,
            g.players[1].alive,
        );
        assert_eq!(got, *expected);
    }
}

#[test]
fn alive_count_follows_deaths() {
    let mut g = Game::new(
        small_arena(),
        vec![player("a", 3, 13, Direction::Up), player("b", 2, 10, Direction::Right)],
    );
    assert_eq!(g.alive_count(), 2);
    for _ in 0..3 {
        g.tick();
    }
    assert_eq!(g.alive_count(), 1);
}
