//! Core of a two-player light-cycle arcade game on a discrete grid.
//!
//! Each player steers a marker that advances one grid pitch per tick and
//! leaves an indelible trail; touching any trail cell (one's own included)
//! or the arena boundary is fatal.  All players of a tick are judged against
//! a consistent pre-tick snapshot, so the outcome never depends on the order
//! in which they are processed.  Rendering, input mapping and timing are
//! collaborators outside this crate: they hand in plain values (elapsed
//! ticks, heading requests) and read the committed state back.

pub mod grid;
pub mod player;
pub mod game;
pub mod laws;

pub use grid::Direction;
pub use grid::GridCoordinate;
pub use grid::Arena;
pub use player::Color;
pub use player::Player;
pub use game::Action;
pub use game::RoundState;
pub use game::Game;
