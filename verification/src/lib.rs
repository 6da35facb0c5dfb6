//! A turn-based game on a 4x4 grid for two teams, cookie and milk.
//!
//! Tokens are dropped into columns and come to rest on the lowest empty
//! cell. Four tokens of one team in a row, a column or a diagonal win the
//! game; a full grid without such a line is a draw. A board can also be
//! dealt at once from sixteen coin flips of a seeded generator.
//!
//! - [`tile`]: what a cell holds, and its glyph.
//! - [`board`]: the grid, where a token lands, and who has won.
//! - [`render`]: how a board is drawn.
//! - [`rng`]: the seeded stream of coin flips.
//! - [`session`]: one board and one stream of flips, changed together.
//! - [`command`]: the commands of a session and the replies to them.
//! - [`play`]: what holds along whole sequences of moves and of commands.

pub mod board;
pub mod command;
pub mod play;
pub mod render;
pub mod rng;
pub mod session;
pub mod tile;
