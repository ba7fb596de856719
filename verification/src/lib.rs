//! Rule engine for Kapto, a two-player capture game played on a configurable board.
//!
//! The crate has two halves. [`game_board`] decides whether a move or a chain of jumps is
//! legal on a board and computes the board that results; what it decides is stated in
//! [`legality`]. [`ruleset`] describes a whole game configuration (board shape, piece
//! catalog, starting layout, victory conditions) and checks it for consistency before play
//! begins. The cells of boards are kept in the dense storage of [`grid`].
pub mod action;
pub mod coordinate;
pub mod direction;
pub mod game_board;
pub mod grid;
pub mod legality;
pub mod ruleset;
