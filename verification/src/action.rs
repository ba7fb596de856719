//! A ply: one move or one chain of jumps by one piece.
use vstd::prelude::*;

use crate::coordinate::Coordinate;
use crate::direction::Direction;
use crate::game_board::Piece;

verus! {

/// A candidate ply: the piece standing on `start_pos` moves or jumps.
#[derive(Clone, Debug, PartialEq, Eq)]
pub struct Action {
    pub start_pos: Coordinate,
    pub action_type: ActionType,
}

/// What the piece does.
#[derive(Clone, Debug, PartialEq, Eq)]
pub enum ActionType {
    /// One step onto the neighbouring cell in the given direction.
    Move(Direction),
    /// A chain of jumps, one per direction; each jump hops over the neighbouring cell and
    /// lands on the cell behind it.
    Jump(Vec<Direction>),
}

/// Why a ply was rejected.
#[derive(Copy, Clone, Debug, PartialEq, Eq, Structural)]
pub enum ActionError {
    /// The start position is off the board or not a playable cell.
    InvalidStartPosition,
    /// No piece stands on the start position.
    NoPieceAtStart,
    /// The target of a move holds the given piece.
    PieceOnMove(Piece),
    /// The target of a move is off the board or not a playable cell.
    MoveOffBoard,
    /// The moving piece's move rule does not allow the step.
    MoveRuleViolation,
    /// A jump chain without a single jump.
    EmptyJump,
    /// The landing cell of a jump holds the given piece.
    PieceOnJump(Piece),
    /// The cell hopped over is empty.
    NoPieceJumped,
    /// The landing cell of a jump is off the board or not a playable cell.
    JumpOffBoard,
    /// A jump lands on a cell the chain has already visited.
    JumpedBackToPrevPosition,
    /// The chain is longer than the jumping piece's jump limit allows.
    JumpLimitExceeded,
}

} // verus!
