//! What makes a ply legal and what it does to the board, stated over board models.
//!
//! The functions of [`GameBoard`](crate::game_board::GameBoard) are specified by the
//! functions of this module.
use vstd::prelude::*;

use crate::action::{ActionError, ActionType};
use crate::coordinate::Coordinate;
use crate::direction::Direction;
use crate::game_board::{count_pieces, BoardModel, BoardSpace, Color, Piece};
use crate::ruleset::piece_definition::PieceDefinition;

verus! {

/// The row reached from `from` by `steps` steps in `direction`.
pub open spec fn row_after(from: Coordinate, direction: Direction, steps: int) -> int {
    from.row + direction.row_step() * steps
}

/// The column reached from `from` by `steps` steps in `direction`.
pub open spec fn column_after(from: Coordinate, direction: Direction, steps: int) -> int {
    from.column + direction.column_step() * steps
}

/// The coordinate reached from `from` by `steps` steps in `direction`. It is meant for
/// positions on a board, which always fit a coordinate.
pub open spec fn coordinate_after(from: Coordinate, direction: Direction, steps: int) -> Coordinate {
    Coordinate {
        row: row_after(from, direction, steps) as i16,
        column: column_after(from, direction, steps) as i16,
    }
}

/// The longest chain of jumps that `piece` may make; `None` where its chains are not
/// capped. A piece whose definition is not in the catalog may not jump at all.
pub open spec fn jump_cap(catalog: Seq<PieceDefinition>, piece: Piece) -> Option<usize> {
    if piece.definition_index < catalog.len() {
        catalog[piece.definition_index as int].jump_limit.spec_cap()
    } else {
        Some(0usize)
    }
}

/// Whether the move rule of `piece` allows a step in `direction`. A piece whose definition
/// is not in the catalog may not move at all.
pub open spec fn move_allowed(catalog: Seq<PieceDefinition>, piece: Piece, direction: Direction) -> bool {
    piece.definition_index < catalog.len() && catalog[piece.definition_index as int].move_rule.allows_step(
        direction,
    )
}

/// The verdict on a move from `start` in `direction`.
///
/// The target is looked at first: it has to be a playable cell, and an empty one. Then the
/// mover: `start` has to be a playable cell with a piece on it, and the piece's move rule
/// has to allow the step.
pub open spec fn move_outcome(
    board: BoardModel,
    catalog: Seq<PieceDefinition>,
    start: Coordinate,
    direction: Direction,
) -> Result<(), ActionError> {
    let row = row_after(start, direction, 1);
    let column = column_after(start, direction, 1);
    if !board.is_valid(row, column) {
        Err(ActionError::MoveOffBoard)
    } else if board.occupant(row, column) is Some {
        Err(ActionError::PieceOnMove(board.occupant(row, column)->0))
    } else if !board.is_valid(start.row as int, start.column as int) {
        Err(ActionError::InvalidStartPosition)
    } else {
        match board.occupant(start.row as int, start.column as int) {
            None => Err(ActionError::NoPieceAtStart),
            Some(mover) => if move_allowed(catalog, mover, direction) {
                Ok(())
            } else {
                Err(ActionError::MoveRuleViolation)
            },
        }
    }
}

/// The verdict on the jumps in `directions`, made one after the other from the last of the
/// coordinates in `visited`, which are the cells the chain has stood on so far.
///
/// Of each jump the landing cell is looked at first: it has to be a playable cell, an empty
/// one, and none that the chain has stood on. Then the cell hopped over: it has to hold a
/// piece. The first jump that fails decides.
pub open spec fn hops_outcome(
    board: BoardModel,
    visited: Seq<Coordinate>,
    directions: Seq<Direction>,
) -> Result<(), ActionError>
    decreases directions.len(),
{
    if directions.len() == 0 {
        Ok(())
    } else {
        let from = visited.last();
        let direction = directions[0];
        let landing = coordinate_after(from, direction, 2);
        let landing_row = row_after(from, direction, 2);
        let landing_column = column_after(from, direction, 2);
        if !board.is_valid(landing_row, landing_column) {
            Err(ActionError::JumpOffBoard)
        } else if board.occupant(landing_row, landing_column) is Some {
            Err(ActionError::PieceOnJump(board.occupant(landing_row, landing_column)->0))
        } else if visited.contains(landing) {
            Err(ActionError::JumpedBackToPrevPosition)
        } else if board.occupant(row_after(from, direction, 1), column_after(from, direction, 1))
            is None {
            Err(ActionError::NoPieceJumped)
        } else {
            hops_outcome(board, visited.push(landing), directions.drop_first())
        }
    }
}

/// The verdict on a chain of jumps by `piece` from `start`: the chain has to have a jump,
/// it may not be longer than the piece's jump limit allows, and every jump has to pass
/// [`hops_outcome`].
pub open spec fn jump_outcome(
    board: BoardModel,
    catalog: Seq<PieceDefinition>,
    piece: Piece,
    start: Coordinate,
    directions: Seq<Direction>,
) -> Result<(), ActionError> {
    if directions.len() == 0 {
        Err(ActionError::EmptyJump)
    } else if jump_cap(catalog, piece) is Some && directions.len() > jump_cap(catalog, piece)->0 {
        Err(ActionError::JumpLimitExceeded)
    } else {
        hops_outcome(board, seq![start], directions)
    }
}

/// The verdict on a ply: `start` has to be a playable cell with a piece on it, and what the
/// piece does has to pass [`move_outcome`] or [`jump_outcome`].
pub open spec fn action_outcome(
    board: BoardModel,
    catalog: Seq<PieceDefinition>,
    start: Coordinate,
    action_type: ActionType,
) -> Result<(), ActionError> {
    if !board.is_valid(start.row as int, start.column as int) {
        Err(ActionError::InvalidStartPosition)
    } else {
        match board.occupant(start.row as int, start.column as int) {
            None => Err(ActionError::NoPieceAtStart),
            Some(piece) => match action_type {
                ActionType::Move(direction) => move_outcome(board, catalog, start, direction),
                ActionType::Jump(directions) => jump_outcome(board, catalog, piece, start, directions@),
            },
        }
    }
}

/// Where a chain of jumps leaves the board.
pub struct Replay {
    /// The board after the captures.
    pub board: BoardModel,
    /// The captured pieces with the cells they stood on, in the order of capture.
    pub captures: Seq<(Coordinate, Piece)>,
    /// The cell the chain ends on.
    pub end: Coordinate,
}

/// The jumps in `directions` made one after the other from `from` by a piece of `mover`'s
/// side: a piece of the other side that is hopped over is captured and leaves the board, a
/// piece of the mover's own side stays. A chain may hop over one cell twice; a piece
/// captured there at the first hop is gone at the second, which then captures nothing.
pub open spec fn replay(board: BoardModel, mover: Color, from: Coordinate, directions: Seq<Direction>) -> Replay
    decreases directions.len(),
{
    if directions.len() == 0 {
        Replay { board, captures: Seq::empty(), end: from }
    } else {
        let direction = directions[0];
        let middle = coordinate_after(from, direction, 1);
        let landing = coordinate_after(from, direction, 2);
        let hopped = board.occupant(middle.row as int, middle.column as int);
        if hopped is Some && hopped->0.color != mover {
            let rest = replay(
                board.with_occupant(middle.row as int, middle.column as int, None),
                mover,
                landing,
                directions.drop_first(),
            );
            Replay {
                board: rest.board,
                captures: seq![(middle, hopped->0)] + rest.captures,
                end: rest.end,
            }
        } else {
            replay(board, mover, landing, directions.drop_first())
        }
    }
}

/// The board after a legal ply: the piece has left `start`, the pieces it captured have
/// left the board, and the piece stands where the ply ends.
pub open spec fn board_after(board: BoardModel, start: Coordinate, action_type: ActionType) -> BoardModel {
    let mover = board.occupant(start.row as int, start.column as int);
    let lifted = board.with_occupant(start.row as int, start.column as int, None);
    match action_type {
        ActionType::Move(direction) => lifted.with_occupant(
            row_after(start, direction, 1),
            column_after(start, direction, 1),
            mover,
        ),
        ActionType::Jump(directions) => {
            let played = replay(lifted, mover->0.color, start, directions@);
            played.board.with_occupant(played.end.row as int, played.end.column as int, mover)
        },
    }
}

/// The pieces a legal ply captures, each with the cell it stood on, in the order of
/// capture. A move captures nothing.
pub open spec fn captures_of(board: BoardModel, start: Coordinate, action_type: ActionType) -> Seq<
    (Coordinate, Piece),
> {
    match action_type {
        ActionType::Move(_) => Seq::empty(),
        ActionType::Jump(directions) => replay(
            board.with_occupant(start.row as int, start.column as int, None),
            board.occupant(start.row as int, start.column as int)->0.color,
            start,
            directions@,
        ).captures,
    }
}

/// The cells a chain of jumps stands on: `visited`, then the landing cell of each jump in
/// `directions`, made one after the other from the last of `visited`.
pub open spec fn trail(visited: Seq<Coordinate>, directions: Seq<Direction>) -> Seq<Coordinate>
    decreases directions.len(),
{
    if directions.len() == 0 {
        visited
    } else {
        trail(
            visited.push(coordinate_after(visited.last(), directions[0], 2)),
            directions.drop_first(),
        )
    }
}

/// A ply from a position that is off the board or not a playable cell is rejected with
/// `InvalidStartPosition`, whatever the ply is.
pub proof fn lemma_invalid_start_is_rejected(
    board: BoardModel,
    catalog: Seq<PieceDefinition>,
    start: Coordinate,
    action_type: ActionType,
)
    requires
        !board.is_valid(start.row as int, start.column as int),
    ensures
        action_outcome(board, catalog, start, action_type) == Err::<(), _>(
            ActionError::InvalidStartPosition,
        ),
{
}

/// A move onto a cell that holds a piece is rejected with `PieceOnMove` and that piece:
/// by the judgement of the move alone, and by the judgement of the whole ply when a piece
/// stands on the start position.
pub proof fn lemma_move_onto_piece_is_rejected(
    board: BoardModel,
    catalog: Seq<PieceDefinition>,
    start: Coordinate,
    direction: Direction,
    occupant: Piece,
)
    requires
        board.occupant(row_after(start, direction, 1), column_after(start, direction, 1)) == Some(
            occupant,
        ),
    ensures
        move_outcome(board, catalog, start, direction) == Err::<(), _>(
            ActionError::PieceOnMove(occupant),
        ),
        board.occupant(start.row as int, start.column as int) is Some ==> action_outcome(
            board,
            catalog,
            start,
            ActionType::Move(direction),
        ) == Err::<(), _>(ActionError::PieceOnMove(occupant)),
{
}

/// A chain is judged jump by jump: if its first jumps pass, the verdict on the chain is the
/// verdict on the remaining jumps, made from where the first ones end; if they do not, their
/// verdict is the verdict on the chain.
pub proof fn lemma_hops_split(
    board: BoardModel,
    visited: Seq<Coordinate>,
    directions: Seq<Direction>,
    count: int,
)
    requires
        0 <= count <= directions.len(),
    ensures
        hops_outcome(board, visited, directions) == if hops_outcome(
            board,
            visited,
            directions.take(count),
        ) is Ok {
            hops_outcome(board, trail(visited, directions.take(count)), directions.skip(count))
        } else {
            hops_outcome(board, visited, directions.take(count))
        },
    decreases count,
{
    if count == 0 {
        assert(directions.take(0) =~= Seq::<Direction>::empty());
        assert(directions.skip(0) =~= directions);
    } else {
        let first = directions.take(count);
        let landing = coordinate_after(visited.last(), directions[0], 2);
        assert(first[0] == directions[0]);
        assert(first.drop_first() =~= directions.drop_first().take(count - 1));
        assert(directions.skip(count) =~= directions.drop_first().skip(count - 1));
        lemma_hops_split(board, visited.push(landing), directions.drop_first(), count - 1);
    }
}

/// A chain whose jump number `index` lands on a cell that the chain has stood on before is
/// rejected with `JumpedBackToPrevPosition`, provided the jumps before it pass and the
/// landing cell is playable and empty. Whether a piece stands on the cell hopped over does
/// not matter, and neither does what follows in the chain.
pub proof fn lemma_revisit_is_rejected(
    board: BoardModel,
    catalog: Seq<PieceDefinition>,
    piece: Piece,
    start: Coordinate,
    directions: Seq<Direction>,
    index: int,
)
    requires
        0 <= index < directions.len(),
        jump_cap(catalog, piece) is Some ==> directions.len() <= jump_cap(catalog, piece)->0,
        hops_outcome(board, seq![start], directions.take(index)) is Ok,
        ({
            let stood_on = trail(seq![start], directions.take(index));
            let row = row_after(stood_on.last(), directions[index], 2);
            let column = column_after(stood_on.last(), directions[index], 2);
            &&& board.is_valid(row, column)
            &&& board.occupant(row, column) is None
            &&& stood_on.contains(coordinate_after(stood_on.last(), directions[index], 2))
        }),
    ensures
        hops_outcome(board, seq![start], directions) == Err::<(), _>(
            ActionError::JumpedBackToPrevPosition,
        ),
        jump_outcome(board, catalog, piece, start, directions) == Err::<(), _>(
            ActionError::JumpedBackToPrevPosition,
        ),
{
    lemma_hops_split(board, seq![start], directions, index);
    assert(directions.skip(index)[0] == directions[index]);
}

/// Replacing one cell changes the number of pieces by the difference the two cells make.
pub proof fn lemma_count_after_update(cells: Seq<BoardSpace>, index: int, cell: BoardSpace)
    requires
        0 <= index < cells.len(),
    ensures
        count_pieces(cells.update(index, cell)) + (if cells[index].occupant() is Some {
            1nat
        } else {
            0nat
        }) == count_pieces(cells) + (if cell.occupant() is Some {
            1nat
        } else {
            0nat
        }),
    decreases cells.len(),
{
    let updated = cells.update(index, cell);
    if index == cells.len() - 1 {
        assert(updated.drop_last() =~= cells.drop_last());
    } else {
        assert(updated.drop_last() =~= cells.drop_last().update(index, cell));
        lemma_count_after_update(cells.drop_last(), index, cell);
    }
}

/// Setting the occupant of a playable cell changes the number of pieces by the difference
/// the old and the new occupant make.
pub proof fn lemma_count_with_occupant(board: BoardModel, row: int, column: int, piece: Option<Piece>)
    requires
        board.well_formed(),
        board.is_valid(row, column),
    ensures
        board.with_occupant(row, column, piece).piece_count() + (if board.occupant(row, column)
            is Some {
            1nat
        } else {
            0nat
        }) == board.piece_count() + (if piece is Some {
            1nat
        } else {
            0nat
        }),
{
    board.lemma_index_of(row, column);
    lemma_count_after_update(
        board.cells,
        board.index_of(row, column),
        board.at(row, column).with_occupant(piece),
    );
}

/// A chain of jumps takes the captured pieces off the board and changes nothing else: the
/// board keeps its shape, every cell stays the kind of cell it is, an empty cell stays empty,
/// and the pieces left and the pieces captured are together the pieces there were.
pub proof fn lemma_replay(board: BoardModel, mover: Color, from: Coordinate, directions: Seq<Direction>)
    requires
        board.well_formed(),
    ensures
        replay(board, mover, from, directions).board.well_formed(),
        replay(board, mover, from, directions).board.rows == board.rows,
        replay(board, mover, from, directions).board.columns == board.columns,
        replay(board, mover, from, directions).end == trail(seq![from], directions).last(),
        replay(board, mover, from, directions).board.piece_count() + replay(
            board,
            mover,
            from,
            directions,
        ).captures.len() == board.piece_count(),
        forall|row: int, column: int|
            board.is_valid(row, column) == #[trigger] replay(
                board,
                mover,
                from,
                directions,
            ).board.is_valid(row, column),
        forall|row: int, column: int|
            board.occupant(row, column) is None ==> #[trigger] replay(
                board,
                mover,
                from,
                directions,
            ).board.occupant(row, column) is None,
    decreases directions.len(),
{
    if directions.len() > 0 {
        let direction = directions[0];
        let middle = coordinate_after(from, direction, 1);
        let landing = coordinate_after(from, direction, 2);
        let hopped = board.occupant(middle.row as int, middle.column as int);
        lemma_trail_start(seq![from], landing, directions.drop_first());
        if hopped is Some && hopped->0.color != mover {
            let cleared = board.with_occupant(middle.row as int, middle.column as int, None);
            board.lemma_with_occupant(middle.row as int, middle.column as int, None);
            lemma_count_with_occupant(board, middle.row as int, middle.column as int, None);
            lemma_replay(cleared, mover, landing, directions.drop_first());
            let played = replay(board, mover, from, directions);
            assert forall|row: int, column: int|
                board.is_valid(row, column) == #[trigger] played.board.is_valid(row, column) by {
                assert(cleared.cell(row, column) == cleared.cell(row, column));
            }
            assert forall|row: int, column: int|
                board.occupant(row, column) is None implies #[trigger] played.board.occupant(
                row,
                column,
            ) is None by {
                assert(cleared.cell(row, column) == cleared.cell(row, column));
            }
        } else {
            lemma_replay(board, mover, landing, directions.drop_first());
        }
    }
}

/// Only the last of the cells stood on so far decides where a chain goes on.
pub proof fn lemma_trail_start(visited: Seq<Coordinate>, last: Coordinate, directions: Seq<Direction>)
    ensures
        trail(visited.push(last), directions).last() == trail(seq![last], directions).last(),
    decreases directions.len(),
{
    if directions.len() > 0 {
        let landing = coordinate_after(last, directions[0], 2);
        assert(visited.push(last).last() == last);
        assert(seq![last].last() == last);
        lemma_trail_start(visited.push(last), landing, directions.drop_first());
        lemma_trail_start(seq![last], landing, directions.drop_first());
    }
}

/// A chain that passes ends on a playable, empty cell.
pub proof fn lemma_chain_ends_on_empty_cell(
    board: BoardModel,
    visited: Seq<Coordinate>,
    directions: Seq<Direction>,
)
    requires
        board.is_board(),
        visited.len() > 0,
        directions.len() > 0,
        hops_outcome(board, visited, directions) is Ok,
    ensures
        board.is_valid(
            trail(visited, directions).last().row as int,
            trail(visited, directions).last().column as int,
        ),
        board.occupant(
            trail(visited, directions).last().row as int,
            trail(visited, directions).last().column as int,
        ) is None,
    decreases directions.len(),
{
    let landing = coordinate_after(visited.last(), directions[0], 2);
    if directions.len() > 1 {
        lemma_chain_ends_on_empty_cell(board, visited.push(landing), directions.drop_first());
    } else {
        reveal_with_fuel(trail, 2);
        assert(directions.drop_first().len() == 0);
        assert(trail(visited, directions) == visited.push(landing));
    }
}

/// A legal ply keeps every piece on the board but those it captures: the pieces on the new
/// board and the captured pieces are together as many as the pieces on the old board.
pub proof fn lemma_pieces_are_kept_or_captured(
    board: BoardModel,
    catalog: Seq<PieceDefinition>,
    start: Coordinate,
    action_type: ActionType,
)
    requires
        board.is_board(),
        action_outcome(board, catalog, start, action_type) is Ok,
    ensures
        board_after(board, start, action_type).piece_count() + captures_of(
            board,
            start,
            action_type,
        ).len() == board.piece_count(),
{
    let mover = board.occupant(start.row as int, start.column as int);
    let lifted = board.with_occupant(start.row as int, start.column as int, None);
    board.lemma_with_occupant(start.row as int, start.column as int, None);
    lemma_count_with_occupant(board, start.row as int, start.column as int, None);
    match action_type {
        ActionType::Move(direction) => {
            let row = row_after(start, direction, 1);
            let column = column_after(start, direction, 1);
            assert(lifted.cell(row, column) == board.cell(row, column));
            lemma_count_with_occupant(lifted, row, column, mover);
        },
        ActionType::Jump(directions) => {
            let played = replay(lifted, mover->0.color, start, directions@);
            lemma_replay(lifted, mover->0.color, start, directions@);
            lemma_chain_ends_on_empty_cell(board, seq![start], directions@);
            let end = played.end;
            assert(board.occupant(end.row as int, end.column as int) is None);
            assert(lifted.cell(end.row as int, end.column as int) == board.cell(
                end.row as int,
                end.column as int,
            ));
            assert(played.board.occupant(end.row as int, end.column as int) is None);
            assert(played.board.is_valid(end.row as int, end.column as int));
            lemma_count_with_occupant(played.board, end.row as int, end.column as int, mover);
        },
    }
}

/// The cell a chain from `start` stands on after its first `count` jumps.
pub open spec fn stop(start: Coordinate, directions: Seq<Direction>, count: int) -> Coordinate {
    trail(seq![start], directions.take(count)).last()
}

/// The cell that jump number `index` of a chain from `start` hops over.
pub open spec fn hopped_cell(start: Coordinate, directions: Seq<Direction>, index: int) -> Coordinate {
    coordinate_after(stop(start, directions, index), directions[index], 1)
}

/// Whether one of the first `count` jumps of a chain from `start` hops over a position.
pub open spec fn is_hopped(
    start: Coordinate,
    directions: Seq<Direction>,
    count: int,
    row: int,
    column: int,
) -> bool {
    exists|index: int|
        0 <= index < count && (#[trigger] hopped_cell(start, directions, index)).row == row
            && hopped_cell(start, directions, index).column == column
}

/// Whether a position holds a piece of the other side than `mover`.
pub open spec fn holds_enemy(board: BoardModel, mover: Color, row: int, column: int) -> bool {
    board.occupant(row, column) is Some && board.occupant(row, column)->0.color != mover
}

/// What a chain of jumps from `start`, of which the first `count` jumps are made, has done
/// to the cell at a position of `board`, from which the jumper has been lifted: the cell has
/// lost its piece if it is the start or if a jump has hopped over it while it held a piece
/// of the other side; else it is as it was.
pub open spec fn cell_during_chain(
    board: BoardModel,
    mover: Color,
    start: Coordinate,
    directions: Seq<Direction>,
    count: int,
    row: int,
    column: int,
) -> BoardSpace {
    if (row == start.row && column == start.column) || (is_hopped(
        start,
        directions,
        count,
        row,
        column,
    ) && holds_enemy(board, mover, row, column)) {
        board.cell(row, column).with_occupant(None)
    } else {
        board.cell(row, column)
    }
}

/// A chain that is one jump longer stands on the cells of the shorter chain and on the
/// landing cell of the last jump.
pub proof fn lemma_trail_push(visited: Seq<Coordinate>, directions: Seq<Direction>, last: Direction)
    ensures
        trail(visited, directions.push(last)) == trail(visited, directions).push(
            coordinate_after(trail(visited, directions).last(), last, 2),
        ),
    decreases directions.len(),
{
    let longer = directions.push(last);
    if directions.len() == 0 {
        reveal_with_fuel(trail, 2);
        assert(longer.drop_first().len() == 0);
    } else {
        assert(longer[0] == directions[0]);
        assert(longer.drop_first() =~= directions.drop_first().push(last));
        lemma_trail_push(
            visited.push(coordinate_after(visited.last(), directions[0], 2)),
            directions.drop_first(),
            last,
        );
    }
}

/// After one more jump a chain stands on the landing cell of that jump.
pub proof fn lemma_stop_next(start: Coordinate, directions: Seq<Direction>, count: int)
    requires
        0 <= count < directions.len(),
    ensures
        stop(start, directions, count + 1) == coordinate_after(
            stop(start, directions, count),
            directions[count],
            2,
        ),
        stop(start, directions, 0) == start,
{
    assert(directions.take(count + 1) =~= directions.take(count).push(directions[count]));
    lemma_trail_push(seq![start], directions.take(count), directions[count]);
    assert(directions.take(0) =~= Seq::<Direction>::empty());
}

/// What a legal chain of jumps does to the board, cell by cell: the cell the chain ends on
/// holds the jumper; the start, and every cell hopped over that held a piece of the other
/// side, is empty; every other cell is as it was.
pub proof fn lemma_jump_changes(
    board: BoardModel,
    catalog: Seq<PieceDefinition>,
    start: Coordinate,
    directions: Vec<Direction>,
)
    requires
        board.is_board(),
        action_outcome(board, catalog, start, ActionType::Jump(directions)) is Ok,
    ensures
        ({
            let jumper = board.occupant(start.row as int, start.column as int);
            let end = stop(start, directions@, directions@.len() as int);
            let after = board_after(board, start, ActionType::Jump(directions));
            &&& jumper is Some
            &&& board.is_valid(end.row as int, end.column as int)
            &&& after.is_board()
            &&& after.rows == board.rows
            &&& after.columns == board.columns
            &&& forall|row: int, column: int|
                #[trigger] after.cell(row, column) == if row == end.row && column == end.column {
                    board.cell(row, column).with_occupant(jumper)
                } else {
                    cell_during_chain(
                        board,
                        jumper->0.color,
                        start,
                        directions@,
                        directions@.len() as int,
                        row,
                        column,
                    )
                }
        }),
{
    let jumper = board.occupant(start.row as int, start.column as int);
    let mover = jumper->0.color;
    let lifted = board.with_occupant(start.row as int, start.column as int, None);
    board.lemma_with_occupant(start.row as int, start.column as int, None);
    assert(directions@.take(0) =~= Seq::<Direction>::empty());
    assert(directions@.skip(0) =~= directions@);
    assert forall|row: int, column: int| #[trigger] lifted.cell(row, column) == cell_during_chain(
        board,
        mover,
        start,
        directions@,
        0,
        row,
        column,
    ) by {
        assert(!is_hopped(start, directions@, 0, row, column));
    }
    lemma_rest_of_chain(board, mover, start, directions@, lifted, 0);
    lemma_replay(lifted, mover, start, directions@);
    lemma_chain_ends_on_empty_cell(board, seq![start], directions@);
    let played = replay(lifted, mover, start, directions@);
    assert(directions@.take(directions@.len() as int) =~= directions@);
    played.board.lemma_with_occupant(played.end.row as int, played.end.column as int, jumper);
    let after = board_after(board, start, ActionType::Jump(directions));
    assert forall|row: int, column: int| #[trigger] after.cell(row, column) == if row
        == played.end.row && column == played.end.column {
        board.cell(row, column).with_occupant(jumper)
    } else {
        cell_during_chain(
            board,
            mover,
            start,
            directions@,
            directions@.len() as int,
            row,
            column,
        )
    } by {
        assert(played.board.cell(row, column) == cell_during_chain(
            board,
            mover,
            start,
            directions@,
            directions@.len() as int,
            row,
            column,
        ));
    }
}

/// Whether jump number `index` of a chain from `start` passes: its landing cell is a
/// playable cell, empty, and none that the chain has stood on before, and the cell it hops
/// over holds a piece.
pub open spec fn hop_passes(
    board: BoardModel,
    start: Coordinate,
    directions: Seq<Direction>,
    index: int,
) -> bool {
    let from = stop(start, directions, index);
    let direction = directions[index];
    let landing_row = row_after(from, direction, 2);
    let landing_column = column_after(from, direction, 2);
    &&& board.is_valid(landing_row, landing_column)
    &&& board.occupant(landing_row, landing_column) is None
    &&& forall|earlier: int|
        0 <= earlier <= index ==> #[trigger] stop(start, directions, earlier) != coordinate_after(
            from,
            direction,
            2,
        )
    &&& board.occupant(row_after(from, direction, 1), column_after(from, direction, 1)) is Some
}

/// After its first `count` jumps a chain has stood on the start and on the cell it stood on
/// after each of those jumps, in this order.
pub proof fn lemma_trail_is_stops(start: Coordinate, directions: Seq<Direction>, count: int)
    requires
        0 <= count <= directions.len(),
    ensures
        trail(seq![start], directions.take(count)).len() == count + 1,
        forall|earlier: int|
            0 <= earlier <= count ==> #[trigger] trail(seq![start], directions.take(count))[earlier]
                == stop(start, directions, earlier),
    decreases count,
{
    if count == 0 {
        assert(directions.take(0) =~= Seq::<Direction>::empty());
    } else {
        lemma_trail_is_stops(start, directions, count - 1);
        assert(directions.take(count) =~= directions.take(count - 1).push(directions[count - 1]));
        lemma_trail_push(seq![start], directions.take(count - 1), directions[count - 1]);
    }
}

/// The first `count` jumps of a chain pass exactly if each of them passes.
pub proof fn lemma_chain_passes_hop_by_hop(
    board: BoardModel,
    start: Coordinate,
    directions: Seq<Direction>,
    count: int,
)
    requires
        0 <= count <= directions.len(),
    ensures
        hops_outcome(board, seq![start], directions.take(count)) is Ok <==> forall|index: int|
            0 <= index < count ==> #[trigger] hop_passes(board, start, directions, index),
    decreases count,
{
    if count == 0 {
        assert(directions.take(0) =~= Seq::<Direction>::empty());
    } else {
        let shorter = count - 1;
        let first = directions.take(count);
        lemma_chain_passes_hop_by_hop(board, start, directions, shorter);
        lemma_hops_split(board, seq![start], first, shorter);
        lemma_trail_is_stops(start, directions, shorter);
        assert(first.take(shorter) =~= directions.take(shorter));
        assert(first.skip(shorter) =~= seq![directions[shorter]]);
        let stood_on = trail(seq![start], directions.take(shorter));
        let landing = coordinate_after(stop(start, directions, shorter), directions[shorter], 2);
        assert(stood_on.last() == stop(start, directions, shorter));
        assert(stood_on.contains(landing) <==> !(forall|earlier: int|
            0 <= earlier <= shorter ==> #[trigger] stop(start, directions, earlier) != landing)) by {
            if stood_on.contains(landing) {
                let i = choose|i: int| 0 <= i < stood_on.len() && stood_on[i] == landing;
                assert(stop(start, directions, i) == landing);
            }
            if exists|earlier: int|
                0 <= earlier <= shorter && #[trigger] stop(start, directions, earlier) == landing {
                let earlier = choose|earlier: int|
                    0 <= earlier <= shorter && #[trigger] stop(start, directions, earlier)
                        == landing;
                assert(stood_on[earlier] == landing);
            }
        }
        reveal_with_fuel(hops_outcome, 2);
        assert(seq![directions[shorter]].drop_first().len() == 0);
        assert(hops_outcome(board, stood_on, seq![directions[shorter]]) is Ok <==> hop_passes(
            board,
            start,
            directions,
            shorter,
        ));
        if hops_outcome(board, seq![start], first) is Ok {
            assert forall|index: int| 0 <= index < count implies #[trigger] hop_passes(
                board,
                start,
                directions,
                index,
            ) by {}
        }
    }
}

/// A chain of jumps is legal exactly if it has a jump, is no longer than the jump limit of
/// the jumping piece allows, and each of its jumps passes.
pub proof fn lemma_legal_chain(
    board: BoardModel,
    catalog: Seq<PieceDefinition>,
    piece: Piece,
    start: Coordinate,
    directions: Seq<Direction>,
)
    ensures
        jump_outcome(board, catalog, piece, start, directions) is Ok <==> {
            &&& directions.len() > 0
            &&& jump_cap(catalog, piece) is Some ==> directions.len() <= jump_cap(catalog, piece)->0
            &&& forall|index: int|
                0 <= index < directions.len() ==> #[trigger] hop_passes(
                    board,
                    start,
                    directions,
                    index,
                )
        },
{
    lemma_chain_passes_hop_by_hop(board, start, directions, directions.len() as int);
    assert(directions.take(directions.len() as int) =~= directions);
}

/// The pieces that the first `count` jumps of a chain from `start` capture, each with the
/// cell it stood on, in the order of capture: a jump captures the piece it hops over if that
/// piece is of the other side than `mover` and no jump before has hopped over its cell.
pub open spec fn captures_among(
    board: BoardModel,
    mover: Color,
    start: Coordinate,
    directions: Seq<Direction>,
    count: int,
) -> Seq<(Coordinate, Piece)>
    decreases count,
{
    if count <= 0 {
        Seq::empty()
    } else {
        let before = captures_among(board, mover, start, directions, count - 1);
        let cell = hopped_cell(start, directions, count - 1);
        if holds_enemy(board, mover, cell.row as int, cell.column as int) && !is_hopped(
            start,
            directions,
            count - 1,
            cell.row as int,
            cell.column as int,
        ) {
            before.push((cell, board.occupant(cell.row as int, cell.column as int)->0))
        } else {
            before
        }
    }
}

/// The jumps of a chain that are still to be made bring each cell to what the whole chain
/// does to it, and capture what the whole chain captures beyond the captures made so far.
proof fn lemma_rest_of_chain(
    board: BoardModel,
    mover: Color,
    start: Coordinate,
    directions: Seq<Direction>,
    current: BoardModel,
    done: int,
)
    requires
        board.well_formed(),
        current.well_formed(),
        current.rows == board.rows,
        current.columns == board.columns,
        0 <= done <= directions.len(),
        !holds_enemy(board, mover, start.row as int, start.column as int),
        forall|row: int, column: int|
            #[trigger] current.cell(row, column) == cell_during_chain(
                board,
                mover,
                start,
                directions,
                done,
                row,
                column,
            ),
    ensures
        captures_among(board, mover, start, directions, directions.len() as int) == captures_among(
            board,
            mover,
            start,
            directions,
            done,
        ) + replay(current, mover, stop(start, directions, done), directions.skip(done)).captures,
        replay(current, mover, stop(start, directions, done), directions.skip(done)).end == stop(
            start,
            directions,
            directions.len() as int,
        ),
        forall|row: int, column: int|
            #[trigger] replay(
                current,
                mover,
                stop(start, directions, done),
                directions.skip(done),
            ).board.cell(row, column) == cell_during_chain(
                board,
                mover,
                start,
                directions,
                directions.len() as int,
                row,
                column,
            ),
    decreases directions.len() - done,
{
    let rest = directions.skip(done);
    let from = stop(start, directions, done);
    let so_far = captures_among(board, mover, start, directions, done);
    if done < directions.len() {
        let direction = directions[done];
        let middle = hopped_cell(start, directions, done);
        let landing = coordinate_after(from, direction, 2);
        assert(rest[0] == direction);
        assert(rest.drop_first() =~= directions.skip(done + 1));
        lemma_stop_next(start, directions, done);
        let hopped = current.occupant(middle.row as int, middle.column as int);
        let captured = hopped is Some && hopped->0.color != mover;
        let next = if captured {
            current.with_occupant(middle.row as int, middle.column as int, None)
        } else {
            current
        };
        current.lemma_with_occupant(middle.row as int, middle.column as int, None);
        assert(current.cell(middle.row as int, middle.column as int) == cell_during_chain(
            board,
            mover,
            start,
            directions,
            done,
            middle.row as int,
            middle.column as int,
        ));
        assert(captured == (holds_enemy(board, mover, middle.row as int, middle.column as int)
            && !is_hopped(start, directions, done, middle.row as int, middle.column as int)));
        assert forall|row: int, column: int| #[trigger] next.cell(row, column) == cell_during_chain(
            board,
            mover,
            start,
            directions,
            done + 1,
            row,
            column,
        ) by {
            let at_middle = row == middle.row && column == middle.column;
            assert(current.cell(row, column) == cell_during_chain(
                board,
                mover,
                start,
                directions,
                done,
                row,
                column,
            ));
            if is_hopped(start, directions, done, row, column) {
                let index = choose|index: int|
                    0 <= index < done && (#[trigger] hopped_cell(start, directions, index)).row
                        == row && hopped_cell(start, directions, index).column == column;
                assert(0 <= index < done + 1);
                assert(is_hopped(start, directions, done + 1, row, column));
            }
            if at_middle {
                assert(hopped_cell(start, directions, done).row == row);
                assert(is_hopped(start, directions, done + 1, row, column));
            } else if is_hopped(start, directions, done + 1, row, column) {
                let index = choose|index: int|
                    0 <= index < done + 1 && (#[trigger] hopped_cell(start, directions, index)).row
                        == row && hopped_cell(start, directions, index).column == column;
                assert(index != done);
                assert(is_hopped(start, directions, done, row, column));
            }
        }
        lemma_rest_of_chain(board, mover, start, directions, next, done + 1);
        let later = replay(next, mover, landing, rest.drop_first()).captures;
        if captured {
            assert(so_far.push((middle, hopped->0)) + later =~= so_far + (seq![
                (middle, hopped->0),
            ] + later));
        }
    } else {
        assert(rest.len() == 0);
        assert(so_far + Seq::<(Coordinate, Piece)>::empty() =~= so_far);
    }
}

/// What a legal chain of jumps captures: the pieces of the other side that it hops over,
/// as they stand on the board before the ply, in the order in which they are hopped over,
/// and each of them once.
pub proof fn lemma_jump_captures(
    board: BoardModel,
    catalog: Seq<PieceDefinition>,
    start: Coordinate,
    directions: Vec<Direction>,
)
    requires
        board.is_board(),
        action_outcome(board, catalog, start, ActionType::Jump(directions)) is Ok,
    ensures
        captures_of(board, start, ActionType::Jump(directions)) == captures_among(
            board,
            board.occupant(start.row as int, start.column as int)->0.color,
            start,
            directions@,
            directions@.len() as int,
        ),
{
    let mover = board.occupant(start.row as int, start.column as int)->0.color;
    let lifted = board.with_occupant(start.row as int, start.column as int, None);
    board.lemma_with_occupant(start.row as int, start.column as int, None);
    assert(directions@.take(0) =~= Seq::<Direction>::empty());
    assert(directions@.skip(0) =~= directions@);
    assert forall|row: int, column: int| #[trigger] lifted.cell(row, column) == cell_during_chain(
        board,
        mover,
        start,
        directions@,
        0,
        row,
        column,
    ) by {
        assert(!is_hopped(start, directions@, 0, row, column));
    }
    lemma_rest_of_chain(board, mover, start, directions@, lifted, 0);
    assert(Seq::<(Coordinate, Piece)>::empty() + replay(lifted, mover, start, directions@).captures
        =~= replay(lifted, mover, start, directions@).captures);
}

/// What a legal move does to the board, cell by cell: the target holds the mover, the
/// start is empty, every other cell is as it was.
pub proof fn lemma_move_changes(
    board: BoardModel,
    catalog: Seq<PieceDefinition>,
    start: Coordinate,
    direction: Direction,
)
    requires
        board.is_board(),
        action_outcome(board, catalog, start, ActionType::Move(direction)) is Ok,
    ensures
        ({
            let mover = board.occupant(start.row as int, start.column as int);
            let after = board_after(board, start, ActionType::Move(direction));
            &&& mover is Some
            &&& after.is_board()
            &&& after.rows == board.rows
            &&& after.columns == board.columns
            &&& forall|row: int, column: int|
                #[trigger] after.cell(row, column) == if row == row_after(start, direction, 1)
                    && column == column_after(start, direction, 1) {
                    board.cell(row, column).with_occupant(mover)
                } else if row == start.row && column == start.column {
                    board.cell(row, column).with_occupant(None)
                } else {
                    board.cell(row, column)
                }
        }),
{
    let mover = board.occupant(start.row as int, start.column as int);
    let lifted = board.with_occupant(start.row as int, start.column as int, None);
    board.lemma_with_occupant(start.row as int, start.column as int, None);
    lifted.lemma_with_occupant(
        row_after(start, direction, 1),
        column_after(start, direction, 1),
        mover,
    );
}

} // verus!
