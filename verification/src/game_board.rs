//! The board during play: its cells, the pieces on them, and the engine that judges and
//! applies plies.
use vstd::prelude::*;
use vstd::std_specs::cmp::PartialEqSpecImpl;

use crate::action::{Action, ActionError, ActionType};
use crate::coordinate::Coordinate;
use crate::direction::Direction;
use crate::grid::{
    board_cells_clone, board_cells_get, board_cells_new, board_cells_set, board_rows, board_values,
    BoardCells, GridModel, MAX_CELLS,
};
use crate::legality::{
    action_outcome, board_after, captures_of, column_after, coordinate_after, hops_outcome,
    jump_cap, jump_outcome, move_allowed, move_outcome, replay, row_after,
};
use crate::ruleset::board_type::space::Space;
use crate::ruleset::board_type::{BoardType, BoardTypeVerifyError, MAX_DIMENSION};
use crate::ruleset::piece_definition::PieceDefinition;

verus! {

/// A side.
#[derive(Copy, Clone, Debug, PartialEq, Eq, Hash, Structural)]
pub enum Color {
    Red,
    Blue,
}

/// A piece on a board: which catalog entry defines it, and whose it is.
#[derive(Copy, Clone, Debug, PartialEq, Eq, Hash, Structural)]
pub struct Piece {
    /// Index of the piece's definition in the catalog of the ruleset in play.
    pub definition_index: usize,
    pub color: Color,
}

impl Piece {
    pub fn new(definition_index: usize, color: Color) -> (piece: Self)
        ensures
            piece == (Piece { definition_index, color }),
    {
        Piece { definition_index, color }
    }

    pub fn color(&self) -> (color: Color)
        ensures
            color == self.color,
    {
        self.color
    }

    pub fn definition_index(&self) -> (index: usize)
        ensures
            index == self.definition_index,
    {
        self.definition_index
    }
}

/// One cell of a board in play.
#[derive(Copy, Clone, Debug, PartialEq, Eq, Hash, Structural)]
pub enum BoardSpace {
    /// Not part of the playing area.
    Invalid,
    /// An ordinary cell and the piece on it, if any.
    Normal(Option<Piece>),
    /// A goal cell of one side and the piece on it, if any.
    Goal { goal_for: Color, piece: Option<Piece> },
}

impl BoardSpace {
    /// The piece on the cell; an invalid cell holds none.
    pub open spec fn occupant(self) -> Option<Piece> {
        match self {
            BoardSpace::Invalid => None,
            BoardSpace::Normal(piece) => piece,
            BoardSpace::Goal { piece, .. } => piece,
        }
    }

    /// The same cell holding `piece`; an invalid cell stays as it is.
    pub open spec fn with_occupant(self, piece: Option<Piece>) -> BoardSpace {
        match self {
            BoardSpace::Invalid => BoardSpace::Invalid,
            BoardSpace::Normal(_) => BoardSpace::Normal(piece),
            BoardSpace::Goal { goal_for, .. } => BoardSpace::Goal { goal_for, piece },
        }
    }
}

impl matrix::Element for BoardSpace {
    fn zero() -> (cell: Self)
        ensures
            cell == BoardSpace::Normal(None),
    {
        BoardSpace::Normal(None)
    }
}

/// Why a cell could not be read or written.
#[derive(Copy, Clone, Debug, PartialEq, Eq, Structural)]
pub enum GameBoardError {
    /// The position is off the board or not a playable cell.
    InvalidPosition,
}

pub type GameBoardResult<T> = Result<T, GameBoardError>;

/// A board as contracts see it.
pub type BoardModel = GridModel<BoardSpace>;

impl GridModel<BoardSpace> {
    /// The cell at any position; off the board it is `BoardSpace::Invalid`.
    pub open spec fn cell(self, row: int, column: int) -> BoardSpace {
        if self.in_bounds(row, column) {
            self.at(row, column)
        } else {
            BoardSpace::Invalid
        }
    }

    /// Whether a position is a cell of the playing area.
    pub open spec fn is_valid(self, row: int, column: int) -> bool {
        self.cell(row, column) != BoardSpace::Invalid
    }

    /// The piece at a position, if the position is playable and holds one.
    pub open spec fn occupant(self, row: int, column: int) -> Option<Piece> {
        self.cell(row, column).occupant()
    }

    /// The board with `piece` at a position; nothing changes where the position is not
    /// playable.
    pub open spec fn with_occupant(self, row: int, column: int, piece: Option<Piece>) -> BoardModel {
        if self.in_bounds(row, column) {
            self.put(row, column, self.at(row, column).with_occupant(piece))
        } else {
            self
        }
    }

    /// The number of pieces on the board.
    pub open spec fn piece_count(self) -> nat {
        count_pieces(self.cells)
    }

    /// What holds of every board in play: there is one cell per position, and neither
    /// dimension is above [`MAX_DIMENSION`].
    pub open spec fn is_board(self) -> bool {
        &&& self.well_formed()
        &&& self.rows <= MAX_DIMENSION
        &&& self.columns <= MAX_DIMENSION
    }

    /// Setting the occupant of a position keeps the shape of the board and what kind of cell
    /// each position is, and changes the occupant of that one position if it is playable.
    pub proof fn lemma_with_occupant(self, row: int, column: int, piece: Option<Piece>)
        requires
            self.well_formed(),
        ensures
            self.with_occupant(row, column, piece).well_formed(),
            self.with_occupant(row, column, piece).rows == self.rows,
            self.with_occupant(row, column, piece).columns == self.columns,
            !self.is_valid(row, column) ==> self.with_occupant(row, column, piece) == self,
            forall|r: int, c: int|
                #[trigger] self.with_occupant(row, column, piece).cell(r, c) == (if r == row && c
                    == column {
                    self.cell(r, c).with_occupant(piece)
                } else {
                    self.cell(r, c)
                }),
    {
        if self.in_bounds(row, column) {
            let cell = self.at(row, column).with_occupant(piece);
            self.lemma_put(row, column, cell);
            self.lemma_index_of(row, column);
            if !self.is_valid(row, column) {
                assert(self.put(row, column, cell).cells =~= self.cells);
            }
        }
    }
}

/// The number of cells that hold a piece.
pub open spec fn count_pieces(cells: Seq<BoardSpace>) -> nat
    decreases cells.len(),
{
    if cells.len() == 0 {
        0
    } else {
        count_pieces(cells.drop_last()) + if cells.last().occupant() is Some {
            1nat
        } else {
            0nat
        }
    }
}

/// The cell of a fresh board where the board shape has `space`.
pub open spec fn empty_cell(space: Space) -> BoardSpace {
    match space {
        Space::Invalid => BoardSpace::Invalid,
        Space::Normal => BoardSpace::Normal(None),
        Space::Goal(color) => BoardSpace::Goal { goal_for: color, piece: None },
    }
}

/// The position whose cell is the `index`-th in column-major order on a board with `rows`
/// rows.
pub open spec fn position_of(rows: nat, index: int) -> Coordinate {
    Coordinate { row: (index % rows as int) as i16, column: (index / rows as int) as i16 }
}

/// The pieces among the first `upto` cells that `keep` selects, each with its position, in
/// column-major order.
pub open spec fn pieces_among(
    board: BoardModel,
    keep: spec_fn(Piece) -> bool,
    upto: int,
) -> Seq<(Coordinate, Piece)>
    decreases upto,
{
    if upto <= 0 {
        Seq::empty()
    } else {
        let before = pieces_among(board, keep, upto - 1);
        match board.cells[upto - 1].occupant() {
            Some(piece) => if keep(piece) {
                before.push((position_of(board.rows, upto - 1), piece))
            } else {
                before
            },
            None => before,
        }
    }
}

/// The row and the column of the `index`-th cell in column-major order of a grid with
/// `rows` rows.
pub fn index_to_position(rows: usize, index: usize) -> (position: (usize, usize))
    requires
        rows > 0,
    ensures
        position.0 == index % rows,
        position.1 == index / rows,
{
    (index % rows, index / rows)
}

/// The row and the column reached from `from` by `steps` steps in `direction`.
fn stepped(from: Coordinate, direction: Direction, steps: i32) -> (reached: (i32, i32))
    requires
        0 <= steps <= 2,
    ensures
        reached.0 == row_after(from, direction, steps as int),
        reached.1 == column_after(from, direction, steps as int),
{
    let offset = direction.offset();
    let row_step = offset.row as i32;
    let column_step = offset.column as i32;
    assert(-2 <= row_step * steps <= 2 && -2 <= column_step * steps <= 2) by (nonlinear_arith)
        requires
            -1 <= row_step <= 1,
            -1 <= column_step <= 1,
            0 <= steps <= 2,
    ;
    (from.row as i32 + row_step * steps, from.column as i32 + column_step * steps)
}

/// The piece on a cell; an invalid cell holds none.
fn occupant_of(cell: BoardSpace) -> (piece: Option<Piece>)
    ensures
        piece == cell.occupant(),
{
    match cell {
        BoardSpace::Invalid => None,
        BoardSpace::Normal(piece) => piece,
        BoardSpace::Goal { goal_for: _, piece } => piece,
    }
}

/// A board in play: the cells of a board shape, the pieces on them, and the piece catalog
/// whose entries the pieces refer to.
#[derive(Debug)]
pub struct GameBoard<'a> {
    rows: usize,
    columns: usize,
    board: BoardCells,
    pieces: &'a Vec<PieceDefinition>,
}

impl<'a> View for GameBoard<'a> {
    type V = BoardModel;

    closed spec fn view(&self) -> BoardModel {
        GridModel {
            rows: self.rows as nat,
            columns: self.columns as nat,
            cells: board_values(self.board),
        }
    }
}

impl<'a> Clone for GameBoard<'a> {
    fn clone(&self) -> (copy: Self)
        ensures
            copy@ == self@,
            copy@.is_board(),
            copy.catalog() == self.catalog(),
    {
        proof {
            use_type_invariant(self);
        }
        GameBoard {
            rows: self.rows,
            columns: self.columns,
            board: board_cells_clone(&self.board),
            pieces: self.pieces,
        }
    }
}

impl<'a> PartialEqSpecImpl for GameBoard<'a> {
    open spec fn obeys_eq_spec() -> bool {
        true
    }

    open spec fn eq_spec(&self, other: &GameBoard<'a>) -> bool {
        self@ == other@
    }
}

impl<'a> PartialEq for GameBoard<'a> {
    /// Whether the two boards have the same shape and the same cells with the same pieces on
    /// them.
    fn eq(&self, other: &GameBoard<'a>) -> (same: bool) {
        let rows = self.rows();
        let columns = self.columns();
        if rows != other.rows() || columns != other.columns() {
            return false;
        }
        let mut column: usize = 0;
        while column < columns
            invariant
                self@.is_board(),
                other@.is_board(),
                rows == self@.rows == other@.rows,
                columns == self@.columns == other@.columns,
                column <= columns,
                forall|r: int, c: int|
                    0 <= r < rows && 0 <= c < column ==> #[trigger] self@.at(r, c) == other@.at(r, c),
            decreases columns - column,
        {
            let mut row: usize = 0;
            while row < rows
                invariant
                    self@.is_board(),
                    other@.is_board(),
                    rows == self@.rows == other@.rows,
                    columns == self@.columns == other@.columns,
                    column < columns,
                    row <= rows,
                    forall|r: int, c: int|
                        0 <= r < rows && 0 <= c < column ==> #[trigger] self@.at(r, c) == other@.at(
                            r,
                            c,
                        ),
                    forall|r: int|
                        0 <= r < row ==> #[trigger] self@.at(r, column as int) == other@.at(
                            r,
                            column as int,
                        ),
                decreases rows - row,
            {
                if self.read(row as i32, column as i32) != other.read(row as i32, column as i32) {
                    proof {
                        self@.lemma_index_of(row as int, column as int);
                    }
                    return false;
                }
                row = row + 1;
            }
            column = column + 1;
        }
        proof {
            assert forall|index: int| 0 <= index < self@.cells.len() implies self@.cells[index]
                == other@.cells[index] by {
                assert(rows > 0) by (nonlinear_arith)
                    requires
                        index < rows * columns,
                        0 <= index,
                        0 <= rows,
                        0 <= columns,
                ;
                let r = index % (rows as int);
                let c = index / (rows as int);
                vstd::arithmetic::div_mod::lemma_fundamental_div_mod(index, rows as int);
                assert(0 <= c < columns) by (nonlinear_arith)
                    requires
                        0 <= index < rows * columns,
                        index == rows * c + r,
                        0 <= r < rows,
                ;
                assert(self@.index_of(r, c) == index) by (nonlinear_arith)
                    requires
                        self@.index_of(r, c) == c * rows + r,
                        index == rows * c + r,
                ;
                assert(self@.at(r, c) == other@.at(r, c));
            }
            assert(self@.cells =~= other@.cells);
        }
        true
    }
}

impl<'a> GameBoard<'a> {
    #[verifier::type_invariant]
    spec fn shape_holds(self) -> bool {
        &&& board_rows(self.board) == self.rows
        &&& board_values(self.board).len() == self.rows * self.columns
        &&& self.rows <= MAX_DIMENSION
        &&& self.columns <= MAX_DIMENSION
    }

    /// The piece catalog in play.
    pub closed spec fn catalog(self) -> Seq<PieceDefinition> {
        self.pieces@
    }

    /// An empty board of the given shape, for play with the given catalog.
    ///
    /// A shape that does not pass [`BoardType::verify`] is refused with its error. Else each
    /// cell is what the shape has at its position, and no cell holds a piece.
    pub fn new(board_type: &BoardType, pieces: &'a Vec<PieceDefinition>) -> (result: Result<
        Self,
        BoardTypeVerifyError,
    >)
        ensures
            match result {
                Ok(board) => {
                    &&& board_type.check() is Ok
                    &&& board@.is_board()
                    &&& board@.rows == board_type.spec_rows()
                    &&& board@.columns == board_type.spec_columns()
                    &&& board.catalog() == pieces@
                    &&& forall|row: int, column: int|
                        board@.in_bounds(row, column) ==> #[trigger] board@.at(row, column)
                            == empty_cell(board_type.space_at(row, column))
                },
                Err(error) => board_type.check() == Err::<(), _>(error),
            },
    {
        match board_type.verify() {
            Ok(_) => {},
            Err(error) => {
                return Err(error);
            },
        }
        let rows = board_type.rows();
        let columns = board_type.columns();
        assert(rows * columns <= MAX_CELLS) by (nonlinear_arith)
            requires
                rows <= 255,
                columns <= 255,
        ;
        let mut board = GameBoard { rows, columns, board: board_cells_new(rows, columns), pieces };
        assert forall|row: int, column: int| board@.in_bounds(row, column) implies #[trigger] board@.at(
            row,
            column,
        ) == BoardSpace::Normal(None) by {
            board@.lemma_index_of(row, column);
        }
        let mut column: usize = 0;
        while column < columns
            invariant
                board_type.check() is Ok,
                rows == board_type.spec_rows(),
                columns == board_type.spec_columns(),
                column <= columns,
                board@.well_formed(),
                board@.rows == rows,
                board@.columns == columns,
                board.catalog() == pieces@,
                forall|r: int, c: int|
                    board@.in_bounds(r, c) ==> #[trigger] board@.at(r, c) == (if c < column {
                        empty_cell(board_type.space_at(r, c))
                    } else {
                        BoardSpace::Normal(None)
                    }),
            decreases columns - column,
        {
            let mut row: usize = 0;
            while row < rows
                invariant
                    board_type.check() is Ok,
                    rows == board_type.spec_rows(),
                    columns == board_type.spec_columns(),
                    column < columns,
                    row <= rows,
                    board@.well_formed(),
                    board@.rows == rows,
                    board@.columns == columns,
                    board.catalog() == pieces@,
                    forall|r: int, c: int|
                        board@.in_bounds(r, c) ==> #[trigger] board@.at(r, c) == (if c < column || (c
                            == column && r < row) {
                            empty_cell(board_type.space_at(r, c))
                        } else {
                            BoardSpace::Normal(None)
                        }),
                decreases rows - row,
            {
                let cell = match board_type.space_of(row, column) {
                    Space::Invalid => BoardSpace::Invalid,
                    Space::Normal => BoardSpace::Normal(None),
                    Space::Goal(color) => BoardSpace::Goal { goal_for: color, piece: None },
                };
                board.write(row, column, cell);
                row = row + 1;
            }
            column = column + 1;
        }
        Ok(board)
    }

    /// Replaces the cell at an in-bounds position.
    fn write(&mut self, row: usize, column: usize, cell: BoardSpace)
        requires
            old(self)@.in_bounds(row as int, column as int),
        ensures
            final(self)@.is_board(),
            final(self)@ == old(self)@.put(row as int, column as int, cell),
            final(self).catalog() == old(self).catalog(),
            final(self)@.at(row as int, column as int) == cell,
            forall|other_row: int, other_column: int|
                old(self)@.in_bounds(other_row, other_column) && (other_row != row || other_column
                    != column) ==> #[trigger] final(self)@.at(other_row, other_column) == old(
                    self,
                )@.at(other_row, other_column),
    {
        proof {
            use_type_invariant(&*self);
            self@.lemma_index_of(row as int, column as int);
            self@.lemma_put(row as int, column as int, cell);
        }
        board_cells_set(&mut self.board, row, column, cell);
    }

    /// The cell at any position; off the board it is `BoardSpace::Invalid`.
    fn read(&self, row: i32, column: i32) -> (cell: BoardSpace)
        ensures
            self@.is_board(),
            cell == self@.cell(row as int, column as int),
    {
        proof {
            use_type_invariant(self);
        }
        if row < 0 || column < 0 || row as usize >= self.rows || column as usize >= self.columns {
            BoardSpace::Invalid
        } else {
            proof {
                self@.lemma_index_of(row as int, column as int);
            }
            board_cells_get(&self.board, row as usize, column as usize)
        }
    }

    /// The piece catalog in play.
    pub fn pieces(&self) -> (pieces: &'a Vec<PieceDefinition>)
        ensures
            pieces@ == self.catalog(),
    {
        self.pieces
    }

    /// The number of rows.
    pub fn rows(&self) -> (rows: usize)
        ensures
            rows == self@.rows,
            self@.is_board(),
    {
        proof {
            use_type_invariant(self);
        }
        self.rows
    }

    /// The number of columns.
    pub fn columns(&self) -> (columns: usize)
        ensures
            columns == self@.columns,
            self@.is_board(),
    {
        proof {
            use_type_invariant(self);
        }
        self.columns
    }

    /// Whether `position` is a cell of the playing area: on the board and not invalid.
    pub fn is_valid_position(&self, position: Coordinate) -> (valid: bool)
        ensures
            valid == self@.is_valid(position.row as int, position.column as int),
    {
        match self.read(position.row as i32, position.column as i32) {
            BoardSpace::Invalid => false,
            BoardSpace::Normal(_) => true,
            BoardSpace::Goal { .. } => true,
        }
    }

    fn check_valid_position(&self, position: Coordinate) -> (result: GameBoardResult<()>)
        ensures
            result == if self@.is_valid(position.row as int, position.column as int) {
                Ok::<(), GameBoardError>(())
            } else {
                Err(GameBoardError::InvalidPosition)
            },
    {
        if self.is_valid_position(position) {
            Ok(())
        } else {
            Err(GameBoardError::InvalidPosition)
        }
    }

    /// The piece at `position`, if any; an error where `position` is off the board or not a
    /// playable cell.
    pub fn piece(&self, position: Coordinate) -> (result: GameBoardResult<Option<Piece>>)
        ensures
            result == if self@.is_valid(position.row as int, position.column as int) {
                Ok::<_, GameBoardError>(self@.occupant(position.row as int, position.column as int))
            } else {
                Err(GameBoardError::InvalidPosition)
            },
    {
        match self.check_valid_position(position) {
            Ok(_) => {},
            Err(error) => {
                return Err(error);
            },
        }
        match self.read(position.row as i32, position.column as i32) {
            BoardSpace::Normal(piece) => Ok(piece),
            BoardSpace::Goal { goal_for: _, piece } => Ok(piece),
            BoardSpace::Invalid => Err(GameBoardError::InvalidPosition),
        }
    }

    /// Puts `piece` at `position`, or clears the cell where `piece` is `None`; an error, and
    /// no change, where `position` is off the board or not a playable cell.
    pub fn set_piece(&mut self, position: Coordinate, piece: Option<Piece>) -> (result:
        GameBoardResult<()>)
        ensures
            final(self)@.is_board(),
            final(self).catalog() == old(self).catalog(),
            result == if old(self)@.is_valid(position.row as int, position.column as int) {
                Ok::<(), GameBoardError>(())
            } else {
                Err(GameBoardError::InvalidPosition)
            },
            final(self)@ == old(self)@.with_occupant(
                position.row as int,
                position.column as int,
                piece,
            ),
            result is Err ==> final(self)@ == old(self)@,
    {
        proof {
            use_type_invariant(&*self);
            self@.lemma_with_occupant(position.row as int, position.column as int, piece);
        }
        match self.read(position.row as i32, position.column as i32) {
            BoardSpace::Invalid => Err(GameBoardError::InvalidPosition),
            BoardSpace::Normal(_) => {
                self.write(position.row as usize, position.column as usize, BoardSpace::Normal(piece));
                Ok(())
            },
            BoardSpace::Goal { goal_for, piece: _ } => {
                self.write(
                    position.row as usize,
                    position.column as usize,
                    BoardSpace::Goal { goal_for, piece },
                );
                Ok(())
            },
        }
    }

    /// The longest chain of jumps that `piece` may make; `None` where its chains are not
    /// capped.
    fn jump_cap_of(&self, piece: Piece) -> (cap: Option<usize>)
        ensures
            cap == jump_cap(self.catalog(), piece),
    {
        if piece.definition_index < self.pieces.len() {
            self.pieces[piece.definition_index].jump_limit.cap()
        } else {
            Some(0)
        }
    }

    /// Whether the move rule of `piece` allows a step in `direction`.
    fn may_step(&self, piece: Piece, direction: Direction) -> (allowed: bool)
        ensures
            allowed == move_allowed(self.catalog(), piece, direction),
    {
        piece.definition_index < self.pieces.len() && self.pieces[piece.definition_index].move_rule.allows(
            direction,
        )
    }

    /// Judges a ply and gives the piece that makes it.
    fn judged_mover(&self, action: &Action) -> (result: Result<Piece, ActionError>)
        ensures
            match result {
                Ok(piece) => {
                    &&& action_outcome(self@, self.catalog(), action.start_pos, action.action_type)
                        == Ok::<(), ActionError>(())
                    &&& self@.occupant(action.start_pos.row as int, action.start_pos.column as int)
                        == Some(piece)
                },
                Err(error) => action_outcome(
                    self@,
                    self.catalog(),
                    action.start_pos,
                    action.action_type,
                ) == Err::<(), _>(error),
            },
    {
        let piece = match self.piece(action.start_pos) {
            Ok(piece) => piece,
            Err(error) => {
                return match error {
                    GameBoardError::InvalidPosition => Err(ActionError::InvalidStartPosition),
                };
            },
        };
        let piece = match piece {
            Some(piece) => piece,
            None => {
                return Err(ActionError::NoPieceAtStart);
            },
        };
        let judged = match &action.action_type {
            ActionType::Move(direction) => self.is_valid_move(action.start_pos, *direction),
            ActionType::Jump(directions) => self.is_valid_jump(
                piece,
                action.start_pos,
                directions.as_slice(),
            ),
        };
        match judged {
            Ok(unit) => {
                // The solver has to be told that there is one unit value only.
                assert(unit == ());
                Ok(piece)
            },
            Err(error) => Err(error),
        }
    }

    /// Judges a ply without making it.
    ///
    /// The start position has to be a playable cell (else `InvalidStartPosition`) with a piece
    /// on it (else `NoPieceAtStart`); then the move or the chain of jumps is judged as
    /// [`GameBoard::is_valid_move`] and [`GameBoard::is_valid_jump`] do.
    pub fn is_valid_action(&self, action: &Action) -> (result: Result<(), ActionError>)
        ensures
            result == action_outcome(self@, self.catalog(), action.start_pos, action.action_type),
    {
        match self.judged_mover(action) {
            Ok(_) => Ok(()),
            Err(error) => Err(error),
        }
    }

    /// Judges a move of one cell from `start_pos` in `direction`.
    ///
    /// The target has to be a playable cell (else `MoveOffBoard`) and empty (else
    /// `PieceOnMove` with the piece on it). The start position has to be a playable cell (else
    /// `InvalidStartPosition`) with a piece on it (else `NoPieceAtStart`), and that piece's move
    /// rule has to allow `direction` and a distance of one (else `MoveRuleViolation`).
    pub fn is_valid_move(&self, start_pos: Coordinate, direction: Direction) -> (result: Result<
        (),
        ActionError,
    >)
        ensures
            result == move_outcome(self@, self.catalog(), start_pos, direction),
    {
        let (row, column) = stepped(start_pos, direction, 1);
        match self.read(row, column) {
            BoardSpace::Invalid => {
                return Err(ActionError::MoveOffBoard);
            },
            cell => {
                match occupant_of(cell) {
                    Some(piece) => {
                        return Err(ActionError::PieceOnMove(piece));
                    },
                    None => {},
                }
            },
        }
        match self.piece(start_pos) {
            Err(error) => match error {
                GameBoardError::InvalidPosition => Err(ActionError::InvalidStartPosition),
            },
            Ok(None) => Err(ActionError::NoPieceAtStart),
            Ok(Some(mover)) => {
                if self.may_step(mover, direction) {
                    Ok(())
                } else {
                    Err(ActionError::MoveRuleViolation)
                }
            },
        }
    }

    /// Judges a chain of jumps by `piece` from `start_pos`, one jump per direction.
    ///
    /// The chain has to have a jump (else `EmptyJump`) and may not be longer than the jump
    /// limit of the piece's definition allows (else `JumpLimitExceeded`). The jumps are then
    /// judged in order, and the first that fails decides. A jump hops over the neighbouring
    /// cell and lands on the cell behind it. The landing cell has to be a playable cell (else
    /// `JumpOffBoard`), empty (else `PieceOnJump` with the piece on it) and none that the chain
    /// has stood on, `start_pos` included (else `JumpedBackToPrevPosition`); the cell hopped over
    /// has to hold a piece (else `NoPieceJumped`).
    pub fn is_valid_jump(&self, piece: Piece, start_pos: Coordinate, directions: &[Direction]) -> (result:
        Result<(), ActionError>)
        ensures
            result == jump_outcome(self@, self.catalog(), piece, start_pos, directions@),
    {
        if directions.len() == 0 {
            return Err(ActionError::EmptyJump);
        }
        match self.jump_cap_of(piece) {
            Some(cap) => {
                if directions.len() > cap {
                    return Err(ActionError::JumpLimitExceeded);
                }
            },
            None => {},
        }
        let mut prev_positions: Vec<Coordinate> = Vec::new();
        prev_positions.push(start_pos);
        assert(prev_positions@ =~= seq![start_pos]);
        assert(directions@.subrange(0, directions@.len() as int) =~= directions@);
        let mut index: usize = 0;
        while index < directions.len()
            invariant
                index <= directions.len(),
                prev_positions@.len() > 0,
                jump_outcome(self@, self.catalog(), piece, start_pos, directions@) == hops_outcome(
                    self@,
                    prev_positions@,
                    directions@.subrange(index as int, directions@.len() as int),
                ),
            decreases directions.len() - index,
        {
            let direction = directions[index];
            let from = prev_positions[prev_positions.len() - 1];
            let ghost rest = directions@.subrange(index as int, directions@.len() as int);
            assert(rest[0] == direction);
            assert(rest.drop_first() =~= directions@.subrange(
                index as int + 1,
                directions@.len() as int,
            ));
            let (middle_row, middle_column) = stepped(from, direction, 1);
            let (row, column) = stepped(from, direction, 2);
            match self.read(row, column) {
                BoardSpace::Invalid => {
                    return Err(ActionError::JumpOffBoard);
                },
                cell => {
                    match occupant_of(cell) {
                        Some(piece) => {
                            return Err(ActionError::PieceOnJump(piece));
                        },
                        None => {},
                    }
                },
            }
            let new_pos = Coordinate::new(row as i16, column as i16);
            if new_pos.is_among(&prev_positions) {
                return Err(ActionError::JumpedBackToPrevPosition);
            }
            if occupant_of(self.read(middle_row, middle_column)).is_none() {
                return Err(ActionError::NoPieceJumped);
            }
            prev_positions.push(new_pos);
            index = index + 1;
        }
        Ok(())
    }

    /// Makes a ply and lists what it captures.
    ///
    /// The ply is judged as by [`GameBoard::is_valid_action`]; an illegal ply is refused
    /// with its error. A legal ply gives a new board, on which the piece has left the start
    /// position and stands where the ply ends, and the list of the pieces it captured with
    /// their positions, in the order of capture. A jump captures the piece it hops over if
    /// that piece is of the other side; a piece of the jumper's own side stays where it is.
    /// Captured pieces are gone from the new board whatever the capture timing of the rules
    /// in play: the new board is the board as it stands when the turn has ended.
    pub fn apply_with_captures(&self, action: &Action) -> (result: Result<
        (GameBoard<'a>, Vec<(Coordinate, Piece)>),
        ActionError,
    >)
        ensures
            match result {
                Ok((board, captures)) => {
                    &&& action_outcome(self@, self.catalog(), action.start_pos, action.action_type)
                        is Ok
                    &&& board@.is_board()
                    &&& board@ == board_after(self@, action.start_pos, action.action_type)
                    &&& board.catalog() == self.catalog()
                    &&& captures@ == captures_of(self@, action.start_pos, action.action_type)
                },
                Err(error) => action_outcome(
                    self@,
                    self.catalog(),
                    action.start_pos,
                    action.action_type,
                ) == Err::<(), _>(error),
            },
    {
        let piece = match self.judged_mover(action) {
            Ok(piece) => piece,
            Err(error) => {
                return Err(error);
            },
        };
        let start = action.start_pos;
        let mut board = self.clone();
        let mut captures: Vec<(Coordinate, Piece)> = Vec::new();
        let _ = self.rows();
        let _ = board.set_piece(start, None);
        proof {
            self@.lemma_with_occupant(start.row as int, start.column as int, None);
        }
        match &action.action_type {
            ActionType::Move(direction) => {
                let (row, column) = stepped(start, *direction, 1);
                let _ = board.set_piece(Coordinate::new(row as i16, column as i16), Some(piece));
            },
            ActionType::Jump(directions) => {
                let ghost lifted = board@;
                let ghost played = replay(lifted, piece.color, start, directions@);
                let ghost mut visited = seq![start];
                let mut position = start;
                let mut index: usize = 0;
                assert(directions@.subrange(0, directions@.len() as int) =~= directions@);
                while index < directions.len()
                    invariant
                        index <= directions.len(),
                        self@.well_formed(),
                        self@.rows <= MAX_DIMENSION,
                        self@.columns <= MAX_DIMENSION,
                        board@.well_formed(),
                        board@.rows == self@.rows,
                        board@.columns == self@.columns,
                        board.catalog() == self.catalog(),
                        visited.len() > 0,
                        visited.last() == position,
                        hops_outcome(
                            self@,
                            visited,
                            directions@.subrange(index as int, directions@.len() as int),
                        ) is Ok,
                        played.board == replay(
                            board@,
                            piece.color,
                            position,
                            directions@.subrange(index as int, directions@.len() as int),
                        ).board,
                        played.end == replay(
                            board@,
                            piece.color,
                            position,
                            directions@.subrange(index as int, directions@.len() as int),
                        ).end,
                        played.captures == captures@ + replay(
                            board@,
                            piece.color,
                            position,
                            directions@.subrange(index as int, directions@.len() as int),
                        ).captures,
                    decreases directions.len() - index,
                {
                    let direction = directions[index];
                    let ghost rest = directions@.subrange(index as int, directions@.len() as int);
                    assert(rest[0] == direction);
                    assert(rest.drop_first() =~= directions@.subrange(
                        index as int + 1,
                        directions@.len() as int,
                    ));
                    let (middle_row, middle_column) = stepped(position, direction, 1);
                    let (row, column) = stepped(position, direction, 2);
                    let middle_pos = Coordinate::new(middle_row as i16, middle_column as i16);
                    let landing = Coordinate::new(row as i16, column as i16);
                    assert(middle_pos == coordinate_after(position, direction, 1));
                    assert(landing == coordinate_after(position, direction, 2));
                    let ghost before = board@;
                    let ghost listed = captures@;
                    match occupant_of(board.read(middle_row, middle_column)) {
                        Some(middle_piece) => {
                            if middle_piece.color() != piece.color() {
                                captures.push((middle_pos, middle_piece));
                                let _ = board.set_piece(middle_pos, None);
                                proof {
                                    before.lemma_with_occupant(
                                        middle_row as int,
                                        middle_column as int,
                                        None,
                                    );
                                    let after = replay(
                                        board@,
                                        piece.color,
                                        landing,
                                        rest.drop_first(),
                                    ).captures;
                                    assert(listed + (seq![(middle_pos, middle_piece)] + after)
                                        =~= listed.push((middle_pos, middle_piece)) + after);
                                }
                            }
                        },
                        None => {},
                    }
                    position = landing;
                    proof {
                        visited = visited.push(landing);
                    }
                    index = index + 1;
                }
                assert(captures@ + Seq::<(Coordinate, Piece)>::empty() =~= captures@);
                let _ = board.set_piece(position, Some(piece));
            },
        }
        Ok((board, captures))
    }

    /// Makes a ply.
    ///
    /// The ply is judged and made as by [`GameBoard::apply_with_captures`]. For each piece it
    /// captures, `capture_callback` is called with the position the piece stood on and the
    /// piece, in the order of capture. The board the ply is made on is left as it is.
    pub fn apply_action(&self, action: &Action, capture_callback: impl Fn(Coordinate, Piece)) -> (result:
        Result<GameBoard<'a>, ActionError>)
        requires
            forall|position: Coordinate, piece: Piece|
                call_requires(capture_callback, (position, piece)),
        ensures
            match result {
                Ok(board) => {
                    &&& action_outcome(self@, self.catalog(), action.start_pos, action.action_type)
                        is Ok
                    &&& board@.is_board()
                    &&& board@ == board_after(self@, action.start_pos, action.action_type)
                    &&& board.catalog() == self.catalog()
                },
                Err(error) => action_outcome(
                    self@,
                    self.catalog(),
                    action.start_pos,
                    action.action_type,
                ) == Err::<(), _>(error),
            },
    {
        match self.apply_with_captures(action) {
            Ok((board, captures)) => {
                let mut index: usize = 0;
                while index < captures.len()
                    invariant
                        index <= captures.len(),
                        forall|position: Coordinate, piece: Piece|
                            call_requires(capture_callback, (position, piece)),
                    decreases captures.len() - index,
                {
                    let (position, piece) = captures[index];
                    capture_callback(position, piece);
                    index = index + 1;
                }
                Ok(board)
            },
            Err(error) => Err(error),
        }
    }

    /// The pieces that `keep` selects, each with its position, in column-major order.
    fn pieces_where(&self, keep: impl Fn(Piece) -> bool, Ghost(wanted): Ghost<spec_fn(Piece) -> bool>) -> (found: Vec<(Coordinate, Piece)>)
        requires
            forall|piece: Piece| call_requires(keep, (piece,)),
            forall|piece: Piece, kept: bool| call_ensures(keep, (piece,), kept) ==> kept == wanted(piece),
        ensures
            found@ == pieces_among(self@, wanted, self@.cells.len() as int),
    {
        let rows = self.rows();
        let columns = self.columns();
        let mut found: Vec<(Coordinate, Piece)> = Vec::new();
        if rows == 0 {
            assert(self@.cells.len() == 0) by (nonlinear_arith)
                requires
                    self@.cells.len() == self@.rows * self@.columns,
                    self@.rows == 0,
            ;
            return found;
        }
        assert(rows * columns <= 255 * 255) by (nonlinear_arith)
            requires
                rows <= 255,
                columns <= 255,
        ;
        let count = rows * columns;
        let mut index: usize = 0;
        while index < count
            invariant
                0 < rows <= 255,
                columns <= 255,
                rows == self@.rows,
                columns == self@.columns,
                self@.well_formed(),
                count == rows * columns,
                index <= count,
                forall|piece: Piece| call_requires(keep, (piece,)),
                forall|piece: Piece, kept: bool|
                    call_ensures(keep, (piece,), kept) ==> kept == wanted(piece),
                found@ == pieces_among(self@, wanted, index as int),
            decreases count - index,
        {
            let (row, column) = index_to_position(rows, index);
            proof {
                vstd::arithmetic::div_mod::lemma_fundamental_div_mod(index as int, rows as int);
                assert(column < columns) by (nonlinear_arith)
                    requires
                        index < rows * columns,
                        index == rows * column + row,
                        0 <= row,
                        0 < rows,
                        0 <= column,
                ;
                assert(self@.index_of(row as int, column as int) == index) by (nonlinear_arith)
                    requires
                        self@.index_of(row as int, column as int) == column * rows + row,
                        index == rows * column + row,
                ;
            }
            let cell = self.read(row as i32, column as i32);
            let occupant = match cell {
                BoardSpace::Normal(piece) => piece,
                BoardSpace::Goal { goal_for: _, piece } => piece,
                BoardSpace::Invalid => None,
            };
            match occupant {
                Some(piece) => {
                    if keep(piece) {
                        found.push((Coordinate::new(row as i16, column as i16), piece));
                    }
                },
                None => {},
            }
            index = index + 1;
        }
        found
    }

    /// The pieces of one side, each with its position, in column-major order.
    pub fn pieces_of_color(&self, color: Color) -> (found: Vec<(Coordinate, Piece)>)
        ensures
            found@ == pieces_among(self@, |piece: Piece| piece.color == color, self@.cells.len() as int),
    {
        let keep = |piece: Piece| -> (kept: bool)
            ensures
                kept == (piece.color == color),
            { piece.color == color };
        self.pieces_where(keep, Ghost(|piece: Piece| piece.color == color))
    }

    /// The pieces of one catalog entry, each with its position, in column-major order.
    pub fn pieces_of_definition(&self, definition_index: usize) -> (found: Vec<(Coordinate, Piece)>)
        ensures
            found@ == pieces_among(
                self@,
                |piece: Piece| piece.definition_index == definition_index,
                self@.cells.len() as int,
            ),
    {
        let keep = |piece: Piece| -> (kept: bool)
            ensures
                kept == (piece.definition_index == definition_index),
            { piece.definition_index == definition_index };
        self.pieces_where(keep, Ghost(|piece: Piece| piece.definition_index == definition_index))
    }
}

} // verus!
