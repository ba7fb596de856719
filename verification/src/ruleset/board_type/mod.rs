//! Board shapes: which cells a board has and what each of them is.
use std::collections::HashSet;
use vstd::prelude::*;

use crate::coordinate::Coordinate;
use crate::game_board::Color;
use crate::grid::{SpaceGrid, MAX_CELLS};
use crate::ruleset::board_type::space::Space;

pub mod space;

verus! {

broadcast use vstd::std_specs::hash::group_hash_axioms;

/// The largest row or column count a board may have.
pub const MAX_DIMENSION: usize = 255;

/// A board shape.
#[derive(Debug)]
pub enum BoardType {
    /// A rectangle of `rows` by `columns` normal cells between two border rows.
    ///
    /// The board has `rows + 2` rows in all. Row `0` is Red's border and row `rows + 1` is
    /// Blue's: in the columns named by `goal_locations` a border row holds a goal of its
    /// side, elsewhere it is not part of the playing area.
    Rectangular {
        /// At least 1 and at most 253.
        rows: u8,
        /// At least 2.
        columns: u8,
        /// Every one below `columns`.
        goal_locations: HashSet<u8>,
    },
    /// A layout given cell by cell.
    Custom(SpaceGrid),
}

/// Why a board shape was rejected.
#[derive(Copy, Clone, Debug, PartialEq, Eq, Hash, Structural)]
pub enum BoardTypeVerifyError {
    InvalidRows(usize),
    InvalidColumns(usize),
    InvalidGoalLocation(usize),
}

pub type BoardTypeVerifyResult<T> = Result<T, BoardTypeVerifyError>;

/// A set with the same members as `goals`.
fn copy_goal_locations(goals: &HashSet<u8>) -> (copy: HashSet<u8>)
    ensures
        copy@ == goals@,
{
    let mut copy: HashSet<u8> = HashSet::new();
    let mut next: u16 = 0;
    while next <= 255
        invariant
            next <= 256,
            forall|other: u8| other < next ==> (copy@.contains(other) <==> goals@.contains(other)),
            forall|other: u8| other >= next ==> !copy@.contains(other),
        decreases 256 - next,
    {
        let location = next as u8;
        if goals.contains(&location) {
            copy.insert(location);
        }
        next = next + 1;
    }
    assert(copy@ =~= goals@);
    copy
}

impl Clone for BoardType {
    fn clone(&self) -> (copy: Self)
        ensures
            copy.same_shape(*self),
    {
        match self {
            BoardType::Rectangular { rows, columns, goal_locations } => BoardType::Rectangular {
                rows: *rows,
                columns: *columns,
                goal_locations: copy_goal_locations(goal_locations),
            },
            BoardType::Custom(grid) => BoardType::Custom(grid.clone()),
        }
    }
}

/// The smallest member of `goals` that is at least `from`, if there is one.
pub open spec fn first_goal_from(goals: Set<u8>, from: int) -> Option<u8>
    decreases 256 - from,
{
    if from < 0 || from > 255 {
        None
    } else if goals.contains(from as u8) {
        Some(from as u8)
    } else {
        first_goal_from(goals, from + 1)
    }
}

/// `first_goal_from` gives a member that is at least `from` and before which, from `from`
/// on, there is none; it gives none only where no member is at least `from`.
pub proof fn lemma_first_goal_from(goals: Set<u8>, from: int)
    requires
        0 <= from,
    ensures
        match first_goal_from(goals, from) {
            Some(location) => goals.contains(location) && from <= location && forall|other: u8|
                from <= other < location ==> !goals.contains(other),
            None => forall|other: u8| from <= other ==> !goals.contains(other),
        },
    decreases 256 - from,
{
    if from <= 255 && !goals.contains(from as u8) {
        lemma_first_goal_from(goals, from + 1);
    }
}

/// The limits of a rectangular board, each with the error that breaking it gives: a row
/// count of zero or above 253 gives `InvalidRows`; with the rows in order, fewer than two
/// columns give `InvalidColumns`; with both in order, a goal column that is not below the
/// column count gives `InvalidGoalLocation` with such a column. A board within all limits
/// passes.
pub proof fn lemma_rectangular_limits(board: BoardType)
    requires
        board is Rectangular,
    ensures
        ({
            let rows = board->rows;
            let columns = board->columns;
            let goals = board->goal_locations@;
            let rows_fit = 1 <= rows <= 253;
            let columns_fit = 2 <= columns;
            let goals_fit = forall|location: u8| goals.contains(location) ==> location < columns;
            &&& !rows_fit ==> board.check() == Err::<(), _>(
                BoardTypeVerifyError::InvalidRows(rows as usize),
            )
            &&& rows_fit && !columns_fit ==> board.check() == Err::<(), _>(
                BoardTypeVerifyError::InvalidColumns(columns as usize),
            )
            &&& rows_fit && columns_fit && !goals_fit ==> {
                &&& board.check() matches Err(BoardTypeVerifyError::InvalidGoalLocation(location))
                &&& columns <= location <= 255
                &&& goals.contains(location as u8)
            }
            &&& rows_fit && columns_fit && goals_fit ==> board.check() is Ok
        }),
{
    lemma_first_goal_from(board->goal_locations@, board->columns as int);
}

impl BoardType {
    /// Whether two values describe the same shape: the same kind of board with the same
    /// dimensions, goal columns and cells.
    pub open spec fn same_shape(self, other: BoardType) -> bool {
        match (self, other) {
            (
                BoardType::Rectangular { rows, columns, goal_locations },
                BoardType::Rectangular {
                    rows: other_rows,
                    columns: other_columns,
                    goal_locations: other_goals,
                },
            ) => rows == other_rows && columns == other_columns && goal_locations@ == other_goals@,
            (BoardType::Custom(grid), BoardType::Custom(other_grid)) => grid@ == other_grid@,
            _ => false,
        }
    }

    /// The number of rows, border rows included.
    pub open spec fn spec_rows(self) -> nat {
        match self {
            BoardType::Rectangular { rows, .. } => (rows + 2) as nat,
            BoardType::Custom(grid) => grid@.rows,
        }
    }

    pub open spec fn spec_columns(self) -> nat {
        match self {
            BoardType::Rectangular { columns, .. } => columns as nat,
            BoardType::Custom(grid) => grid@.columns,
        }
    }

    pub open spec fn in_bounds(self, row: int, column: int) -> bool {
        0 <= row < self.spec_rows() && 0 <= column < self.spec_columns()
    }

    /// What the cell at a position is; a position out of bounds is `Space::Invalid`.
    pub open spec fn space_at(self, row: int, column: int) -> Space {
        if !self.in_bounds(row, column) {
            Space::Invalid
        } else {
            match self {
                BoardType::Rectangular { rows, goal_locations, .. } => {
                    if row == 0 {
                        if goal_locations@.contains(column as u8) {
                            Space::Goal(Color::Red)
                        } else {
                            Space::Invalid
                        }
                    } else if row == rows + 1 {
                        if goal_locations@.contains(column as u8) {
                            Space::Goal(Color::Blue)
                        } else {
                            Space::Invalid
                        }
                    } else {
                        Space::Normal
                    }
                },
                BoardType::Custom(grid) => grid@.at(row, column),
            }
        }
    }

    /// What `verify` returns.
    ///
    /// A rectangular board is checked for its row count, then its column count, then its goal
    /// columns, of which the smallest offending one is reported. A custom board is checked for
    /// its row count, then its column count.
    pub open spec fn check(self) -> Result<(), BoardTypeVerifyError> {
        match self {
            BoardType::Rectangular { rows, columns, goal_locations } => {
                if rows < 1 || rows > u8::MAX - 2 {
                    Err(BoardTypeVerifyError::InvalidRows(rows as usize))
                } else if columns < 2 {
                    Err(BoardTypeVerifyError::InvalidColumns(columns as usize))
                } else {
                    match first_goal_from(goal_locations@, columns as int) {
                        Some(location) => Err(
                            BoardTypeVerifyError::InvalidGoalLocation(location as usize),
                        ),
                        None => Ok(()),
                    }
                }
            },
            BoardType::Custom(grid) => {
                if grid@.rows > MAX_DIMENSION {
                    Err(BoardTypeVerifyError::InvalidRows(grid@.rows as usize))
                } else if grid@.columns > MAX_DIMENSION {
                    Err(BoardTypeVerifyError::InvalidColumns(grid@.columns as usize))
                } else {
                    Ok(())
                }
            },
        }
    }

    /// Whether some cell is a goal.
    pub open spec fn spec_has_goal(self) -> bool {
        exists|row: int, column: int| #[trigger] self.space_at(row, column) is Goal
    }

    /// The row a position's row is mirrored to: the board turned upside down.
    pub open spec fn mirrored_row(self, row: int) -> int {
        self.spec_rows() - 1 - row
    }

    /// The column a position's column is mirrored to: the board turned left to right.
    pub open spec fn mirrored_column(self, column: int) -> int {
        self.spec_columns() - 1 - column
    }

    /// Checks the shape: `Ok` exactly for a shape that meets the limits stated on
    /// [`BoardType`], else the first limit that is broken.
    pub fn verify(&self) -> (result: BoardTypeVerifyResult<()>)
        ensures
            result == self.check(),
    {
        match self {
            BoardType::Rectangular { rows, columns, goal_locations } => {
                if *rows < 1 || *rows > u8::MAX - 2 {
                    Err(BoardTypeVerifyError::InvalidRows(*rows as usize))
                } else if *columns < 2 {
                    Err(BoardTypeVerifyError::InvalidColumns(*columns as usize))
                } else {
                    let mut next: u16 = *columns as u16;
                    while next <= 255
                        invariant
                            self == (BoardType::Rectangular { rows: *rows, columns: *columns, goal_locations: *goal_locations }),
                            1 <= *rows <= u8::MAX - 2,
                            2 <= *columns <= next <= 256,
                            first_goal_from(goal_locations@, *columns as int) == first_goal_from(
                                goal_locations@,
                                next as int,
                            ),
                        decreases 256 - next,
                    {
                        let location = next as u8;
                        if goal_locations.contains(&location) {
                            return Err(BoardTypeVerifyError::InvalidGoalLocation(location as usize));
                        }
                        next = next + 1;
                    }
                    Ok(())
                }
            },
            BoardType::Custom(board) => {
                if board.rows() > MAX_DIMENSION {
                    return Err(BoardTypeVerifyError::InvalidRows(board.rows()));
                }
                if board.columns() > MAX_DIMENSION {
                    return Err(BoardTypeVerifyError::InvalidColumns(board.columns()));
                }
                Ok(())
            },
        }
    }

    /// The number of rows, border rows included.
    pub fn rows(&self) -> (rows: usize)
        ensures
            rows == self.spec_rows(),
    {
        match self {
            BoardType::Rectangular { rows, .. } => *rows as usize + 2,
            BoardType::Custom(grid) => grid.rows(),
        }
    }

    pub fn columns(&self) -> (columns: usize)
        ensures
            columns == self.spec_columns(),
    {
        match self {
            BoardType::Rectangular { columns, .. } => *columns as usize,
            BoardType::Custom(grid) => grid.columns(),
        }
    }

    /// What the cell at `position` is; off the board it is `Space::Invalid`.
    pub fn get_space(&self, position: Coordinate) -> (space: Space)
        ensures
            space == self.space_at(position.row as int, position.column as int),
    {
        if position.row < 0 || position.column < 0 {
            return Space::Invalid;
        }
        let row = position.row as usize;
        let column = position.column as usize;
        self.space_of(row, column)
    }

    /// What the cell in `row` and `column` is; off the board it is `Space::Invalid`.
    pub fn space_of(&self, row: usize, column: usize) -> (space: Space)
        ensures
            space == self.space_at(row as int, column as int),
    {
        match self {
            BoardType::Rectangular { rows, columns, goal_locations } => {
                if row >= *rows as usize + 2 || column >= *columns as usize {
                    Space::Invalid
                } else if row == 0 {
                    if goal_locations.contains(&(column as u8)) {
                        Space::Goal(Color::Red)
                    } else {
                        Space::Invalid
                    }
                } else if row == *rows as usize + 1 {
                    if goal_locations.contains(&(column as u8)) {
                        Space::Goal(Color::Blue)
                    } else {
                        Space::Invalid
                    }
                } else {
                    Space::Normal
                }
            },
            BoardType::Custom(grid) => {
                match grid.get(row, column) {
                    Some(space) => space,
                    None => Space::Invalid,
                }
            },
        }
    }

    /// Whether the board has a goal cell.
    pub fn has_goal(&self) -> (has: bool)
        ensures
            has == self.spec_has_goal(),
    {
        let rows = self.rows();
        let columns = self.columns();
        let mut column: usize = 0;
        while column < columns
            invariant
                rows == self.spec_rows(),
                columns == self.spec_columns(),
                column <= columns,
                forall|r: int, c: int| 0 <= c < column ==> !(#[trigger] self.space_at(r, c) is Goal),
            decreases columns - column,
        {
            let mut row: usize = 0;
            while row < rows
                invariant
                    rows == self.spec_rows(),
                    columns == self.spec_columns(),
                    column < columns,
                    row <= rows,
                    forall|r: int, c: int|
                        0 <= c < column ==> !(#[trigger] self.space_at(r, c) is Goal),
                    forall|r: int| 0 <= r < row ==> !(#[trigger] self.space_at(r, column as int) is Goal),
                decreases rows - row,
            {
                match self.space_of(row, column) {
                    Space::Goal(_) => {
                        return true;
                    },
                    Space::Invalid => {},
                    Space::Normal => {},
                }
                row = row + 1;
            }
            column = column + 1;
        }
        false
    }

    /// Lays the shape out cell by cell.
    ///
    /// A shape that does not pass [`BoardType::verify`] is handed back with the error. Else
    /// the grid has the board's dimensions and holds at each position what
    /// [`BoardType::space_at`] gives there.
    pub fn into_matrix(self) -> (result: Result<SpaceGrid, (Self, BoardTypeVerifyError)>)
        ensures
            match result {
                Ok(grid) => {
                    &&& self.check() is Ok
                    &&& grid@.well_formed()
                    &&& grid@.rows == self.spec_rows()
                    &&& grid@.columns == self.spec_columns()
                    &&& forall|row: int, column: int|
                        self.in_bounds(row, column) ==> #[trigger] grid@.at(row, column)
                            == self.space_at(row, column)
                },
                Err((board, error)) => board == self && self.check() == Err::<(), _>(error),
            },
    {
        match self.verify() {
            Ok(_) => match self {
                BoardType::Rectangular { rows, columns, goal_locations } => {
                    let last_row = rows as usize + 1;
                    let width = columns as usize;
                    assert((last_row + 1) * width <= MAX_CELLS) by (nonlinear_arith)
                        requires
                            last_row <= 256,
                            width <= 255,
                    ;
                    let mut out = SpaceGrid::new(last_row + 1, width);
                    let mut x: usize = 0;
                    assert forall|row: int, column: int| out@.in_bounds(row, column) implies #[trigger] out@.at(
                        row,
                        column,
                    ) == Space::Normal by {
                        out@.lemma_index_of(row, column);
                    }
                    while x < width
                        invariant
                            self == (BoardType::Rectangular { rows, columns, goal_locations }),
                            last_row == rows + 1,
                            width == columns,
                            x <= width,
                            1 <= rows <= u8::MAX - 2,
                            out@.well_formed(),
                            out@.rows == last_row + 1,
                            out@.columns == width,
                            forall|row: int, column: int|
                                out@.in_bounds(row, column) ==> #[trigger] out@.at(row, column) == (
                                if column < x {
                                    self.space_at(row, column)
                                } else {
                                    Space::Normal
                                }),
                        decreases width - x,
                    {
                        let is_goal = goal_locations.contains(&(x as u8));
                        let top = if is_goal {
                            Space::Goal(Color::Red)
                        } else {
                            Space::Invalid
                        };
                        let bottom = if is_goal {
                            Space::Goal(Color::Blue)
                        } else {
                            Space::Invalid
                        };
                        proof {
                            out@.lemma_put(0, x as int, top);
                            out@.put(0, x as int, top).lemma_put(last_row as int, x as int, bottom);
                        }
                        out.set(0, x, top);
                        out.set(last_row, x, bottom);
                        x = x + 1;
                    }
                    Ok(out)
                },
                BoardType::Custom(out) => {
                    let _ = out.rows();
                    Ok(out)
                },
            },
            Err(error) => Err((self, error)),
        }
    }

    /// Whether the mirror image of `position` in the rows is a coordinate.
    pub open spec fn can_flip(self, position: Coordinate) -> bool {
        i16::MIN <= self.mirrored_row(position.row as int) <= i16::MAX
    }

    /// Whether the image of `position` under a half turn is a coordinate.
    pub open spec fn can_rotate(self, position: Coordinate) -> bool {
        &&& i16::MIN <= self.mirrored_row(position.row as int) <= i16::MAX
        &&& i16::MIN <= self.mirrored_column(position.column as int) <= i16::MAX
    }

    /// Mirrors `position` in the rows: row `r` becomes row `rows - 1 - r`, the column stays.
    pub fn flip_coordinate(&self, position: Coordinate) -> (mirrored: Coordinate)
        requires
            self.can_flip(position),
        ensures
            mirrored.row == self.mirrored_row(position.row as int),
            mirrored.column == position.column,
    {
        let rows = self.rows();
        let row = rows as i64 - 1 - position.row as i64;
        Coordinate::new(row as i16, position.column)
    }

    /// Turns `position` by half a turn about the centre of the board: row `r` becomes row
    /// `rows - 1 - r` and column `c` becomes column `columns - 1 - c`.
    pub fn rotate_coordinate(&self, position: Coordinate) -> (rotated: Coordinate)
        requires
            self.can_rotate(position),
        ensures
            rotated.row == self.mirrored_row(position.row as int),
            rotated.column == self.mirrored_column(position.column as int),
    {
        let rows = self.rows();
        let columns = self.columns();
        let row = rows as i64 - 1 - position.row as i64;
        let column = columns as i64 - 1 - position.column as i64;
        Coordinate::new(row as i16, column as i16)
    }
}

} // verus!
