//! Dense two-dimensional storage.
//!
//! The cells live in `matrix::format::Conventional`, which keeps them in one vector in
//! column-major order. This module holds everything that is believed of that type rather
//! than proved, and on top of it the checked grid of [`Space`]s that board shapes use.
use matrix::format::Conventional;
use vstd::prelude::*;

use crate::game_board::BoardSpace;
use crate::ruleset::board_type::space::Space;

verus! {

/// A grid as contracts see it: its dimensions and its cells in column-major order.
pub struct GridModel<T> {
    pub rows: nat,
    pub columns: nat,
    pub cells: Seq<T>,
}

impl<T> GridModel<T> {
    /// There is exactly one cell per position.
    pub open spec fn well_formed(self) -> bool {
        self.cells.len() == self.rows * self.columns
    }

    pub open spec fn in_bounds(self, row: int, column: int) -> bool {
        0 <= row < self.rows && 0 <= column < self.columns
    }

    /// Where the cell of a position lies in `cells`.
    pub open spec fn index_of(self, row: int, column: int) -> int {
        column * self.rows + row
    }

    /// The cell of an in-bounds position.
    pub open spec fn at(self, row: int, column: int) -> T
        recommends
            self.in_bounds(row, column),
    {
        self.cells[self.index_of(row, column)]
    }

    /// The grid with the cell of one position replaced.
    pub open spec fn put(self, row: int, column: int, cell: T) -> GridModel<T>
        recommends
            self.in_bounds(row, column),
    {
        GridModel {
            rows: self.rows,
            columns: self.columns,
            cells: self.cells.update(self.index_of(row, column), cell),
        }
    }

    /// Every in-bounds position has a cell of its own.
    pub proof fn lemma_index_of(self, row: int, column: int)
        requires
            self.well_formed(),
            self.in_bounds(row, column),
        ensures
            0 <= self.index_of(row, column) < self.cells.len(),
            self.index_of(row, column) % (self.rows as int) == row,
            self.index_of(row, column) / (self.rows as int) == column,
    {
        let rows = self.rows as int;
        assert(column * rows + rows <= rows * self.columns) by (nonlinear_arith)
            requires
                0 <= column < self.columns,
                0 <= rows,
        ;
        assert(0 <= column * rows) by (nonlinear_arith)
            requires
                0 <= column,
                0 <= rows,
        ;
        vstd::arithmetic::div_mod::lemma_fundamental_div_mod_converse(
            self.index_of(row, column),
            rows,
            column,
            row,
        );
    }

    /// Replacing the cell of one position changes that cell and no other.
    pub proof fn lemma_put(self, row: int, column: int, cell: T)
        requires
            self.well_formed(),
            self.in_bounds(row, column),
        ensures
            self.put(row, column, cell).well_formed(),
            self.put(row, column, cell).at(row, column) == cell,
            forall|other_row: int, other_column: int|
                self.in_bounds(other_row, other_column) && (other_row != row || other_column
                    != column) ==> #[trigger] self.put(row, column, cell).at(
                    other_row,
                    other_column,
                ) == self.at(other_row, other_column),
    {
        self.lemma_index_of(row, column);
        assert forall|other_row: int, other_column: int|
            self.in_bounds(other_row, other_column) && (other_row != row || other_column
                != column) implies #[trigger] self.put(row, column, cell).at(
            other_row,
            other_column,
        ) == self.at(other_row, other_column) by {
            self.lemma_index_of(other_row, other_column);
            if self.index_of(other_row, other_column) == self.index_of(row, column) {
                self.lemma_index_of_injective(row, column, other_row, other_column);
            }
        }
    }

    /// Two in-bounds positions share a cell only if they are the same position.
    pub proof fn lemma_index_of_injective(self, row: int, column: int, other_row: int, other_column: int)
        requires
            self.well_formed(),
            self.in_bounds(row, column),
            self.in_bounds(other_row, other_column),
            self.index_of(row, column) == self.index_of(other_row, other_column),
        ensures
            row == other_row,
            column == other_column,
    {
        self.lemma_index_of(row, column);
        self.lemma_index_of(other_row, other_column);
    }
}

/// The greatest number of cells that a grid is made with.
pub const MAX_CELLS: usize = 0x100_0000;

/// The storage of a board shape: a `matrix::format::Conventional` of [`Space`]s. Nothing
/// is known of it but what the functions of this module state.
#[derive(Debug)]
#[verifier::external_body]
pub struct SpaceCells {
    inner: Conventional<Space>,
}

/// The cells of the storage, in the order of its vector `values`.
pub uninterp spec fn space_values(cells: SpaceCells) -> Seq<Space>;

/// The row count the storage was made with, its field `rows`.
pub uninterp spec fn space_rows(cells: SpaceCells) -> nat;

/// `Conventional::new` with the size `(rows, columns)`: the matrix keeps `rows` as its row
/// count and holds `rows * columns` values, each `Space::zero()`, which is `Space::Normal`.
/// This is believed for up to [`MAX_CELLS`] cells, so that neither the product nor the
/// allocation can overflow.
#[verifier::external_body]
fn space_cells_new(rows: usize, columns: usize) -> (cells: SpaceCells)
    requires
        rows * columns <= MAX_CELLS,
    ensures
        space_rows(cells) == rows,
        space_values(cells) == Seq::new((rows * columns) as nat, |i: int| Space::Normal),
{
    SpaceCells { inner: Conventional::new((rows, columns)) }
}

/// `Index::index` of `Conventional` with a `(row, column)` pair: the value at index
/// `column * rows + row` of its values. This is believed where that index lies within the
/// values; elsewhere the matrix panics.
#[verifier::external_body]
fn space_cells_get(cells: &SpaceCells, row: usize, column: usize) -> (space: Space)
    requires
        column * space_rows(*cells) + row < space_values(*cells).len(),
    ensures
        space == space_values(*cells)[column * space_rows(*cells) + row],
{
    cells.inner[(row, column)]
}

/// `IndexMut::index_mut` of `Conventional` with a `(row, column)` pair, written through:
/// the value at index `column * rows + row` of its values is replaced, and nothing else
/// changes. This is believed where that index lies within the values; elsewhere the matrix
/// panics.
#[verifier::external_body]
fn space_cells_set(cells: &mut SpaceCells, row: usize, column: usize, space: Space)
    requires
        column * space_rows(*old(cells)) + row < space_values(*old(cells)).len(),
    ensures
        space_rows(*final(cells)) == space_rows(*old(cells)),
        space_values(*final(cells)) == space_values(*old(cells)).update(
            column * space_rows(*old(cells)) + row,
            space,
        ),
    no_unwind
{
    cells.inner[(row, column)] = space;
}

/// `Clone::clone` of `Conventional`, which the matrix derives: the copy has the same row
/// count and the same values.
#[verifier::external_body]
fn space_cells_clone(cells: &SpaceCells) -> (copy: SpaceCells)
    ensures
        space_rows(copy) == space_rows(*cells),
        space_values(copy) == space_values(*cells),
{
    SpaceCells { inner: cells.inner.clone() }
}

/// A rectangular grid of [`Space`]s, the explicit layout of a custom board shape.
#[derive(Debug)]
pub struct SpaceGrid {
    rows: usize,
    columns: usize,
    cells: SpaceCells,
}

impl View for SpaceGrid {
    type V = GridModel<Space>;

    closed spec fn view(&self) -> GridModel<Space> {
        GridModel {
            rows: self.rows as nat,
            columns: self.columns as nat,
            cells: space_values(self.cells),
        }
    }
}

impl SpaceGrid {
    #[verifier::type_invariant]
    spec fn shape_holds(self) -> bool {
        &&& space_rows(self.cells) == self.rows
        &&& space_values(self.cells).len() == self.rows * self.columns
        &&& self.rows * self.columns <= MAX_CELLS
    }

    /// A grid of the given size with every cell `Space::Normal`.
    pub fn new(rows: usize, columns: usize) -> (grid: Self)
        requires
            rows * columns <= MAX_CELLS,
        ensures
            grid@.well_formed(),
            grid@.rows == rows,
            grid@.columns == columns,
            forall|i: int| 0 <= i < grid@.cells.len() ==> grid@.cells[i] == Space::Normal,
    {
        SpaceGrid { rows, columns, cells: space_cells_new(rows, columns) }
    }

    pub fn rows(&self) -> (rows: usize)
        ensures
            rows == self@.rows,
            self@.well_formed(),
    {
        proof {
            use_type_invariant(self);
        }
        self.rows
    }

    pub fn columns(&self) -> (columns: usize)
        ensures
            columns == self@.columns,
            self@.well_formed(),
    {
        proof {
            use_type_invariant(self);
        }
        self.columns
    }

    /// The cell at a position, or `None` where the position is out of bounds.
    pub fn get(&self, row: usize, column: usize) -> (space: Option<Space>)
        ensures
            self@.well_formed(),
            space == if self@.in_bounds(row as int, column as int) {
                Some(self@.at(row as int, column as int))
            } else {
                None
            },
    {
        proof {
            use_type_invariant(self);
        }
        if row < self.rows && column < self.columns {
            proof {
                self@.lemma_index_of(row as int, column as int);
            }
            Some(space_cells_get(&self.cells, row, column))
        } else {
            None
        }
    }

    /// Replaces the cell at a position. Returns whether the position was in bounds; out of
    /// bounds nothing changes.
    pub fn set(&mut self, row: usize, column: usize, space: Space) -> (written: bool)
        ensures
            final(self)@.well_formed(),
            written == old(self)@.in_bounds(row as int, column as int),
            final(self)@ == if written {
                old(self)@.put(row as int, column as int, space)
            } else {
                old(self)@
            },
    {
        proof {
            use_type_invariant(&*self);
        }
        if row < self.rows && column < self.columns {
            proof {
                self@.lemma_index_of(row as int, column as int);
            }
            space_cells_set(&mut self.cells, row, column, space);
            true
        } else {
            false
        }
    }
}

impl Clone for SpaceGrid {
    fn clone(&self) -> (copy: Self)
        ensures
            copy@ == self@,
    {
        proof {
            use_type_invariant(self);
        }
        SpaceGrid { rows: self.rows, columns: self.columns, cells: space_cells_clone(&self.cells) }
    }
}

/// The storage of a board in play: a `matrix::format::Conventional` of [`BoardSpace`]s.
/// Nothing is known of it but what the functions of this module state.
#[derive(Debug)]
#[verifier::external_body]
pub struct BoardCells {
    inner: Conventional<BoardSpace>,
}

/// The cells of the storage, in the order of its vector `values`.
pub uninterp spec fn board_values(cells: BoardCells) -> Seq<BoardSpace>;

/// The row count the storage was made with, its field `rows`.
pub uninterp spec fn board_rows(cells: BoardCells) -> nat;

/// `Conventional::new` with the size `(rows, columns)`: the matrix keeps `rows` as its row
/// count and holds `rows * columns` values, each `BoardSpace::zero()`, which is an empty
/// normal cell. This is believed for up to [`MAX_CELLS`] cells, so that neither the product
/// nor the allocation can overflow.
#[verifier::external_body]
pub(crate) fn board_cells_new(rows: usize, columns: usize) -> (cells: BoardCells)
    requires
        rows * columns <= MAX_CELLS,
    ensures
        board_rows(cells) == rows,
        board_values(cells) == Seq::new(
            (rows * columns) as nat,
            |i: int| BoardSpace::Normal(None),
        ),
{
    BoardCells { inner: Conventional::new((rows, columns)) }
}

/// `Index::index` of `Conventional` with a `(row, column)` pair: the value at index
/// `column * rows + row` of its values. This is believed where that index lies within the
/// values; elsewhere the matrix panics.
#[verifier::external_body]
pub(crate) fn board_cells_get(cells: &BoardCells, row: usize, column: usize) -> (cell: BoardSpace)
    requires
        column * board_rows(*cells) + row < board_values(*cells).len(),
    ensures
        cell == board_values(*cells)[column * board_rows(*cells) + row],
{
    cells.inner[(row, column)]
}

/// `IndexMut::index_mut` of `Conventional` with a `(row, column)` pair, written through:
/// the value at index `column * rows + row` of its values is replaced, and nothing else
/// changes. This is believed where that index lies within the values; elsewhere the matrix
/// panics.
#[verifier::external_body]
pub(crate) fn board_cells_set(cells: &mut BoardCells, row: usize, column: usize, cell: BoardSpace)
    requires
        column * board_rows(*old(cells)) + row < board_values(*old(cells)).len(),
    ensures
        board_rows(*final(cells)) == board_rows(*old(cells)),
        board_values(*final(cells)) == board_values(*old(cells)).update(
            column * board_rows(*old(cells)) + row,
            cell,
        ),
    no_unwind
{
    cells.inner[(row, column)] = cell;
}

/// `Clone::clone` of `Conventional`, which the matrix derives: the copy has the same row
/// count and the same values.
#[verifier::external_body]
pub(crate) fn board_cells_clone(cells: &BoardCells) -> (copy: BoardCells)
    ensures
        board_rows(copy) == board_rows(*cells),
        board_values(copy) == board_values(*cells),
{
    BoardCells { inner: cells.inner.clone() }
}

} // verus!
