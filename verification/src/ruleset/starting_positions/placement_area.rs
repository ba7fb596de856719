//! Where the sides may place their pieces.
use vstd::prelude::*;

use crate::coordinate::Coordinate;
use crate::game_board::Color;
use crate::ruleset::board_type::space::Space;
use crate::ruleset::board_type::BoardType;
use crate::ruleset::color_map::ColorMap;

verus! {

/// A way of mirroring one side's cells onto the other side's.
#[derive(Copy, Clone, Debug, PartialEq, Eq, Structural)]
pub enum Mirroring {
    /// The board turned upside down: a row becomes its mirror row, the column stays.
    Flipped,
    /// The board turned by half a turn: a row becomes its mirror row and a column its mirror
    /// column.
    Rotated,
}

impl Mirroring {
    /// The row that `row` is mirrored to on `board`.
    pub open spec fn image_row(self, board: BoardType, row: int) -> int {
        board.mirrored_row(row)
    }

    /// The column that `column` is mirrored to on `board`.
    pub open spec fn image_column(self, board: BoardType, column: int) -> int {
        match self {
            Mirroring::Flipped => column,
            Mirroring::Rotated => board.mirrored_column(column),
        }
    }

    /// The row and the column that an in-bounds position is mirrored to on `board`.
    pub fn image(&self, board: &BoardType, row: usize, column: usize) -> (image: (usize, usize))
        requires
            board.in_bounds(row as int, column as int),
        ensures
            image.0 == self.image_row(*board, row as int),
            image.1 == self.image_column(*board, column as int),
            board.in_bounds(image.0 as int, image.1 as int),
    {
        let image_row = board.rows() - 1 - row;
        match self {
            Mirroring::Flipped => (image_row, column),
            Mirroring::Rotated => (image_row, board.columns() - 1 - column),
        }
    }
}

/// Where the sides may place their pieces.
#[derive(Clone, Debug, PartialEq, Eq)]
pub enum PlacementArea {
    /// Each side may place on its half of the board.
    Half,
    /// One side may place on the given cells, the other on their images with the board
    /// turned upside down. No cell may be given twice, and no cell may be open to both
    /// sides.
    MirroredFlipped(Vec<Coordinate>),
    /// One side may place on the given cells, the other on their images with the board
    /// turned by half a turn. No cell may be given twice, and no cell may be open to both
    /// sides.
    MirroredRotated(Vec<Coordinate>),
    /// Each side may place on the cells given for it. Cells have to be given for both
    /// sides, and no cell may be given twice.
    NonMirrored(ColorMap<Vec<Coordinate>>),
}

/// Why a placement area was rejected.
#[derive(Copy, Clone, Debug, PartialEq, Eq, Hash, Structural)]
pub enum PlacementAreaError {
    /// The position is off the board.
    PositionCannotPlace(Space, Coordinate),
    /// The position is given twice, or is open to both sides.
    PositionCollision(Coordinate),
    /// No cells are given for the side.
    ColorNotFound(Color),
}

pub type PlacementAreaResult<T> = Result<T, PlacementAreaError>;

/// The verdict on the cells of a mirrored area, walked in order. `taken` holds the cells
/// walked so far and their images.
///
/// A cell has to be on the board, else it cannot be placed on. It collides if it or its
/// image is among `taken`, or if it is its own image. The first cell that fails decides.
pub open spec fn mirrored_outcome(
    board: BoardType,
    mirroring: Mirroring,
    positions: Seq<Coordinate>,
    taken: Seq<(int, int)>,
) -> PlacementAreaResult<()>
    decreases positions.len(),
{
    if positions.len() == 0 {
        Ok(())
    } else {
        let position = positions[0];
        let cell = cell_of(position);
        let image = image_of(board, mirroring, position);
        if !board.in_bounds(position.row as int, position.column as int) {
            Err(PlacementAreaError::PositionCannotPlace(Space::Invalid, position))
        } else if taken.contains(cell) || taken.contains(image) || image == cell {
            Err(PlacementAreaError::PositionCollision(position))
        } else {
            mirrored_outcome(board, mirroring, positions.drop_first(), taken.push(cell).push(image))
        }
    }
}

/// The row and the column of a cell.
pub open spec fn cell_of(position: Coordinate) -> (int, int) {
    (position.row as int, position.column as int)
}

/// The row and the column of the image of a cell.
pub open spec fn image_of(board: BoardType, mirroring: Mirroring, position: Coordinate) -> (int, int) {
    (
        mirroring.image_row(board, position.row as int),
        mirroring.image_column(board, position.column as int),
    )
}

/// Whether cell number `index` of a mirrored area passes: it is on the board, it is not its
/// own image, and neither it nor its image is among `taken`, is a cell of the area that
/// comes before it, or is the image of one.
pub open spec fn area_cell_passes(
    board: BoardType,
    mirroring: Mirroring,
    positions: Seq<Coordinate>,
    taken: Seq<(int, int)>,
    index: int,
) -> bool {
    let cell = cell_of(positions[index]);
    let image = image_of(board, mirroring, positions[index]);
    &&& board.in_bounds(cell.0, cell.1)
    &&& image != cell
    &&& !taken.contains(cell)
    &&& !taken.contains(image)
    &&& forall|earlier: int|
        0 <= earlier < index ==> {
            let other = cell_of(#[trigger] positions[earlier]);
            let other_image = image_of(board, mirroring, positions[earlier]);
            other != cell && other_image != cell && other != image && other_image != image
        }
}

/// A mirrored area passes exactly if each of its cells passes.
pub proof fn lemma_mirrored_area_passes(
    board: BoardType,
    mirroring: Mirroring,
    positions: Seq<Coordinate>,
    taken: Seq<(int, int)>,
)
    ensures
        mirrored_outcome(board, mirroring, positions, taken) is Ok <==> forall|index: int|
            0 <= index < positions.len() ==> #[trigger] area_cell_passes(
                board,
                mirroring,
                positions,
                taken,
                index,
            ),
    decreases positions.len(),
{
    if positions.len() > 0 {
        let first = positions[0];
        let rest = positions.drop_first();
        let first_cell = cell_of(first);
        let first_image = image_of(board, mirroring, first);
        let longer = taken.push(first_cell).push(first_image);
        lemma_mirrored_area_passes(board, mirroring, rest, longer);
        assert forall|cell: (int, int)|
            longer.contains(cell) <==> (taken.contains(cell) || cell == first_cell || cell
                == first_image) by {
            if longer.contains(cell) {
                let i = choose|i: int| 0 <= i < longer.len() && longer[i] == cell;
                if i < taken.len() {
                    assert(taken[i] == cell);
                }
            }
            if taken.contains(cell) {
                let i = choose|i: int| 0 <= i < taken.len() && taken[i] == cell;
                assert(longer[i] == cell);
            }
            if cell == first_cell {
                assert(longer[taken.len() as int] == cell);
            }
            if cell == first_image {
                assert(longer[taken.len() as int + 1] == cell);
            }
        }
        assert forall|index: int| 0 <= index < rest.len() implies (#[trigger] area_cell_passes(
            board,
            mirroring,
            rest,
            longer,
            index,
        ) <==> area_cell_passes(board, mirroring, positions, taken, index + 1)) by {
            assert(rest[index] == positions[index + 1]);
            let cell = cell_of(rest[index]);
            let image = image_of(board, mirroring, rest[index]);
            assert(longer.contains(cell) <==> (taken.contains(cell) || cell == first_cell || cell
                == first_image));
            assert(longer.contains(image) <==> (taken.contains(image) || image == first_cell
                || image == first_image));
            if area_cell_passes(board, mirroring, rest, longer, index) {
                assert forall|earlier: int| 0 <= earlier < index + 1 implies {
                    let other = cell_of(#[trigger] positions[earlier]);
                    let other_image = image_of(board, mirroring, positions[earlier]);
                    other != cell && other_image != cell && other != image && other_image != image
                } by {
                    if earlier > 0 {
                        assert(rest[earlier - 1] == positions[earlier]);
                    }
                }
            }
            if area_cell_passes(board, mirroring, positions, taken, index + 1) {
                assert(positions[0] == first);
                assert forall|earlier: int| 0 <= earlier < index implies {
                    let other = cell_of(#[trigger] rest[earlier]);
                    let other_image = image_of(board, mirroring, rest[earlier]);
                    other != cell && other_image != cell && other != image && other_image != image
                } by {
                    assert(rest[earlier] == positions[earlier + 1]);
                }
            }
        }
        if mirrored_outcome(board, mirroring, positions, taken) is Ok {
            assert forall|index: int| 0 <= index < positions.len() implies #[trigger] area_cell_passes(
                board,
                mirroring,
                positions,
                taken,
                index,
            ) by {
                if index > 0 {
                    assert(area_cell_passes(board, mirroring, rest, longer, index - 1));
                }
            }
        } else if forall|index: int|
            0 <= index < positions.len() ==> #[trigger] area_cell_passes(
                board,
                mirroring,
                positions,
                taken,
                index,
            ) {
            assert(area_cell_passes(board, mirroring, positions, taken, 0));
            assert forall|index: int| 0 <= index < rest.len() implies #[trigger] area_cell_passes(
                board,
                mirroring,
                rest,
                longer,
                index,
            ) by {
                assert(area_cell_passes(board, mirroring, positions, taken, index + 1));
            }
        }
    }
}

/// The verdict on the cells given for one side, walked in order, and with it the cells
/// given so far. `taken` holds the cells given before. A cell that is among them, or among
/// the cells walked so far, collides; the first that does decides.
pub open spec fn side_outcome(positions: Seq<Coordinate>, taken: Seq<Coordinate>) -> PlacementAreaResult<
    Seq<Coordinate>,
>
    decreases positions.len(),
{
    if positions.len() == 0 {
        Ok(taken)
    } else if taken.contains(positions[0]) {
        Err(PlacementAreaError::PositionCollision(positions[0]))
    } else {
        side_outcome(positions.drop_first(), taken.push(positions[0]))
    }
}

/// Whether `cell` is among `taken`.
fn is_taken(taken: &Vec<(usize, usize)>, cell: (usize, usize)) -> (found: bool)
    ensures
        found == taken@.contains(cell),
{
    let mut index: usize = 0;
    while index < taken.len()
        invariant
            index <= taken.len(),
            forall|i: int| 0 <= i < index ==> taken@[i] != cell,
        decreases taken.len() - index,
    {
        let other = taken[index];
        if other.0 == cell.0 && other.1 == cell.1 {
            return true;
        }
        index = index + 1;
    }
    false
}

/// The cells as pairs of integers.
pub open spec fn as_cells(taken: Seq<(usize, usize)>) -> Seq<(int, int)> {
    taken.map_values(|cell: (usize, usize)| (cell.0 as int, cell.1 as int))
}

impl PlacementArea {
    /// What `verify` returns for the board `board`.
    pub open spec fn check(self, board: BoardType) -> PlacementAreaResult<()> {
        match self {
            PlacementArea::Half => Ok(()),
            PlacementArea::MirroredFlipped(positions) => mirrored_outcome(
                board,
                Mirroring::Flipped,
                positions@,
                Seq::empty(),
            ),
            PlacementArea::MirroredRotated(positions) => mirrored_outcome(
                board,
                Mirroring::Rotated,
                positions@,
                Seq::empty(),
            ),
            PlacementArea::NonMirrored(sides) => match sides.red {
                None => Err(PlacementAreaError::ColorNotFound(Color::Red)),
                Some(red) => match side_outcome(red@, Seq::empty()) {
                    Err(error) => Err(error),
                    Ok(taken) => match sides.blue {
                        None => Err(PlacementAreaError::ColorNotFound(Color::Blue)),
                        Some(blue) => match side_outcome(blue@, taken) {
                            Err(error) => Err(error),
                            Ok(_) => Ok(()),
                        },
                    },
                },
            },
        }
    }

    /// Checks the cells of a mirrored area.
    fn verify_mirrored(positions: &Vec<Coordinate>, mirroring: Mirroring, board: &BoardType) -> (result:
        PlacementAreaResult<()>)
        ensures
            result == mirrored_outcome(*board, mirroring, positions@, Seq::empty()),
    {
        let rows = board.rows();
        let columns = board.columns();
        let mut found: Vec<(usize, usize)> = Vec::new();
        let mut index: usize = 0;
        assert(positions@.subrange(0, positions@.len() as int) =~= positions@);
        assert(as_cells(found@) =~= Seq::<(int, int)>::empty());
        while index < positions.len()
            invariant
                index <= positions.len(),
                rows == board.spec_rows(),
                columns == board.spec_columns(),
                mirrored_outcome(*board, mirroring, positions@, Seq::empty()) == mirrored_outcome(
                    *board,
                    mirroring,
                    positions@.subrange(index as int, positions@.len() as int),
                    as_cells(found@),
                ),
            decreases positions.len() - index,
        {
            let position = positions[index];
            let ghost rest = positions@.subrange(index as int, positions@.len() as int);
            assert(rest[0] == position);
            assert(rest.drop_first() =~= positions@.subrange(
                index as int + 1,
                positions@.len() as int,
            ));
            if position.row < 0 || position.row as usize >= rows || position.column < 0
                || position.column as usize >= columns {
                return Err(PlacementAreaError::PositionCannotPlace(Space::Invalid, position));
            }
            let cell = (position.row as usize, position.column as usize);
            let opposite = mirroring.image(board, cell.0, cell.1);
            proof {
                let taken = as_cells(found@);
                let as_cell = |cell: (usize, usize)| (cell.0 as int, cell.1 as int);
                assert forall|other: (usize, usize)|
                    found@.contains(other) <==> taken.contains(as_cell(other)) by {
                    if found@.contains(other) {
                        let i = choose|i: int| 0 <= i < found@.len() && found@[i] == other;
                        assert(taken[i] == as_cell(other));
                    }
                    if taken.contains(as_cell(other)) {
                        let i = choose|i: int| 0 <= i < taken.len() && taken[i] == as_cell(other);
                        assert(found@[i] == other);
                    }
                }
                assert(found@.contains(cell) <==> taken.contains(as_cell(cell)));
                assert(found@.contains(opposite) <==> taken.contains(as_cell(opposite)));
                assert(as_cells(found@.push(cell).push(opposite)) =~= taken.push(as_cell(cell)).push(
                    as_cell(opposite),
                ));
            }
            if is_taken(&found, cell) || is_taken(&found, opposite) || (opposite.0 == cell.0
                && opposite.1 == cell.1) {
                return Err(PlacementAreaError::PositionCollision(position));
            }
            found.push(cell);
            found.push(opposite);
            index = index + 1;
        }
        Ok(())
    }

    /// Checks the cells given for one side against the cells in `found`, and adds them to
    /// `found`.
    fn verify_side(positions: &Vec<Coordinate>, found: &mut Vec<Coordinate>) -> (result:
        PlacementAreaResult<()>)
        ensures
            match result {
                Ok(_) => side_outcome(positions@, old(found)@) == Ok::<_, PlacementAreaError>(
                    final(found)@,
                ),
                Err(error) => side_outcome(positions@, old(found)@) == Err::<Seq<Coordinate>, _>(
                    error,
                ),
            },
    {
        let mut index: usize = 0;
        assert(positions@.subrange(0, positions@.len() as int) =~= positions@);
        while index < positions.len()
            invariant
                index <= positions.len(),
                side_outcome(positions@, old(found)@) == side_outcome(
                    positions@.subrange(index as int, positions@.len() as int),
                    found@,
                ),
            decreases positions.len() - index,
        {
            let coordinate = positions[index];
            let ghost rest = positions@.subrange(index as int, positions@.len() as int);
            assert(rest[0] == coordinate);
            assert(rest.drop_first() =~= positions@.subrange(
                index as int + 1,
                positions@.len() as int,
            ));
            if coordinate.is_among(found) {
                return Err(PlacementAreaError::PositionCollision(coordinate));
            }
            found.push(coordinate);
            index = index + 1;
        }
        Ok(())
    }

    /// Checks the area against the board.
    ///
    /// `Half` always passes. The cells of a mirrored area are walked in order: a cell off the
    /// board gives `PositionCannotPlace`; a cell that is given twice, that is its own image,
    /// or that is the image of another given cell gives `PositionCollision`. Of an area that
    /// is not mirrored, Red's cells are walked before Blue's: a side without cells gives
    /// `ColorNotFound`, a cell given twice, for one side or for both, `PositionCollision`.
    pub fn verify(&self, board: &BoardType) -> (result: PlacementAreaResult<()>)
        ensures
            result == self.check(*board),
    {
        match self {
            PlacementArea::Half => Ok(()),
            PlacementArea::MirroredFlipped(positions) => PlacementArea::verify_mirrored(
                positions,
                Mirroring::Flipped,
                board,
            ),
            PlacementArea::MirroredRotated(positions) => PlacementArea::verify_mirrored(
                positions,
                Mirroring::Rotated,
                board,
            ),
            PlacementArea::NonMirrored(color_map) => {
                let mut found: Vec<Coordinate> = Vec::new();
                let red = match color_map.get(Color::Red) {
                    None => {
                        return Err(PlacementAreaError::ColorNotFound(Color::Red));
                    },
                    Some(coordinates) => coordinates,
                };
                match PlacementArea::verify_side(red, &mut found) {
                    Ok(_) => {},
                    Err(error) => {
                        return Err(error);
                    },
                }
                let blue = match color_map.get(Color::Blue) {
                    None => {
                        return Err(PlacementAreaError::ColorNotFound(Color::Blue));
                    },
                    Some(coordinates) => coordinates,
                };
                match PlacementArea::verify_side(blue, &mut found) {
                    Ok(_) => Ok(()),
                    Err(error) => Err(error),
                }
            },
        }
    }
}

} // verus!
