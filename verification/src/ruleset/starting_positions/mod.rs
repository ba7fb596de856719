//! How the pieces come onto the board.
use std::collections::HashMap;
use vstd::prelude::*;
use vstd::std_specs::convert::FromSpecImpl;

use crate::coordinate::Coordinate;
use crate::game_board::Color;
use crate::ruleset::board_type::space::Space;
use crate::ruleset::board_type::BoardType;
use crate::ruleset::catalog_index::{
    first_index_from, first_key_from, is_first_from, lemma_some_index_is_first,
};
use crate::ruleset::color_map::ColorMap;
use crate::ruleset::piece_definition::PieceDefinition;
use crate::ruleset::starting_positions::alteration_type::{AlterationTypeError, AlternationType};
use crate::ruleset::starting_positions::piece_limit::{PieceLimit, PieceLimitError, PieceLimits};
use crate::ruleset::starting_positions::placement_area::{
    Mirroring, PlacementArea, PlacementAreaError,
};
use crate::ruleset::Ruleset;

pub mod alteration_type;
pub mod piece_limit;
pub mod placement_area;

verus! {

broadcast use vstd::std_specs::hash::group_hash_axioms;

/// The starting cells of one side: from a catalog index to the cells on which pieces of
/// that entry start.
pub type Layout = HashMap<usize, Vec<Coordinate>>;

/// How the pieces come onto the board.
#[derive(Clone, Debug)]
pub enum StartingPositions {
    /// The starting cells of one side; the other side starts on their images with the board
    /// turned upside down.
    MirroredFlipped(Layout),
    /// The starting cells of one side; the other side starts on their images with the board
    /// turned by half a turn.
    MirroredRotated(Layout),
    /// The starting cells of each side. Both sides have to be given.
    NotMirrored(ColorMap<Layout>),
    /// The sides place their pieces themselves, in turns.
    Placement {
        /// The side that places first.
        first_color: Color,
        /// How the sides take turns.
        alternation_type: AlternationType,
        /// Where the sides may place.
        placement_area: PlacementArea,
        /// What the sides may place.
        piece_limits: PieceLimits,
    },
}

/// Why starting positions were rejected.
#[derive(Clone, Debug, PartialEq, Eq)]
pub enum StartingPositionsError {
    /// No starting cells are given for the side.
    ColorNotFound(Color),
    /// Starting cells are given for a catalog index that no entry has.
    PieceIndexNotFound(usize),
    /// The position is given twice.
    DuplicatePosition { piece: PieceDefinition, position: Coordinate },
    /// The position, or its image on the other side, is the given space, which is no normal
    /// cell.
    InvalidPositionForBoard { space: Space, piece: PieceDefinition, position: Coordinate },
    AlterationTypeError(AlterationTypeError),
    PlacementAreaError(PlacementAreaError),
    PieceLimitError(PieceLimitError),
}

pub type StartingPositionsResult<T> = Result<T, StartingPositionsError>;

/// The verdict on the starting cells of one catalog entry, walked in order, and with it
/// the cells given so far. `found` holds the cells given before.
///
/// A cell may not be among the cells given before or walked so far. It has to be a normal
/// cell of the board, and with a mirroring its image has to be one too. The first cell that
/// fails decides.
pub open spec fn positions_outcome(
    board: BoardType,
    mirroring: Option<Mirroring>,
    piece: PieceDefinition,
    positions: Seq<Coordinate>,
    found: Seq<Coordinate>,
) -> StartingPositionsResult<Seq<Coordinate>>
    decreases positions.len(),
{
    if positions.len() == 0 {
        Ok(found)
    } else {
        let position = positions[0];
        let space = board.space_at(position.row as int, position.column as int);
        if found.contains(position) {
            Err(StartingPositionsError::DuplicatePosition { piece, position })
        } else if space != Space::Normal {
            Err(StartingPositionsError::InvalidPositionForBoard { space, piece, position })
        } else if mirroring is Some && image_space(board, mirroring->0, position) != Space::Normal {
            Err(
                StartingPositionsError::InvalidPositionForBoard {
                    space: image_space(board, mirroring->0, position),
                    piece,
                    position,
                },
            )
        } else {
            positions_outcome(board, mirroring, piece, positions.drop_first(), found.push(position))
        }
    }
}

/// The space that the image of `position` is on `board`.
pub open spec fn image_space(board: BoardType, mirroring: Mirroring, position: Coordinate) -> Space {
    board.space_at(
        mirroring.image_row(board, position.row as int),
        mirroring.image_column(board, position.column as int),
    )
}

/// The verdict on the starting cells of the catalog entries from index `from` on, walked
/// in catalog order, and with it the cells given so far.
pub open spec fn entries_outcome(
    board: BoardType,
    mirroring: Option<Mirroring>,
    pieces: Seq<PieceDefinition>,
    layout: Map<usize, Vec<Coordinate>>,
    from: int,
    found: Seq<Coordinate>,
) -> StartingPositionsResult<Seq<Coordinate>>
    decreases pieces.len() - from,
{
    if from < 0 || from >= pieces.len() {
        Ok(found)
    } else if layout.contains_key(from as usize) {
        match positions_outcome(board, mirroring, pieces[from], layout[from as usize]@, found) {
            Err(error) => Err(error),
            Ok(found) => entries_outcome(board, mirroring, pieces, layout, from + 1, found),
        }
    } else {
        entries_outcome(board, mirroring, pieces, layout, from + 1, found)
    }
}

/// The verdict on the starting cells of one side, and with it the cells given so far.
///
/// The cells of the catalog entries are checked first, in catalog order. Then, if cells are
/// given for an index that no catalog entry has, the smallest such index is reported.
pub open spec fn layout_outcome(
    board: BoardType,
    mirroring: Option<Mirroring>,
    pieces: Seq<PieceDefinition>,
    layout: Map<usize, Vec<Coordinate>>,
    found: Seq<Coordinate>,
) -> StartingPositionsResult<Seq<Coordinate>> {
    match entries_outcome(board, mirroring, pieces, layout, 0, found) {
        Err(error) => Err(error),
        Ok(found) => match first_index_from(layout.dom(), pieces.len()) {
            Some(index) => Err(StartingPositionsError::PieceIndexNotFound(index)),
            None => Ok(found),
        },
    }
}

/// The verdict on a mirrored layout.
pub open spec fn mirrored_layout_outcome(
    board: BoardType,
    mirroring: Mirroring,
    pieces: Seq<PieceDefinition>,
    layout: Map<usize, Vec<Coordinate>>,
) -> StartingPositionsResult<()> {
    match layout_outcome(board, Some(mirroring), pieces, layout, Seq::empty()) {
        Err(error) => Err(error),
        Ok(_) => Ok(()),
    }
}

/// The verdict on a layout given for each side: Red's cells are checked before Blue's, and
/// a cell given for Red may not be given for Blue.
pub open spec fn sides_outcome(
    board: BoardType,
    pieces: Seq<PieceDefinition>,
    sides: ColorMap<Layout>,
) -> StartingPositionsResult<()> {
    match sides.red {
        None => Err(StartingPositionsError::ColorNotFound(Color::Red)),
        Some(red) => match layout_outcome(board, None, pieces, red@, Seq::empty()) {
            Err(error) => Err(error),
            Ok(found) => match sides.blue {
                None => Err(StartingPositionsError::ColorNotFound(Color::Blue)),
                Some(blue) => match layout_outcome(board, None, pieces, blue@, found) {
                    Err(error) => Err(error),
                    Ok(_) => Ok(()),
                },
            },
        },
    }
}

/// The verdict on placement by the sides: the way of taking turns is checked first, then
/// the placement area, then the piece limits.
pub open spec fn placement_outcome(
    alternation_type: AlternationType,
    placement_area: PlacementArea,
    piece_limits: Seq<PieceLimit>,
    board: BoardType,
    pieces: Seq<PieceDefinition>,
) -> StartingPositionsResult<()> {
    match alternation_type.check(piece_limits) {
        Err(error) => Err(StartingPositionsError::AlterationTypeError(error)),
        Ok(_) => match placement_area.check(board) {
            Err(error) => Err(StartingPositionsError::PlacementAreaError(error)),
            Ok(_) => match PieceLimit::check_all(piece_limits, pieces) {
                Err(error) => Err(StartingPositionsError::PieceLimitError(error)),
                Ok(_) => Ok(()),
            },
        },
    }
}

/// The starting cells of an entry are judged cell by cell: if the first cells pass, the
/// verdict is the verdict on the remaining cells; if they do not, their verdict is the
/// verdict on all.
pub proof fn lemma_positions_split(
    board: BoardType,
    mirroring: Option<Mirroring>,
    piece: PieceDefinition,
    positions: Seq<Coordinate>,
    found: Seq<Coordinate>,
    count: int,
)
    requires
        0 <= count <= positions.len(),
    ensures
        positions_outcome(board, mirroring, piece, positions, found) == match positions_outcome(
            board,
            mirroring,
            piece,
            positions.take(count),
            found,
        ) {
            Err(error) => Err(error),
            Ok(found) => positions_outcome(board, mirroring, piece, positions.skip(count), found),
        },
    decreases count,
{
    if count == 0 {
        assert(positions.take(0) =~= Seq::<Coordinate>::empty());
        assert(positions.skip(0) =~= positions);
    } else {
        let first = positions.take(count);
        assert(first[0] == positions[0]);
        assert(first.drop_first() =~= positions.drop_first().take(count - 1));
        assert(positions.skip(count) =~= positions.drop_first().skip(count - 1));
        lemma_positions_split(
            board,
            mirroring,
            piece,
            positions.drop_first(),
            found.push(positions[0]),
            count - 1,
        );
    }
}

/// The starting cells that pass are added to the cells given so far, in order.
pub proof fn lemma_positions_found(
    board: BoardType,
    mirroring: Option<Mirroring>,
    piece: PieceDefinition,
    positions: Seq<Coordinate>,
    found: Seq<Coordinate>,
)
    requires
        positions_outcome(board, mirroring, piece, positions, found) is Ok,
    ensures
        positions_outcome(board, mirroring, piece, positions, found) == Ok::<
            _,
            StartingPositionsError,
        >(found + positions),
    decreases positions.len(),
{
    if positions.len() == 0 {
        assert(found + positions =~= found);
    } else {
        lemma_positions_found(
            board,
            mirroring,
            piece,
            positions.drop_first(),
            found.push(positions[0]),
        );
        assert(found.push(positions[0]) + positions.drop_first() =~= found + positions);
    }
}

/// Whether a starting cell is a normal cell of the board and, with a mirroring, its image
/// is one too.
pub open spec fn position_fits(board: BoardType, mirroring: Option<Mirroring>, position: Coordinate) -> bool {
    &&& board.space_at(position.row as int, position.column as int) == Space::Normal
    &&& mirroring is Some ==> image_space(board, mirroring->0, position) == Space::Normal
}

/// Whether cell number `index` of `positions` fits the board and is given for the first
/// time: it is neither among the cells in `found` nor among the cells of `positions` that
/// come before it.
pub open spec fn position_passes(
    board: BoardType,
    mirroring: Option<Mirroring>,
    positions: Seq<Coordinate>,
    found: Seq<Coordinate>,
    index: int,
) -> bool {
    &&& position_fits(board, mirroring, positions[index])
    &&& !found.contains(positions[index])
    &&& forall|earlier: int| 0 <= earlier < index ==> #[trigger] positions[earlier] != positions[index]
}

/// The starting cells of an entry pass exactly if each of them fits the board and is given
/// for the first time.
pub proof fn lemma_positions_pass(
    board: BoardType,
    mirroring: Option<Mirroring>,
    piece: PieceDefinition,
    positions: Seq<Coordinate>,
    found: Seq<Coordinate>,
)
    ensures
        positions_outcome(board, mirroring, piece, positions, found) is Ok <==> forall|index: int|
            0 <= index < positions.len() ==> #[trigger] position_passes(
                board,
                mirroring,
                positions,
                found,
                index,
            ),
    decreases positions.len(),
{
    if positions.len() > 0 {
        let first = positions[0];
        let rest = positions.drop_first();
        let longer = found.push(first);
        lemma_positions_pass(board, mirroring, piece, rest, longer);
        assert forall|index: int| 0 <= index < rest.len() implies (#[trigger] position_passes(
            board,
            mirroring,
            rest,
            longer,
            index,
        ) <==> position_passes(board, mirroring, positions, found, index + 1)) by {
            assert(rest[index] == positions[index + 1]);
            assert(longer.contains(rest[index]) <==> (found.contains(rest[index]) || first
                == rest[index])) by {
                if longer.contains(rest[index]) {
                    let i = choose|i: int| 0 <= i < longer.len() && longer[i] == rest[index];
                    if i < found.len() {
                        assert(found[i] == rest[index]);
                    }
                }
                if found.contains(rest[index]) {
                    let i = choose|i: int| 0 <= i < found.len() && found[i] == rest[index];
                    assert(longer[i] == rest[index]);
                }
                if first == rest[index] {
                    assert(longer[found.len() as int] == rest[index]);
                }
            }
            if position_passes(board, mirroring, rest, longer, index) {
                assert forall|earlier: int| 0 <= earlier < index + 1 implies #[trigger] positions[earlier]
                    != positions[index + 1] by {
                    if earlier > 0 {
                        assert(rest[earlier - 1] == positions[earlier]);
                    }
                }
            }
            if position_passes(board, mirroring, positions, found, index + 1) {
                assert(positions[0] != positions[index + 1]);
                assert forall|earlier: int| 0 <= earlier < index implies #[trigger] rest[earlier]
                    != rest[index] by {
                    assert(rest[earlier] == positions[earlier + 1]);
                }
            }
        }
        if positions_outcome(board, mirroring, piece, positions, found) is Ok {
            assert forall|index: int| 0 <= index < positions.len() implies #[trigger] position_passes(
                board,
                mirroring,
                positions,
                found,
                index,
            ) by {
                if index > 0 {
                    assert(position_passes(board, mirroring, rest, longer, index - 1));
                }
            }
        } else if forall|index: int|
            0 <= index < positions.len() ==> #[trigger] position_passes(
                board,
                mirroring,
                positions,
                found,
                index,
            ) {
            assert(position_passes(board, mirroring, positions, found, 0));
            assert forall|index: int| 0 <= index < rest.len() implies #[trigger] position_passes(
                board,
                mirroring,
                rest,
                longer,
                index,
            ) by {
                assert(position_passes(board, mirroring, positions, found, index + 1));
            }
        }
    }
}

/// The starting cells of the catalog entries below `upto`, in catalog order.
pub open spec fn cells_below(layout: Map<usize, Vec<Coordinate>>, upto: int) -> Seq<Coordinate>
    decreases upto,
{
    if upto <= 0 {
        Seq::empty()
    } else if layout.contains_key((upto - 1) as usize) {
        cells_below(layout, upto - 1) + layout[(upto - 1) as usize]@
    } else {
        cells_below(layout, upto - 1)
    }
}

/// The catalog entries from `from` on pass exactly if the cells of each of them pass after
/// the cells of the entries before it.
proof fn lemma_entries_pass_from(
    board: BoardType,
    mirroring: Option<Mirroring>,
    pieces: Seq<PieceDefinition>,
    layout: Map<usize, Vec<Coordinate>>,
    found: Seq<Coordinate>,
    from: int,
)
    requires
        0 <= from,
        pieces.len() <= usize::MAX,
    ensures
        entries_outcome(
            board,
            mirroring,
            pieces,
            layout,
            from,
            found + cells_below(layout, from),
        ) is Ok <==> forall|index: int|
            from <= index < pieces.len() && layout.contains_key(index as usize) ==> (
            #[trigger] positions_outcome(
                board,
                mirroring,
                pieces[index],
                layout[index as usize]@,
                found + cells_below(layout, index),
            )) is Ok,
    decreases pieces.len() - from,
{
    if from < pieces.len() {
        let so_far = found + cells_below(layout, from);
        lemma_entries_pass_from(board, mirroring, pieces, layout, found, from + 1);
        if layout.contains_key(from as usize) {
            let cells = layout[from as usize]@;
            assert(found + cells_below(layout, from + 1) =~= so_far + cells);
            if positions_outcome(board, mirroring, pieces[from], cells, so_far) is Ok {
                lemma_positions_found(board, mirroring, pieces[from], cells, so_far);
            }
        }
    }
}

/// The starting cells of one side pass exactly if every catalog index with cells is one
/// that a catalog entry has, and the cells of each entry pass after the cells given before
/// and the cells of the entries before it.
pub proof fn lemma_layout_passes(
    board: BoardType,
    mirroring: Option<Mirroring>,
    pieces: Seq<PieceDefinition>,
    layout: Map<usize, Vec<Coordinate>>,
    found: Seq<Coordinate>,
)
    requires
        pieces.len() <= usize::MAX,
    ensures
        layout_outcome(board, mirroring, pieces, layout, found) is Ok <==> {
            &&& forall|index: usize| layout.contains_key(index) ==> index < pieces.len()
            &&& forall|index: int|
                0 <= index < pieces.len() && layout.contains_key(index as usize) ==> (
                #[trigger] positions_outcome(
                    board,
                    mirroring,
                    pieces[index],
                    layout[index as usize]@,
                    found + cells_below(layout, index),
                )) is Ok
        },
{
    lemma_entries_pass_from(board, mirroring, pieces, layout, found, 0);
    assert(found + cells_below(layout, 0) =~= found);
    if exists|index: usize| is_first_from(layout.dom(), pieces.len(), index) {
        let index = choose|index: usize| is_first_from(layout.dom(), pieces.len(), index);
        assert(layout.contains_key(index) && index >= pieces.len());
    } else {
        assert forall|index: usize| layout.contains_key(index) implies index < pieces.len() by {
            if index >= pieces.len() {
                lemma_some_index_is_first(layout.dom(), pieces.len(), index);
            }
        }
    }
}

/// A starting cell that is given a second time is reported as a duplicate, provided the
/// cells before it pass: be it given before among the cells of the same entry, or among the
/// cells given so far.
pub proof fn lemma_repeated_position_is_rejected(
    board: BoardType,
    mirroring: Option<Mirroring>,
    piece: PieceDefinition,
    positions: Seq<Coordinate>,
    found: Seq<Coordinate>,
    index: int,
)
    requires
        0 <= index < positions.len(),
        positions_outcome(board, mirroring, piece, positions.take(index), found) is Ok,
        (found + positions.take(index)).contains(positions[index]),
    ensures
        positions_outcome(board, mirroring, piece, positions, found) == Err::<Seq<Coordinate>, _>(
            StartingPositionsError::DuplicatePosition { piece, position: positions[index] },
        ),
{
    lemma_positions_split(board, mirroring, piece, positions, found, index);
    lemma_positions_found(board, mirroring, piece, positions.take(index), found);
    assert(positions.skip(index)[0] == positions[index]);
}

/// A starting cell whose image on the other side is no normal cell is reported as invalid
/// for the board, with the space that its image is, provided the cells before it pass and
/// the cell is a normal cell that was not given before.
pub proof fn lemma_image_off_normal_is_rejected(
    board: BoardType,
    mirroring: Mirroring,
    piece: PieceDefinition,
    positions: Seq<Coordinate>,
    found: Seq<Coordinate>,
    index: int,
)
    requires
        0 <= index < positions.len(),
        positions_outcome(board, Some(mirroring), piece, positions.take(index), found) is Ok,
        !(found + positions.take(index)).contains(positions[index]),
        board.space_at(positions[index].row as int, positions[index].column as int)
            == Space::Normal,
        image_space(board, mirroring, positions[index]) != Space::Normal,
    ensures
        positions_outcome(board, Some(mirroring), piece, positions, found) == Err::<
            Seq<Coordinate>,
            _,
        >(
            StartingPositionsError::InvalidPositionForBoard {
                space: image_space(board, mirroring, positions[index]),
                piece,
                position: positions[index],
            },
        ),
{
    lemma_positions_split(board, Some(mirroring), piece, positions, found, index);
    lemma_positions_found(board, Some(mirroring), piece, positions.take(index), found);
    assert(positions.skip(index)[0] == positions[index]);
}

/// The catalog entries without starting cells are passed over: the verdict on a layout
/// whose first entry with starting cells fails is the verdict on the cells of that entry.
pub proof fn lemma_first_entry_decides(
    board: BoardType,
    mirroring: Option<Mirroring>,
    pieces: Seq<PieceDefinition>,
    layout: Map<usize, Vec<Coordinate>>,
    index: int,
    found: Seq<Coordinate>,
)
    requires
        0 <= index < pieces.len() <= usize::MAX,
        layout.contains_key(index as usize),
        forall|earlier: usize| earlier < index ==> !layout.contains_key(earlier),
        positions_outcome(board, mirroring, pieces[index], layout[index as usize]@, found) is Err,
    ensures
        layout_outcome(board, mirroring, pieces, layout, found) == positions_outcome(
            board,
            mirroring,
            pieces[index],
            layout[index as usize]@,
            found,
        ),
{
    lemma_entries_walk(board, mirroring, pieces, layout, 0, index, found);
}

/// The walk over the catalog passes over the entries without starting cells.
proof fn lemma_entries_walk(
    board: BoardType,
    mirroring: Option<Mirroring>,
    pieces: Seq<PieceDefinition>,
    layout: Map<usize, Vec<Coordinate>>,
    from: int,
    index: int,
    found: Seq<Coordinate>,
)
    requires
        0 <= from <= index < pieces.len() <= usize::MAX,
        forall|earlier: usize| from <= earlier < index ==> !layout.contains_key(earlier),
    ensures
        entries_outcome(board, mirroring, pieces, layout, from, found) == entries_outcome(
            board,
            mirroring,
            pieces,
            layout,
            index,
            found,
        ),
    decreases index - from,
{
    if from < index {
        assert(!layout.contains_key(from as usize));
        lemma_entries_walk(board, mirroring, pieces, layout, from + 1, index, found);
    }
}

impl StartingPositions {
    /// What `verify` returns for the board `board` and the catalog `pieces`.
    pub open spec fn check(self, board: BoardType, pieces: Seq<PieceDefinition>) -> StartingPositionsResult<
        (),
    > {
        match self {
            StartingPositions::MirroredFlipped(layout) => mirrored_layout_outcome(
                board,
                Mirroring::Flipped,
                pieces,
                layout@,
            ),
            StartingPositions::MirroredRotated(layout) => mirrored_layout_outcome(
                board,
                Mirroring::Rotated,
                pieces,
                layout@,
            ),
            StartingPositions::NotMirrored(sides) => sides_outcome(board, pieces, sides),
            StartingPositions::Placement { alternation_type, placement_area, piece_limits, .. } => placement_outcome(
                alternation_type,
                placement_area,
                piece_limits@,
                board,
                pieces,
            ),
        }
    }

    /// Checks the starting cells of one catalog entry against the cells in `found`, and adds
    /// them to `found`.
    fn verify_positions(
        positions: &Vec<Coordinate>,
        piece: &PieceDefinition,
        mirroring: Option<Mirroring>,
        board: &BoardType,
        found: &mut Vec<Coordinate>,
    ) -> (result: StartingPositionsResult<()>)
        ensures
            match result {
                Ok(_) => positions_outcome(*board, mirroring, *piece, positions@, old(found)@)
                    == Ok::<_, StartingPositionsError>(final(found)@),
                Err(error) => positions_outcome(*board, mirroring, *piece, positions@, old(found)@)
                    == Err::<Seq<Coordinate>, _>(error),
            },
    {
        let mut index: usize = 0;
        assert(positions@.subrange(0, positions@.len() as int) =~= positions@);
        while index < positions.len()
            invariant
                index <= positions.len(),
                positions_outcome(*board, mirroring, *piece, positions@, old(found)@)
                    == positions_outcome(
                    *board,
                    mirroring,
                    *piece,
                    positions@.subrange(index as int, positions@.len() as int),
                    found@,
                ),
            decreases positions.len() - index,
        {
            let position = positions[index];
            let ghost rest = positions@.subrange(index as int, positions@.len() as int);
            assert(rest[0] == position);
            assert(rest.drop_first() =~= positions@.subrange(
                index as int + 1,
                positions@.len() as int,
            ));
            if position.is_among(found) {
                return Err(
                    StartingPositionsError::DuplicatePosition { piece: piece.clone(), position },
                );
            }
            found.push(position);
            match board.get_space(position) {
                Space::Normal => {},
                space => {
                    return Err(
                        StartingPositionsError::InvalidPositionForBoard {
                            space,
                            piece: piece.clone(),
                            position,
                        },
                    );
                },
            }
            match mirroring {
                Some(mirroring) => {
                    let (row, column) = mirroring.image(
                        board,
                        position.row as usize,
                        position.column as usize,
                    );
                    match board.space_of(row, column) {
                        Space::Normal => {},
                        space => {
                            return Err(
                                StartingPositionsError::InvalidPositionForBoard {
                                    space,
                                    piece: piece.clone(),
                                    position,
                                },
                            );
                        },
                    }
                },
                None => {},
            }
            index = index + 1;
        }
        Ok(())
    }

    /// Checks the starting cells of one side against the cells in `found`, and adds them to
    /// `found`.
    fn verify_layout(
        piece_positions: &Layout,
        mirroring: Option<Mirroring>,
        board: &BoardType,
        ruleset: &Ruleset,
        found: &mut Vec<Coordinate>,
    ) -> (result: StartingPositionsResult<()>)
        ensures
            match result {
                Ok(_) => layout_outcome(*board, mirroring, ruleset.pieces@, piece_positions@, old(found)@)
                    == Ok::<_, StartingPositionsError>(final(found)@),
                Err(error) => layout_outcome(
                    *board,
                    mirroring,
                    ruleset.pieces@,
                    piece_positions@,
                    old(found)@,
                ) == Err::<Seq<Coordinate>, _>(error),
            },
    {
        let mut piece_index: usize = 0;
        while piece_index < ruleset.pieces.len()
            invariant
                piece_index <= ruleset.pieces.len(),
                entries_outcome(*board, mirroring, ruleset.pieces@, piece_positions@, 0, old(found)@)
                    == entries_outcome(
                    *board,
                    mirroring,
                    ruleset.pieces@,
                    piece_positions@,
                    piece_index as int,
                    found@,
                ),
            decreases ruleset.pieces.len() - piece_index,
        {
            match piece_positions.get(&piece_index) {
                Some(positions) => {
                    match StartingPositions::verify_positions(
                        positions,
                        &ruleset.pieces[piece_index],
                        mirroring,
                        board,
                        found,
                    ) {
                        Ok(_) => {},
                        Err(error) => {
                            return Err(error);
                        },
                    }
                },
                None => {},
            }
            piece_index = piece_index + 1;
        }
        match first_key_from(piece_positions, ruleset.pieces.len()) {
            Some(piece_index) => Err(StartingPositionsError::PieceIndexNotFound(piece_index)),
            None => Ok(()),
        }
    }

    fn verify_mirrored_flipped(piece_positions: &Layout, board: &BoardType, ruleset: &Ruleset) -> (result:
        StartingPositionsResult<()>)
        ensures
            result == mirrored_layout_outcome(
                *board,
                Mirroring::Flipped,
                ruleset.pieces@,
                piece_positions@,
            ),
    {
        let mut found: Vec<Coordinate> = Vec::new();
        match StartingPositions::verify_layout(
            piece_positions,
            Some(Mirroring::Flipped),
            board,
            ruleset,
            &mut found,
        ) {
            Ok(_) => Ok(()),
            Err(error) => Err(error),
        }
    }

    fn verify_mirrored_rotated(piece_positions: &Layout, board: &BoardType, ruleset: &Ruleset) -> (result:
        StartingPositionsResult<()>)
        ensures
            result == mirrored_layout_outcome(
                *board,
                Mirroring::Rotated,
                ruleset.pieces@,
                piece_positions@,
            ),
    {
        let mut found: Vec<Coordinate> = Vec::new();
        match StartingPositions::verify_layout(
            piece_positions,
            Some(Mirroring::Rotated),
            board,
            ruleset,
            &mut found,
        ) {
            Ok(_) => Ok(()),
            Err(error) => Err(error),
        }
    }

    fn verify_not_mirrored(color_piece_positions: &ColorMap<Layout>, input: &BoardType, ruleset: &Ruleset) -> (result:
        StartingPositionsResult<()>)
        ensures
            result == sides_outcome(*input, ruleset.pieces@, *color_piece_positions),
    {
        let mut found: Vec<Coordinate> = Vec::new();
        let red = match color_piece_positions.get(Color::Red) {
            Some(piece_positions) => piece_positions,
            None => {
                return Err(StartingPositionsError::ColorNotFound(Color::Red));
            },
        };
        match StartingPositions::verify_layout(red, None, input, ruleset, &mut found) {
            Ok(_) => {},
            Err(error) => {
                return Err(error);
            },
        }
        let blue = match color_piece_positions.get(Color::Blue) {
            Some(piece_positions) => piece_positions,
            None => {
                return Err(StartingPositionsError::ColorNotFound(Color::Blue));
            },
        };
        match StartingPositions::verify_layout(blue, None, input, ruleset, &mut found) {
            Ok(_) => Ok(()),
            Err(error) => Err(error),
        }
    }

    fn verify_placement(
        _first_color: Color,
        alternation_type: AlternationType,
        placement_area: &PlacementArea,
        piece_limits: &PieceLimits,
        board: &BoardType,
        ruleset: &Ruleset,
    ) -> (result: StartingPositionsResult<()>)
        ensures
            result == placement_outcome(
                alternation_type,
                *placement_area,
                piece_limits@,
                *board,
                ruleset.pieces@,
            ),
    {
        match alternation_type.verify(piece_limits) {
            Ok(_) => {},
            Err(error) => {
                return Err(StartingPositionsError::from(error));
            },
        }
        match placement_area.verify(board) {
            Ok(_) => {},
            Err(error) => {
                return Err(StartingPositionsError::from(error));
            },
        }
        match PieceLimit::verify(piece_limits, ruleset) {
            Ok(_) => {},
            Err(error) => {
                return Err(StartingPositionsError::from(error));
            },
        }
        Ok(())
    }

    /// Checks the starting positions against the board and the catalog of `ruleset`.
    ///
    /// Of a layout, the starting cells of the catalog entries are walked in catalog order and
    /// each entry's cells in the order given. A cell that was walked before gives
    /// `DuplicatePosition`; a cell that is no normal cell of the board, or whose image on the
    /// other side is none, gives `InvalidPositionForBoard`. Cells given for an index that no
    /// catalog entry has give `PieceIndexNotFound` with the smallest such index. Where the
    /// layout is given for each side, Red is walked before Blue, and a side that is not given
    /// gives `ColorNotFound`. Of placement by the sides, the way of taking turns, the placement
    /// area and the piece limits are checked in this order.
    pub fn verify(&self, board: &BoardType, ruleset: &Ruleset) -> (result: StartingPositionsResult<()>)
        ensures
            result == self.check(*board, ruleset.pieces@),
    {
        match self {
            StartingPositions::MirroredFlipped(self_data) => StartingPositions::verify_mirrored_flipped(
                self_data,
                board,
                ruleset,
            ),
            StartingPositions::MirroredRotated(self_data) => StartingPositions::verify_mirrored_rotated(
                self_data,
                board,
                ruleset,
            ),
            StartingPositions::NotMirrored(positions) => StartingPositions::verify_not_mirrored(
                positions,
                board,
                ruleset,
            ),
            StartingPositions::Placement {
                first_color,
                alternation_type,
                placement_area,
                piece_limits,
            } => StartingPositions::verify_placement(
                *first_color,
                *alternation_type,
                placement_area,
                piece_limits,
                board,
                ruleset,
            ),
        }
    }
}

impl FromSpecImpl<AlterationTypeError> for StartingPositionsError {
    open spec fn obeys_from_spec() -> bool {
        true
    }

    open spec fn from_spec(from: AlterationTypeError) -> Self {
        StartingPositionsError::AlterationTypeError(from)
    }
}

impl From<AlterationTypeError> for StartingPositionsError {
    fn from(from: AlterationTypeError) -> (error: Self) {
        Self::AlterationTypeError(from)
    }
}

impl FromSpecImpl<PlacementAreaError> for StartingPositionsError {
    open spec fn obeys_from_spec() -> bool {
        true
    }

    open spec fn from_spec(from: PlacementAreaError) -> Self {
        StartingPositionsError::PlacementAreaError(from)
    }
}

impl From<PlacementAreaError> for StartingPositionsError {
    fn from(from: PlacementAreaError) -> (error: Self) {
        Self::PlacementAreaError(from)
    }
}

impl FromSpecImpl<PieceLimitError> for StartingPositionsError {
    open spec fn obeys_from_spec() -> bool {
        true
    }

    open spec fn from_spec(from: PieceLimitError) -> Self {
        StartingPositionsError::PieceLimitError(from)
    }
}

impl From<PieceLimitError> for StartingPositionsError {
    fn from(from: PieceLimitError) -> (error: Self) {
        Self::PieceLimitError(from)
    }
}

} // verus!
