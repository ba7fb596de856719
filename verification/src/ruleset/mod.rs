//! A game configuration and its consistency check.
use vstd::prelude::*;
use vstd::std_specs::convert::FromSpecImpl;

use crate::game_board::{empty_cell, GameBoard};
use crate::ruleset::board_type::{BoardType, BoardTypeVerifyError};
use crate::ruleset::piece_definition::{PieceDefinition, PieceDefinitionError};
use crate::ruleset::starting_positions::{StartingPositions, StartingPositionsError};
use crate::ruleset::victory_condition::{
    VictoryCondition, VictoryConditionError, VictoryConditions,
};

pub mod board_type;
pub mod catalog_index;
pub mod color_map;
pub mod piece_definition;
pub mod standard;
pub mod starting_positions;
pub mod victory_condition;

verus! {

/// The rules of one game of Kapto.
#[derive(Clone, Debug)]
pub struct Ruleset {
    /// The piece catalog. No two entries say the same.
    pub pieces: Vec<PieceDefinition>,
    /// The board.
    pub board_type: BoardType,
    /// How the pieces come onto the board.
    pub starting_positions: StartingPositions,
    /// How the game is won.
    pub victory_conditions: VictoryConditions,
}

/// Why a ruleset was rejected.
#[derive(Clone, Debug, PartialEq, Eq)]
pub enum RulesetError {
    /// The given catalog entry says the same as an entry before it.
    PieceDuplicated(PieceDefinition),
    PieceDefinitionError(PieceDefinitionError),
    BoardTypeVerifyError(BoardTypeVerifyError),
    StartingPositionsError(StartingPositionsError),
    VictoryConditionError(VictoryConditionError),
}

pub type RulesetResult<T> = Result<T, RulesetError>;

/// Whether an entry before number `index` of the catalog says the same as that entry.
pub open spec fn repeats_earlier(pieces: Seq<PieceDefinition>, index: int) -> bool {
    exists|earlier: int| 0 <= earlier < index && #[trigger] pieces[earlier].is_duplicate_of(pieces[index])
}

/// The verdict on the catalog entries from number `from` on, walked in order: an entry has
/// to pass its own check, and it may not say the same as an entry before it. The first entry
/// that fails decides.
pub open spec fn catalog_outcome(pieces: Seq<PieceDefinition>, from: int) -> RulesetResult<()>
    decreases pieces.len() - from,
{
    if from < 0 || from >= pieces.len() {
        Ok(())
    } else {
        match pieces[from].check() {
            Err(error) => Err(RulesetError::PieceDefinitionError(error)),
            Ok(_) => if repeats_earlier(pieces, from) {
                Err(RulesetError::PieceDuplicated(pieces[from]))
            } else {
                catalog_outcome(pieces, from + 1)
            },
        }
    }
}

/// A catalog entry that does not pass its own check is reported with the error of that
/// check, provided every entry before it passes its check and repeats no entry before it.
pub proof fn lemma_broken_entry_is_reported(pieces: Seq<PieceDefinition>, index: int)
    requires
        0 <= index < pieces.len(),
        pieces[index].check() is Err,
        forall|earlier: int|
            0 <= earlier < index ==> (#[trigger] pieces[earlier].check()) is Ok && !repeats_earlier(
                pieces,
                earlier,
            ),
    ensures
        catalog_outcome(pieces, 0) == Err::<(), _>(
            RulesetError::PieceDefinitionError(pieces[index].check()->Err_0),
        ),
{
    lemma_catalog_walk(pieces, 0, index);
}

/// A catalog entry that says the same as an entry before it is reported as duplicated,
/// provided it passes its own check and every entry before it passes its check and repeats
/// no entry before it.
pub proof fn lemma_repeated_entry_is_reported(pieces: Seq<PieceDefinition>, index: int)
    requires
        0 <= index < pieces.len(),
        pieces[index].check() is Ok,
        repeats_earlier(pieces, index),
        forall|earlier: int|
            0 <= earlier < index ==> (#[trigger] pieces[earlier].check()) is Ok && !repeats_earlier(
                pieces,
                earlier,
            ),
    ensures
        catalog_outcome(pieces, 0) == Err::<(), _>(RulesetError::PieceDuplicated(pieces[index])),
{
    lemma_catalog_walk(pieces, 0, index);
}

/// The walk over the catalog passes the entries that pass their check and repeat no entry
/// before them.
proof fn lemma_catalog_walk(pieces: Seq<PieceDefinition>, from: int, index: int)
    requires
        0 <= from <= index < pieces.len(),
        forall|earlier: int|
            from <= earlier < index ==> (#[trigger] pieces[earlier].check()) is Ok && !repeats_earlier(
                pieces,
                earlier,
            ),
    ensures
        catalog_outcome(pieces, from) == catalog_outcome(pieces, index),
    decreases index - from,
{
    if from < index {
        assert(pieces[from].check() is Ok);
        lemma_catalog_walk(pieces, from + 1, index);
    }
}

/// The catalog entries from number `from` on pass exactly if each of them passes its own
/// check and says the same as no entry before it.
proof fn lemma_catalog_passes_from(pieces: Seq<PieceDefinition>, from: int)
    requires
        0 <= from,
    ensures
        catalog_outcome(pieces, from) is Ok <==> forall|index: int|
            from <= index < pieces.len() ==> (#[trigger] pieces[index].check()) is Ok && !repeats_earlier(
                pieces,
                index,
            ),
    decreases pieces.len() - from,
{
    if from < pieces.len() {
        lemma_catalog_passes_from(pieces, from + 1);
    }
}

/// A catalog passes exactly if each entry passes its own check and no two entries say the
/// same.
pub proof fn lemma_catalog_passes(pieces: Seq<PieceDefinition>)
    ensures
        catalog_outcome(pieces, 0) is Ok <==> {
            &&& forall|index: int|
                0 <= index < pieces.len() ==> (#[trigger] pieces[index].check()) is Ok
            &&& forall|earlier: int, later: int|
                0 <= earlier < later < pieces.len() ==> !(#[trigger] pieces[earlier].is_duplicate_of(
                    #[trigger] pieces[later],
                ))
        },
{
    lemma_catalog_passes_from(pieces, 0);
    if catalog_outcome(pieces, 0) is Ok {
        assert forall|earlier: int, later: int| 0 <= earlier < later < pieces.len() implies !(
        #[trigger] pieces[earlier].is_duplicate_of(#[trigger] pieces[later])) by {
            assert(pieces[later].check() is Ok);
            assert(!repeats_earlier(pieces, later));
        }
    }
}

/// The parts of a ruleset are checked in a fixed order, and the first part that fails
/// decides alone: the catalog, then the board, then the starting positions, then the victory
/// conditions. Whatever is wrong with a later part does not show while an earlier part
/// fails.
pub proof fn lemma_first_failing_part_decides(ruleset: Ruleset)
    ensures
        catalog_outcome(ruleset.pieces@, 0) is Err ==> ruleset.check() == catalog_outcome(
            ruleset.pieces@,
            0,
        ),
        catalog_outcome(ruleset.pieces@, 0) is Ok && ruleset.board_type.check() is Err
            ==> ruleset.check() == Err::<(), _>(
            RulesetError::BoardTypeVerifyError(ruleset.board_type.check()->Err_0),
        ),
        catalog_outcome(ruleset.pieces@, 0) is Ok && ruleset.board_type.check() is Ok
            && ruleset.starting_positions.check(ruleset.board_type, ruleset.pieces@) is Err
            ==> ruleset.check() == Err::<(), _>(
            RulesetError::StartingPositionsError(
                ruleset.starting_positions.check(ruleset.board_type, ruleset.pieces@)->Err_0,
            ),
        ),
        catalog_outcome(ruleset.pieces@, 0) is Ok && ruleset.board_type.check() is Ok
            && ruleset.starting_positions.check(ruleset.board_type, ruleset.pieces@) is Ok
            && VictoryCondition::check_all(
            ruleset.victory_conditions@,
            ruleset.board_type,
            ruleset.pieces@,
        ) is Err ==> ruleset.check() == Err::<(), _>(
            RulesetError::VictoryConditionError(
                VictoryCondition::check_all(
                    ruleset.victory_conditions@,
                    ruleset.board_type,
                    ruleset.pieces@,
                )->Err_0,
            ),
        ),
        ruleset.check() is Ok <==> catalog_outcome(ruleset.pieces@, 0) is Ok
            && ruleset.board_type.check() is Ok && ruleset.starting_positions.check(
            ruleset.board_type,
            ruleset.pieces@,
        ) is Ok && VictoryCondition::check_all(
            ruleset.victory_conditions@,
            ruleset.board_type,
            ruleset.pieces@,
        ) is Ok,
{
}

impl Ruleset {
    /// What `verify` returns: the verdict on the catalog, else that on the board, else that on
    /// the starting positions, else that on the victory conditions.
    pub open spec fn check(self) -> RulesetResult<()> {
        match catalog_outcome(self.pieces@, 0) {
            Err(error) => Err(error),
            Ok(_) => match self.board_type.check() {
                Err(error) => Err(RulesetError::BoardTypeVerifyError(error)),
                Ok(_) => match self.starting_positions.check(self.board_type, self.pieces@) {
                    Err(error) => Err(RulesetError::StartingPositionsError(error)),
                    Ok(_) => match VictoryCondition::check_all(
                        self.victory_conditions@,
                        self.board_type,
                        self.pieces@,
                    ) {
                        Err(error) => Err(RulesetError::VictoryConditionError(error)),
                        Ok(_) => Ok(()),
                    },
                },
            },
        }
    }

    /// Whether an entry before number `index` of the catalog says the same as that entry.
    fn is_repeated(&self, index: usize) -> (repeated: bool)
        requires
            index < self.pieces@.len(),
        ensures
            repeated == repeats_earlier(self.pieces@, index as int),
    {
        let mut earlier: usize = 0;
        while earlier < index
            invariant
                earlier <= index < self.pieces@.len(),
                forall|other: int|
                    0 <= other < earlier ==> !(#[trigger] self.pieces@[other].is_duplicate_of(
                        self.pieces@[index as int],
                    )),
            decreases index - earlier,
        {
            if self.pieces[earlier].same_as(&self.pieces[index]) {
                return true;
            }
            earlier = earlier + 1;
        }
        false
    }

    /// Checks the ruleset for consistency.
    ///
    /// The catalog is checked first, entry by entry: an entry has to pass
    /// [`PieceDefinition::verify`], and it may not say the same as an entry before it. Then
    /// the board is checked, then the starting positions against the board and the catalog,
    /// then the victory conditions in the order in which they were put into their set. The
    /// first check that fails decides, and what follows it is not looked at.
    pub fn verify(&self) -> (result: RulesetResult<()>)
        ensures
            result == self.check(),
    {
        let mut index: usize = 0;
        while index < self.pieces.len()
            invariant
                index <= self.pieces@.len(),
                catalog_outcome(self.pieces@, 0) == catalog_outcome(self.pieces@, index as int),
            decreases self.pieces@.len() - index,
        {
            let piece = &self.pieces[index];
            match piece.verify() {
                Ok(_) => {},
                Err(error) => {
                    return Err(RulesetError::from(error));
                },
            }
            if self.is_repeated(index) {
                return Err(RulesetError::PieceDuplicated(piece.clone()));
            }
            index = index + 1;
        }
        match self.board_type.verify() {
            Ok(_) => {},
            Err(error) => {
                return Err(RulesetError::from(error));
            },
        }
        match self.starting_positions.verify(&self.board_type, self) {
            Ok(_) => {},
            Err(error) => {
                return Err(RulesetError::from(error));
            },
        }
        let mut index: usize = 0;
        assert(self.victory_conditions@.subrange(0, self.victory_conditions@.len() as int)
            =~= self.victory_conditions@);
        while index < self.victory_conditions.len()
            invariant
                index <= self.victory_conditions@.len(),
                catalog_outcome(self.pieces@, 0) is Ok,
                self.board_type.check() is Ok,
                self.starting_positions.check(self.board_type, self.pieces@) is Ok,
                VictoryCondition::check_all(
                    self.victory_conditions@,
                    self.board_type,
                    self.pieces@,
                ) == VictoryCondition::check_all(
                    self.victory_conditions@.subrange(
                        index as int,
                        self.victory_conditions@.len() as int,
                    ),
                    self.board_type,
                    self.pieces@,
                ),
            decreases self.victory_conditions@.len() - index,
        {
            let ghost rest = self.victory_conditions@.subrange(
                index as int,
                self.victory_conditions@.len() as int,
            );
            assert(rest[0] == self.victory_conditions@[index as int]);
            assert(rest.drop_first() =~= self.victory_conditions@.subrange(
                index as int + 1,
                self.victory_conditions@.len() as int,
            ));
            match self.victory_conditions.get(index) {
                Some(victory_condition) => {
                    match victory_condition.verify(self) {
                        Ok(_) => {},
                        Err(error) => {
                            return Err(RulesetError::from(error));
                        },
                    }
                },
                None => {},
            }
            index = index + 1;
        }
        Ok(())
    }

    /// The catalog entry with the given index, if there is one.
    pub fn get_piece(&self, index: usize) -> (piece: Option<&PieceDefinition>)
        ensures
            match piece {
                Some(piece) => index < self.pieces@.len() && *piece == self.pieces@[index as int],
                None => index >= self.pieces@.len(),
            },
    {
        if index < self.pieces.len() {
            Some(&self.pieces[index])
        } else {
            None
        }
    }
}

/// A ruleset that has passed its check. It can be read, but not changed, so it stays as
/// it was checked.
#[derive(Debug)]
pub struct VerifiedRuleset {
    ruleset: Ruleset,
}

impl View for VerifiedRuleset {
    type V = Ruleset;

    closed spec fn view(&self) -> Ruleset {
        self.ruleset
    }
}

impl VerifiedRuleset {
    #[verifier::type_invariant]
    spec fn passes(self) -> bool {
        self.ruleset.check() is Ok
    }

    /// Checks `ruleset` and seals it if it passes; else hands it back with the error of the
    /// check.
    pub fn new(ruleset: Ruleset) -> (result: Result<VerifiedRuleset, (Ruleset, RulesetError)>)
        ensures
            match result {
                Ok(verified) => verified@ == ruleset && ruleset.check() is Ok,
                Err((returned, error)) => returned == ruleset && ruleset.check() == Err::<(), _>(
                    error,
                ),
            },
    {
        match ruleset.verify() {
            Ok(_) => Ok(VerifiedRuleset { ruleset }),
            Err(error) => Err((ruleset, error)),
        }
    }

    /// The ruleset, which passes its check.
    pub fn ruleset(&self) -> (ruleset: &Ruleset)
        ensures
            *ruleset == self@,
            ruleset.check() is Ok,
    {
        proof {
            use_type_invariant(self);
        }
        &self.ruleset
    }

    /// The ruleset, free to be changed again.
    pub fn into_inner(self) -> (ruleset: Ruleset)
        ensures
            ruleset == self@,
            ruleset.check() is Ok,
    {
        proof {
            use_type_invariant(&self);
        }
        self.ruleset
    }

    /// An empty board for a game by these rules: each cell is what the board of the ruleset
    /// has at its position, no cell holds a piece, and the pieces to come refer to the catalog
    /// of the ruleset.
    pub fn new_board(&self) -> (board: GameBoard<'_>)
        ensures
            board@.is_board(),
            board@.rows == self@.board_type.spec_rows(),
            board@.columns == self@.board_type.spec_columns(),
            board.catalog() == self@.pieces@,
            forall|row: int, column: int|
                board@.in_bounds(row, column) ==> #[trigger] board@.at(row, column) == empty_cell(
                    self@.board_type.space_at(row, column),
                ),
    {
        proof {
            use_type_invariant(self);
            lemma_first_failing_part_decides(self.ruleset);
        }
        match GameBoard::new(&self.ruleset.board_type, &self.ruleset.pieces) {
            Ok(board) => board,
            Err(_) => {
                proof {
                    assert(false);
                }
                unreached()
            },
        }
    }
}

impl FromSpecImpl<PieceDefinitionError> for RulesetError {
    open spec fn obeys_from_spec() -> bool {
        true
    }

    open spec fn from_spec(from: PieceDefinitionError) -> Self {
        RulesetError::PieceDefinitionError(from)
    }
}

impl From<PieceDefinitionError> for RulesetError {
    fn from(from: PieceDefinitionError) -> (error: Self) {
        Self::PieceDefinitionError(from)
    }
}

impl FromSpecImpl<BoardTypeVerifyError> for RulesetError {
    open spec fn obeys_from_spec() -> bool {
        true
    }

    open spec fn from_spec(from: BoardTypeVerifyError) -> Self {
        RulesetError::BoardTypeVerifyError(from)
    }
}

impl From<BoardTypeVerifyError> for RulesetError {
    fn from(from: BoardTypeVerifyError) -> (error: Self) {
        Self::BoardTypeVerifyError(from)
    }
}

impl FromSpecImpl<StartingPositionsError> for RulesetError {
    open spec fn obeys_from_spec() -> bool {
        true
    }

    open spec fn from_spec(from: StartingPositionsError) -> Self {
        RulesetError::StartingPositionsError(from)
    }
}

impl From<StartingPositionsError> for RulesetError {
    fn from(from: StartingPositionsError) -> (error: Self) {
        Self::StartingPositionsError(from)
    }
}

impl FromSpecImpl<VictoryConditionError> for RulesetError {
    open spec fn obeys_from_spec() -> bool {
        true
    }

    open spec fn from_spec(from: VictoryConditionError) -> Self {
        RulesetError::VictoryConditionError(from)
    }
}

impl From<VictoryConditionError> for RulesetError {
    fn from(from: VictoryConditionError) -> (error: Self) {
        Self::VictoryConditionError(from)
    }
}

} // verus!
