//! The standard game: its pieces and its board.
use std::collections::HashSet;
use vstd::prelude::*;

use crate::direction::{Direction, Directions};
use crate::ruleset::board_type::BoardType;
use crate::ruleset::piece_definition::{
    CaptureRequirement, CaptureRule, CaptureRules, CaptureTarget, CaptureTimingRule,
    GoalMovementRule, JumpLimit, JumpRule, MoveRule, PieceDefinition,
};
use crate::ruleset::starting_positions::StartingPositions;
use crate::ruleset::victory_condition::VictoryConditions;
use crate::ruleset::{catalog_outcome, Ruleset, RulesetResult};

verus! {

broadcast use vstd::std_specs::hash::group_hash_axioms;

/// Whether `piece` is a piece of the standard game with the given index, name and jump
/// limit: it moves one cell in any direction, captures the other side's pieces by jumping
/// over them, has to capture where it can, with priority 10, and its captures leave the
/// board when the turn ends.
pub open spec fn is_standard_piece(piece: PieceDefinition, id: usize, name: Seq<char>, cap: Option<usize>) -> bool {
    &&& piece.id == id
    &&& piece.name@ == name
    &&& piece.move_rule.spec_limit() == 1
    &&& piece.move_rule.spec_directions().spec_bits() == 0b1111_1111
    &&& piece.jump_rule == JumpRule::NoSameStart
    &&& piece.jump_limit.spec_cap() == cap
    &&& piece.jump_limit.spec_directions().spec_bits() == 0b1111_1111
    &&& piece.capture_rules@ == map![CaptureRule::JumpOver => CaptureTarget::EnemyOnly]
    &&& piece.capture_timing_rule == CaptureTimingRule::AfterTurn
    &&& piece.capture_requirement == CaptureRequirement::Forced(10)
    &&& piece.goal_move_rule == GoalMovementRule::Free
}

/// Whether `ruleset` is the standard game played from the given starting positions: the
/// standard pieces on the standard board, without a victory condition.
pub open spec fn is_standard_game(ruleset: Ruleset, starting_positions: StartingPositions) -> bool {
    &&& ruleset.starting_positions == starting_positions
    &&& ruleset.pieces@.len() == 2
    &&& is_standard_piece(ruleset.pieces@[0], 0, "Big"@, None)
    &&& is_standard_piece(ruleset.pieces@[1], 1, "Little"@, Some(1usize))
    &&& ruleset.board_type matches BoardType::Rectangular { rows, columns, goal_locations }
    &&& rows == 10 && columns == 10 && goal_locations@ == set![4u8, 5u8]
    &&& ruleset.victory_conditions@.len() == 0
}

/// The standard game, to be played from the given starting positions. It has no victory
/// condition yet. The ruleset is checked, and handed out only if it passes; else the error
/// of the check is.
pub fn standard_rules(starting_positions: StartingPositions) -> (result: RulesetResult<Ruleset>)
    ensures
        match result {
            Ok(ruleset) => is_standard_game(ruleset, starting_positions) && ruleset.check() is Ok,
            Err(error) => exists|ruleset: Ruleset|
                is_standard_game(ruleset, starting_positions) && #[trigger] ruleset.check() == Err::<
                    (),
                    _,
                >(error),
        },
{
    let out = Ruleset {
        pieces: get_pieces(),
        board_type: get_board(),
        starting_positions,
        victory_conditions: VictoryConditions::new(),
    };
    match out.verify() {
        Ok(_) => Ok(out),
        Err(error) => Err(error),
    }
}

/// The pieces of the standard game: the big piece, which may chain any number of jumps, and
/// the little piece, which may make one. Together they pass the check of a catalog.
pub fn get_pieces() -> (pieces: Vec<PieceDefinition>)
    ensures
        pieces@.len() == 2,
        is_standard_piece(pieces@[0], 0, "Big"@, None),
        is_standard_piece(pieces@[1], 1, "Little"@, Some(1usize)),
        catalog_outcome(pieces@, 0) is Ok,
{
    let all = Directions::all();
    let mut capture_rules = CaptureRules::new();
    capture_rules.insert(CaptureRule::JumpOver, CaptureTarget::EnemyOnly);
    let big = PieceDefinition {
        id: 0,
        name: "Big".to_owned(),
        capture_rules,
        jump_rule: JumpRule::NoSameStart,
        capture_timing_rule: CaptureTimingRule::AfterTurn,
        capture_requirement: CaptureRequirement::Forced(10),
        jump_limit: JumpLimit::Unlimited { directions: all },
        move_rule: MoveRule::AnyDirection { limit: 1, directions: all },
        goal_move_rule: GoalMovementRule::Free,
    };
    let small = PieceDefinition {
        id: 1,
        name: "Little".to_owned(),
        capture_rules,
        jump_rule: JumpRule::NoSameStart,
        capture_timing_rule: CaptureTimingRule::AfterTurn,
        capture_requirement: CaptureRequirement::Forced(10),
        jump_limit: JumpLimit::Limited { limit: 1, directions: all },
        move_rule: MoveRule::AnyDirection { limit: 1, directions: all },
        goal_move_rule: GoalMovementRule::Free,
    };
    proof {
        assert(capture_rules@ =~= map![CaptureRule::JumpOver => CaptureTarget::EnemyOnly]);
        assert(capture_rules@.contains_key(CaptureRule::JumpOver));
        assert(all@.contains(Direction::North));
        assert(big.check() is Ok);
        assert(small.check() is Ok);
    }
    let mut pieces: Vec<PieceDefinition> = Vec::new();
    pieces.push(big);
    pieces.push(small);
    proof {
        reveal_with_fuel(catalog_outcome, 3);
        assert(!pieces@[0].is_duplicate_of(pieces@[1]));
    }
    pieces
}

/// The board of the standard game: ten rows of ten cells between the border rows, with
/// goals in columns 4 and 5. It passes the check of a board.
pub fn get_board() -> (board: BoardType)
    ensures
        board matches BoardType::Rectangular { rows, columns, goal_locations } && rows == 10 && columns
            == 10 && goal_locations@ == set![4u8, 5u8],
        board.check() is Ok,
{
    let mut goal_locations: HashSet<u8> = HashSet::new();
    goal_locations.insert(4);
    goal_locations.insert(5);
    assert(goal_locations@ =~= set![4u8, 5u8]);
    let board = BoardType::Rectangular { rows: 10, columns: 10, goal_locations };
    proof {
        crate::ruleset::board_type::lemma_first_goal_from(goal_locations@, 10);
    }
    board
}

} // verus!
