use std::cell::RefCell;
use std::ops::Index;

use kapto::action::{Action, ActionError, ActionType};
use kapto::coordinate::Coordinate;
use kapto::direction::{Direction, Directions};
use kapto::game_board::{index_to_position, BoardSpace, Color, GameBoard, GameBoardError, Piece};
use kapto::grid::SpaceGrid;
use kapto::ruleset::board_type::space::Space;
use kapto::ruleset::board_type::{BoardType, BoardTypeVerifyError};
use kapto::ruleset::piece_definition::{
    CaptureRequirement, CaptureRule, CaptureRules, CaptureTarget, CaptureTimingRule,
    GoalMovementRule, JumpLimit, JumpRule, MoveRule, PieceDefinition,
};
use kapto::ruleset::standard::{get_board, get_pieces};
use matrix::format::Conventional;

const BIG: usize = 0;
const LITTLE: usize = 1;
const ROOK: usize = 2;
const IDLE: usize = 3;

fn at(row: i16, column: i16) -> Coordinate {
    Coordinate::new(row, column)
}

fn red(definition_index: usize) -> Piece {
    Piece::new(definition_index, Color::Red)
}

fn blue(definition_index: usize) -> Piece {
    Piece::new(definition_index, Color::Blue)
}

fn catalog() -> Vec<PieceDefinition> {
    let mut capture_rules = CaptureRules::new();
    capture_rules.insert(CaptureRule::JumpOver, CaptureTarget::EnemyOnly);
    let mut pieces = get_pieces();
    pieces.push(PieceDefinition {
        id: 2,
        name: "Rook".to_string(),
        move_rule: MoveRule::AnyDirection { limit: 1, directions: Directions::cardinal() },
        jump_rule: JumpRule::NoSameStart,
        jump_limit: JumpLimit::Limited { limit: 2, directions: Directions::cardinal() },
        capture_rules,
        capture_timing_rule: CaptureTimingRule::Immediate,
        capture_requirement: CaptureRequirement::Optional,
        goal_move_rule: GoalMovementRule::Free,
    });
    pieces.push(PieceDefinition {
        id: 3,
        name: "Idle".to_string(),
        move_rule: MoveRule::AnyDirection { limit: 0, directions: Directions::all() },
        jump_rule: JumpRule::NoSameStart,
        jump_limit: JumpLimit::Limited { limit: 0, directions: Directions::all() },
        capture_rules,
        capture_timing_rule: CaptureTimingRule::Immediate,
        capture_requirement: CaptureRequirement::Optional,
        goal_move_rule: GoalMovementRule::Free,
    });
    pieces
}

fn board_with<'a>(pieces: &'a Vec<PieceDefinition>, placed: &[(i16, i16, Piece)]) -> GameBoard<'a> {
    let mut board = GameBoard::new(&get_board(), pieces).unwrap();
    for &(row, column, piece) in placed {
        assert_eq!(board.set_piece(at(row, column), Some(piece)), Ok(()));
    }
    board
}

fn cells(board: &GameBoard) -> Vec<Result<Option<Piece>, GameBoardError>> {
    let mut out = Vec::new();
    for column in 0..board.columns() as i16 {
        for row in 0..board.rows() as i16 {
            out.push(board.piece(at(row, column)));
        }
    }
    out
}

fn count(board: &GameBoard) -> usize {
    cells(board).iter().filter(|cell| matches!(cell, Ok(Some(_)))).count()
}

fn jump(start: Coordinate, directions: &[Direction]) -> Action {
    Action { start_pos: start, action_type: ActionType::Jump(directions.to_vec()) }
}

fn step(start: Coordinate, direction: Direction) -> Action {
    Action { start_pos: start, action_type: ActionType::Move(direction) }
}

#[test]
fn index_position_test() {
    let matrix = Conventional::from_vec(
        (4, 4),
        vec![1, 5, 9, 13, 2, 6, 10, 14, 3, 7, 11, 15, 4, 8, 12, 16],
    );

    for (index, val) in matrix.values.iter().enumerate() {
        assert_eq!(val, matrix.index(index_to_position(matrix.rows, index)));
    }
}

#[test]
fn index_to_position_is_column_major() {
    assert_eq!(index_to_position(4, 0), (0, 0));
    assert_eq!(index_to_position(4, 3), (3, 0));
    assert_eq!(index_to_position(4, 4), (0, 1));
    assert_eq!(index_to_position(4, 14), (2, 3));
    assert_eq!(index_to_position(12, 59), (11, 4));
    assert_eq!(index_to_position(1, 7), (0, 7));
}

#[test]
fn new_board_follows_the_board_type() {
    let pieces = catalog();
    let board = GameBoard::new(&get_board(), &pieces).unwrap();
    assert_eq!(board.rows(), 12);
    assert_eq!(board.columns(), 10);
    assert_eq!(board.piece(at(0, 4)), Ok(None));
    assert_eq!(board.piece(at(11, 5)), Ok(None));
    assert_eq!(board.piece(at(1, 0)), Ok(None));
    assert_eq!(board.piece(at(0, 0)), Err(GameBoardError::InvalidPosition));
    assert_eq!(board.piece(at(11, 9)), Err(GameBoardError::InvalidPosition));
    assert!(board.is_valid_position(at(0, 4)));
    assert!(board.is_valid_position(at(10, 9)));
    assert!(!board.is_valid_position(at(0, 3)));
    assert_eq!(count(&board), 0);
}

#[test]
fn new_board_refuses_an_invalid_board_type() {
    let pieces = catalog();
    let board_type = BoardType::Rectangular {
        rows: 0,
        columns: 5,
        goal_locations: [1u8].iter().cloned().collect(),
    };
    match GameBoard::new(&board_type, &pieces) {
        Ok(_) => panic!("an invalid board type"),
        Err(error) => assert_eq!(error, BoardTypeVerifyError::InvalidRows(0)),
    }
    let too_wide = BoardType::Custom(SpaceGrid::new(3, 256));
    match GameBoard::new(&too_wide, &pieces) {
        Ok(_) => panic!("an invalid board type"),
        Err(error) => assert_eq!(error, BoardTypeVerifyError::InvalidColumns(256)),
    }
}

#[test]
fn new_board_from_a_custom_layout() {
    let pieces = catalog();
    let mut grid = SpaceGrid::new(3, 2);
    grid.set(0, 0, Space::Invalid);
    grid.set(2, 1, Space::Goal(Color::Blue));
    let mut board = GameBoard::new(&BoardType::Custom(grid), &pieces).unwrap();
    assert_eq!(board.rows(), 3);
    assert_eq!(board.columns(), 2);
    assert_eq!(board.piece(at(0, 0)), Err(GameBoardError::InvalidPosition));
    assert_eq!(board.piece(at(2, 1)), Ok(None));
    assert_eq!(board.piece(at(1, 1)), Ok(None));
    assert_eq!(board.piece(at(3, 1)), Err(GameBoardError::InvalidPosition));
    assert_eq!(board.set_piece(at(2, 1), Some(red(BIG))), Ok(()));
    assert_eq!(board.piece(at(2, 1)), Ok(Some(red(BIG))));
    assert_eq!(board.pieces_of_color(Color::Red), vec![(at(2, 1), red(BIG))]);
}

#[test]
fn piece_fails_off_the_board_and_on_invalid_cells() {
    let pieces = catalog();
    let board = board_with(&pieces, &[(5, 5, red(BIG))]);
    for position in [
        at(-1, 0),
        at(0, -1),
        at(12, 0),
        at(0, 10),
        at(i16::MIN, i16::MIN),
        at(i16::MAX, i16::MAX),
        at(i16::MAX, 0),
        at(0, 0),
        at(11, 0),
        at(0, 9),
    ] {
        assert_eq!(board.piece(position), Err(GameBoardError::InvalidPosition));
        assert!(!board.is_valid_position(position));
    }
    assert_eq!(board.piece(at(5, 5)), Ok(Some(red(BIG))));
    assert_eq!(board.piece(at(5, 6)), Ok(None));
}

#[test]
fn set_piece_writes_one_cell() {
    let pieces = catalog();
    let mut board = board_with(&pieces, &[(5, 5, red(BIG))]);
    let before = cells(&board);
    assert_eq!(board.set_piece(at(0, 4), Some(blue(LITTLE))), Ok(()));
    assert_eq!(board.piece(at(0, 4)), Ok(Some(blue(LITTLE))));
    assert_eq!(board.set_piece(at(5, 5), None), Ok(()));
    assert_eq!(board.piece(at(5, 5)), Ok(None));
    let after = cells(&board);
    let changed: Vec<usize> = (0..before.len()).filter(|&i| before[i] != after[i]).collect();
    assert_eq!(changed, vec![4 * 12 + 0, 5 * 12 + 5]);
}

#[test]
fn set_piece_refuses_invalid_positions() {
    let pieces = catalog();
    let mut board = board_with(&pieces, &[(5, 5, red(BIG))]);
    let before = cells(&board);
    assert_eq!(board.set_piece(at(0, 0), Some(red(BIG))), Err(GameBoardError::InvalidPosition));
    assert_eq!(board.set_piece(at(-1, 3), Some(red(BIG))), Err(GameBoardError::InvalidPosition));
    assert_eq!(board.set_piece(at(12, 3), None), Err(GameBoardError::InvalidPosition));
    assert_eq!(cells(&board), before);
}

#[test]
fn pieces_are_listed_in_column_major_order() {
    let pieces = catalog();
    let board = board_with(
        &pieces,
        &[
            (7, 2, red(BIG)),
            (3, 2, blue(LITTLE)),
            (1, 9, red(LITTLE)),
            (11, 4, red(ROOK)),
            (0, 5, blue(BIG)),
            (2, 0, blue(ROOK)),
        ],
    );
    assert_eq!(
        board.pieces_of_color(Color::Red),
        vec![(at(7, 2), red(BIG)), (at(11, 4), red(ROOK)), (at(1, 9), red(LITTLE))]
    );
    assert_eq!(
        board.pieces_of_color(Color::Blue),
        vec![(at(2, 0), blue(ROOK)), (at(3, 2), blue(LITTLE)), (at(0, 5), blue(BIG))]
    );
    assert_eq!(
        board.pieces_of_definition(LITTLE),
        vec![(at(3, 2), blue(LITTLE)), (at(1, 9), red(LITTLE))]
    );
    assert_eq!(board.pieces_of_definition(IDLE), vec![]);
}

#[test]
fn clone_is_independent() {
    let pieces = catalog();
    let mut board = board_with(&pieces, &[(5, 5, red(BIG))]);
    let copy = board.clone();
    board.set_piece(at(5, 5), None).unwrap();
    board.set_piece(at(6, 6), Some(blue(BIG))).unwrap();
    assert_eq!(copy.piece(at(5, 5)), Ok(Some(red(BIG))));
    assert_eq!(copy.piece(at(6, 6)), Ok(None));
    assert_eq!(copy.rows(), 12);
    assert_eq!(copy.columns(), 10);
}

#[test]
fn move_onto_empty_cell_is_valid() {
    let pieces = catalog();
    let board = board_with(&pieces, &[(5, 5, red(BIG))]);
    for direction in Directions::all().to_vec() {
        assert_eq!(board.is_valid_move(at(5, 5), direction), Ok(()));
        assert_eq!(board.is_valid_action(&step(at(5, 5), direction)), Ok(()));
    }
}

#[test]
fn move_off_board_is_rejected() {
    let pieces = catalog();
    let board = board_with(&pieces, &[(1, 0, red(BIG)), (10, 9, blue(BIG)), (1, 4, red(LITTLE))]);
    assert_eq!(board.is_valid_move(at(1, 0), Direction::North), Err(ActionError::MoveOffBoard));
    assert_eq!(board.is_valid_move(at(1, 0), Direction::West), Err(ActionError::MoveOffBoard));
    assert_eq!(board.is_valid_move(at(1, 0), Direction::NorthWest), Err(ActionError::MoveOffBoard));
    assert_eq!(board.is_valid_move(at(10, 9), Direction::East), Err(ActionError::MoveOffBoard));
    assert_eq!(board.is_valid_move(at(10, 9), Direction::South), Err(ActionError::MoveOffBoard));
    assert_eq!(board.is_valid_move(at(1, 4), Direction::West), Ok(()));
    assert_eq!(board.is_valid_move(at(1, 4), Direction::SouthWest), Ok(()));
    assert_eq!(board.is_valid_move(at(1, 4), Direction::NorthWest), Err(ActionError::MoveOffBoard));
}

#[test]
fn move_onto_occupied_target_reports_the_occupant() {
    let pieces = catalog();
    let board = board_with(&pieces, &[(5, 5, red(BIG)), (5, 6, blue(LITTLE)), (6, 5, red(ROOK))]);
    assert_eq!(
        board.is_valid_move(at(5, 5), Direction::South),
        Err(ActionError::PieceOnMove(blue(LITTLE)))
    );
    assert_eq!(
        board.is_valid_move(at(5, 5), Direction::East),
        Err(ActionError::PieceOnMove(red(ROOK)))
    );
    assert_eq!(
        board.is_valid_action(&step(at(5, 5), Direction::South)),
        Err(ActionError::PieceOnMove(blue(LITTLE)))
    );
    match board.apply_action(&step(at(5, 5), Direction::South), |_, _| {}) {
        Ok(_) => panic!("an occupied target"),
        Err(error) => assert_eq!(error, ActionError::PieceOnMove(blue(LITTLE))),
    }
}

#[test]
fn move_needs_a_piece_on_a_valid_start() {
    let pieces = catalog();
    let board = board_with(&pieces, &[(5, 5, red(BIG))]);
    assert_eq!(board.is_valid_move(at(3, 3), Direction::South), Err(ActionError::NoPieceAtStart));
    assert_eq!(
        board.is_valid_move(at(0, 3), Direction::East),
        Err(ActionError::InvalidStartPosition)
    );
    assert_eq!(board.is_valid_move(at(5, 4), Direction::South), Err(ActionError::PieceOnMove(red(BIG))));
    assert_eq!(board.is_valid_move(at(-1, -1), Direction::South), Err(ActionError::MoveOffBoard));
}

#[test]
fn move_has_to_follow_the_move_rule() {
    let pieces = catalog();
    let board = board_with(
        &pieces,
        &[(5, 5, red(ROOK)), (7, 7, red(IDLE)), (3, 3, red(17)), (2, 7, red(ROOK)), (3, 8, blue(BIG))],
    );
    assert_eq!(board.is_valid_move(at(5, 5), Direction::North), Ok(()));
    assert_eq!(board.is_valid_move(at(5, 5), Direction::West), Ok(()));
    assert_eq!(
        board.is_valid_move(at(5, 5), Direction::NorthEast),
        Err(ActionError::MoveRuleViolation)
    );
    assert_eq!(
        board.is_valid_action(&step(at(5, 5), Direction::SouthWest)),
        Err(ActionError::MoveRuleViolation)
    );
    assert_eq!(board.is_valid_move(at(7, 7), Direction::North), Err(ActionError::MoveRuleViolation));
    assert_eq!(board.is_valid_move(at(3, 3), Direction::North), Err(ActionError::MoveRuleViolation));
    assert_eq!(
        board.is_valid_move(at(2, 7), Direction::SouthEast),
        Err(ActionError::PieceOnMove(blue(BIG)))
    );
}

#[test]
fn action_checks_the_start_first() {
    let pieces = catalog();
    let board = board_with(&pieces, &[(5, 5, red(BIG)), (1, 1, blue(BIG))]);
    for position in [at(0, 0), at(-3, 4), at(12, 4), at(4, 10), at(i16::MAX, i16::MAX)] {
        assert_eq!(
            board.is_valid_action(&step(position, Direction::South)),
            Err(ActionError::InvalidStartPosition)
        );
        assert_eq!(board.is_valid_action(&jump(position, &[])), Err(ActionError::InvalidStartPosition));
        match board.apply_action(&jump(position, &[Direction::South]), |_, _| {}) {
            Ok(_) => panic!("an invalid start"),
            Err(error) => assert_eq!(error, ActionError::InvalidStartPosition),
        }
    }
    assert_eq!(
        board.is_valid_action(&step(at(1, 0), Direction::North)),
        Err(ActionError::NoPieceAtStart)
    );
    assert_eq!(board.is_valid_action(&jump(at(5, 6), &[])), Err(ActionError::NoPieceAtStart));
    assert_eq!(board.is_valid_action(&jump(at(5, 5), &[])), Err(ActionError::EmptyJump));
}

#[test]
fn empty_jump_is_rejected() {
    let pieces = catalog();
    let board = board_with(&pieces, &[(5, 5, red(LITTLE))]);
    assert_eq!(board.is_valid_jump(red(LITTLE), at(5, 5), &[]), Err(ActionError::EmptyJump));
    assert_eq!(board.is_valid_jump(red(IDLE), at(5, 5), &[]), Err(ActionError::EmptyJump));
}

#[test]
fn single_jump_over_a_piece_is_valid() {
    let pieces = catalog();
    let board = board_with(&pieces, &[(5, 5, red(LITTLE)), (5, 6, blue(BIG)), (6, 6, red(BIG))]);
    assert_eq!(board.is_valid_jump(red(LITTLE), at(5, 5), &[Direction::South]), Ok(()));
    assert_eq!(board.is_valid_jump(red(LITTLE), at(5, 5), &[Direction::SouthEast]), Ok(()));
    assert_eq!(board.is_valid_action(&jump(at(5, 5), &[Direction::South])), Ok(()));
}

#[test]
fn jump_limit_comes_from_the_definition() {
    let pieces = catalog();
    let placed = [
        (5, 1, red(BIG)),
        (5, 2, blue(BIG)),
        (5, 4, blue(BIG)),
        (5, 6, blue(BIG)),
        (5, 8, blue(BIG)),
    ];
    let board = board_with(&pieces, &placed);
    let chain = [Direction::South, Direction::South, Direction::South, Direction::South];
    assert_eq!(board.is_valid_jump(red(BIG), at(5, 1), &chain), Ok(()));
    assert_eq!(board.is_valid_jump(red(BIG), at(5, 1), &chain[..3]), Ok(()));
    assert_eq!(board.is_valid_jump(red(LITTLE), at(5, 1), &chain[..1]), Ok(()));
    assert_eq!(
        board.is_valid_jump(red(LITTLE), at(5, 1), &chain[..2]),
        Err(ActionError::JumpLimitExceeded)
    );
    assert_eq!(board.is_valid_jump(red(ROOK), at(5, 1), &chain[..2]), Ok(()));
    assert_eq!(
        board.is_valid_jump(red(ROOK), at(5, 1), &chain[..3]),
        Err(ActionError::JumpLimitExceeded)
    );
    assert_eq!(
        board.is_valid_jump(red(IDLE), at(5, 1), &chain[..1]),
        Err(ActionError::JumpLimitExceeded)
    );
    assert_eq!(
        board.is_valid_jump(red(99), at(5, 1), &chain[..1]),
        Err(ActionError::JumpLimitExceeded)
    );
}

#[test]
fn jump_limit_is_checked_before_the_hops() {
    let pieces = catalog();
    let board = board_with(&pieces, &[(5, 5, red(LITTLE))]);
    assert_eq!(
        board.is_valid_jump(red(LITTLE), at(5, 5), &[Direction::North, Direction::North]),
        Err(ActionError::JumpLimitExceeded)
    );
    assert_eq!(
        board.is_valid_jump(red(BIG), at(5, 5), &[Direction::North, Direction::North]),
        Err(ActionError::NoPieceJumped)
    );
}

#[test]
fn jump_off_board_is_rejected() {
    let pieces = catalog();
    let board = board_with(&pieces, &[(1, 1, red(BIG)), (1, 0, blue(BIG)), (2, 1, blue(BIG))]);
    assert_eq!(
        board.is_valid_jump(red(BIG), at(1, 1), &[Direction::North]),
        Err(ActionError::JumpOffBoard)
    );
    assert_eq!(
        board.is_valid_jump(red(BIG), at(1, 1), &[Direction::West]),
        Err(ActionError::JumpOffBoard)
    );
    assert_eq!(
        board.is_valid_jump(red(BIG), at(i16::MAX, i16::MIN), &[Direction::SouthEast]),
        Err(ActionError::JumpOffBoard)
    );
    assert_eq!(board.is_valid_jump(red(BIG), at(1, 1), &[Direction::East]), Ok(()));
}

#[test]
fn jump_onto_a_piece_reports_the_occupant() {
    let pieces = catalog();
    let board = board_with(&pieces, &[(5, 5, red(BIG)), (5, 6, blue(BIG)), (5, 7, blue(LITTLE))]);
    assert_eq!(
        board.is_valid_jump(red(BIG), at(5, 5), &[Direction::South]),
        Err(ActionError::PieceOnJump(blue(LITTLE)))
    );
}

#[test]
fn jump_needs_a_piece_to_hop_over() {
    let pieces = catalog();
    let board = board_with(&pieces, &[(5, 5, red(BIG))]);
    assert_eq!(
        board.is_valid_jump(red(BIG), at(5, 5), &[Direction::South]),
        Err(ActionError::NoPieceJumped)
    );
}

#[test]
fn jump_over_an_invalid_cell_hops_over_nothing() {
    let pieces = catalog();
    let mut grid = SpaceGrid::new(3, 3);
    grid.set(1, 1, Space::Invalid);
    let board_type = BoardType::Custom(grid);
    let mut board = GameBoard::new(&board_type, &pieces).unwrap();
    board.set_piece(at(0, 0), Some(red(BIG))).unwrap();
    assert_eq!(
        board.is_valid_jump(red(BIG), at(0, 0), &[Direction::SouthEast]),
        Err(ActionError::NoPieceJumped)
    );
}

#[test]
fn landing_is_judged_before_the_hopped_cell() {
    let pieces = catalog();
    let board = board_with(&pieces, &[(1, 1, red(BIG)), (5, 5, red(BIG)), (5, 7, blue(BIG))]);
    assert_eq!(
        board.is_valid_jump(red(BIG), at(1, 1), &[Direction::North]),
        Err(ActionError::JumpOffBoard)
    );
    assert_eq!(
        board.is_valid_jump(red(BIG), at(5, 5), &[Direction::South]),
        Err(ActionError::PieceOnJump(blue(BIG)))
    );
}

#[test]
fn first_failing_hop_decides() {
    let pieces = catalog();
    let board = board_with(&pieces, &[(5, 1, red(BIG)), (5, 2, blue(BIG)), (6, 3, blue(BIG))]);
    assert_eq!(
        board.is_valid_jump(red(BIG), at(5, 1), &[Direction::South, Direction::South, Direction::North]),
        Err(ActionError::NoPieceJumped)
    );
    assert_eq!(
        board.is_valid_jump(red(BIG), at(5, 1), &[Direction::North, Direction::South]),
        Err(ActionError::JumpOffBoard)
    );
    assert_eq!(
        board.is_valid_jump(red(BIG), at(5, 1), &[Direction::South, Direction::East, Direction::East]),
        Err(ActionError::NoPieceJumped)
    );
}

#[test]
fn chain_may_not_come_back_to_a_landing_cell() {
    let pieces = catalog();
    let board = board_with(&pieces, &[(5, 5, red(BIG)), (5, 6, blue(BIG)), (6, 7, blue(BIG))]);
    let chain = [Direction::South, Direction::East, Direction::West];
    assert_eq!(board.is_valid_jump(red(BIG), at(5, 5), &chain[..2]), Ok(()));
    assert_eq!(
        board.is_valid_jump(red(BIG), at(5, 5), &chain),
        Err(ActionError::JumpedBackToPrevPosition)
    );
    assert_eq!(
        board.is_valid_action(&jump(at(5, 5), &chain)),
        Err(ActionError::JumpedBackToPrevPosition)
    );
    match board.apply_action(&jump(at(5, 5), &chain), |_, _| {}) {
        Ok(_) => panic!("a chain that comes back"),
        Err(error) => assert_eq!(error, ActionError::JumpedBackToPrevPosition),
    }
}

#[test]
fn chain_may_not_come_back_even_over_nothing() {
    let pieces = catalog();
    let board = board_with(&pieces, &[(5, 6, blue(BIG))]);
    assert_eq!(
        board.is_valid_jump(red(BIG), at(5, 5), &[Direction::South, Direction::North]),
        Err(ActionError::JumpedBackToPrevPosition)
    );
    let open = board_with(&pieces, &[(5, 6, blue(BIG)), (6, 7, blue(BIG))]);
    assert_eq!(
        open.is_valid_jump(
            red(BIG),
            at(5, 5),
            &[Direction::South, Direction::East, Direction::West, Direction::North]
        ),
        Err(ActionError::JumpedBackToPrevPosition)
    );
}

#[test]
fn chain_back_onto_the_jumper_finds_the_cell_occupied() {
    let pieces = catalog();
    let board = board_with(&pieces, &[(5, 5, red(BIG)), (5, 6, blue(BIG))]);
    assert_eq!(
        board.is_valid_action(&jump(at(5, 5), &[Direction::South, Direction::North])),
        Err(ActionError::PieceOnJump(red(BIG)))
    );
}

#[test]
fn apply_move_moves_the_piece() {
    let pieces = catalog();
    let board = board_with(&pieces, &[(5, 5, red(BIG)), (2, 2, blue(LITTLE))]);
    let before = cells(&board);
    let calls = RefCell::new(Vec::new());
    let after = board
        .apply_action(&step(at(5, 5), Direction::NorthEast), |position, piece| {
            calls.borrow_mut().push((position, piece))
        })
        .unwrap();
    assert!(calls.borrow().is_empty());
    assert_eq!(after.piece(at(5, 5)), Ok(None));
    assert_eq!(after.piece(at(6, 4)), Ok(Some(red(BIG))));
    assert_eq!(after.piece(at(2, 2)), Ok(Some(blue(LITTLE))));
    assert_eq!(count(&after), 2);
    assert_eq!(cells(&board), before);
    assert!(board == board_with(&pieces, &[(5, 5, red(BIG)), (2, 2, blue(LITTLE))]));
    assert!(after == board_with(&pieces, &[(6, 4, red(BIG)), (2, 2, blue(LITTLE))]));
    assert!(after != board);
    assert_eq!(after.rows(), 12);
    assert_eq!(after.columns(), 10);
}

#[test]
fn apply_move_onto_a_goal_cell() {
    let pieces = catalog();
    let board = board_with(&pieces, &[(1, 4, blue(LITTLE))]);
    let after = board.apply_action(&step(at(1, 4), Direction::West), |_, _| {}).unwrap();
    assert_eq!(after.piece(at(0, 4)), Ok(Some(blue(LITTLE))));
    assert_eq!(after.piece(at(1, 4)), Ok(None));
    assert_eq!(after.piece(at(0, 3)), Err(GameBoardError::InvalidPosition));
}

#[test]
fn apply_jump_captures_the_other_side() {
    let pieces = catalog();
    let board = board_with(&pieces, &[(5, 5, red(LITTLE)), (5, 6, blue(BIG)), (9, 9, blue(LITTLE))]);
    let before = cells(&board);
    let calls = RefCell::new(Vec::new());
    let after = board
        .apply_action(&jump(at(5, 5), &[Direction::South]), |position, piece| {
            calls.borrow_mut().push((position, piece))
        })
        .unwrap();
    assert_eq!(*calls.borrow(), vec![(at(5, 6), blue(BIG))]);
    assert_eq!(after.piece(at(5, 5)), Ok(None));
    assert_eq!(after.piece(at(5, 6)), Ok(None));
    assert_eq!(after.piece(at(5, 7)), Ok(Some(red(LITTLE))));
    assert_eq!(after.piece(at(9, 9)), Ok(Some(blue(LITTLE))));
    assert_eq!(count(&board), 3);
    assert_eq!(count(&after), 2);
    assert_eq!(cells(&board), before);
}

#[test]
fn apply_jump_passes_over_the_own_side() {
    let pieces = catalog();
    let board = board_with(&pieces, &[(5, 5, red(LITTLE)), (6, 6, red(BIG))]);
    let calls = RefCell::new(Vec::new());
    let after = board
        .apply_action(&jump(at(5, 5), &[Direction::SouthEast]), |position, piece| {
            calls.borrow_mut().push((position, piece))
        })
        .unwrap();
    assert!(calls.borrow().is_empty());
    assert_eq!(after.piece(at(5, 5)), Ok(None));
    assert_eq!(after.piece(at(6, 6)), Ok(Some(red(BIG))));
    assert_eq!(after.piece(at(7, 7)), Ok(Some(red(LITTLE))));
    assert_eq!(count(&after), 2);
}

#[test]
fn apply_chain_captures_in_order() {
    let pieces = catalog();
    let placed = [
        (5, 1, blue(BIG)),
        (5, 2, red(LITTLE)),
        (6, 3, blue(LITTLE)),
        (8, 3, red(BIG)),
        (10, 4, red(ROOK)),
        (2, 2, red(BIG)),
    ];
    let board = board_with(&pieces, &placed);
    let before = cells(&board);
    let chain = [Direction::South, Direction::East, Direction::East, Direction::SouthEast];
    let (after, captures) = board.apply_with_captures(&jump(at(5, 1), &chain)).unwrap();
    assert_eq!(
        captures,
        vec![(at(5, 2), red(LITTLE)), (at(8, 3), red(BIG)), (at(10, 4), red(ROOK))]
    );
    assert_eq!(after.piece(at(5, 1)), Ok(None));
    assert_eq!(after.piece(at(5, 2)), Ok(None));
    assert_eq!(after.piece(at(6, 3)), Ok(Some(blue(LITTLE))));
    assert_eq!(after.piece(at(8, 3)), Ok(None));
    assert_eq!(after.piece(at(10, 4)), Ok(None));
    assert_eq!(after.piece(at(11, 5)), Ok(Some(blue(BIG))));
    assert_eq!(after.piece(at(2, 2)), Ok(Some(red(BIG))));
    assert_eq!(count(&after), count(&board) - captures.len());
    assert_eq!(cells(&board), before);

    let calls = RefCell::new(Vec::new());
    let again = board
        .apply_action(&jump(at(5, 1), &chain), |position, piece| {
            calls.borrow_mut().push((position, piece))
        })
        .unwrap();
    assert_eq!(*calls.borrow(), captures);
    assert_eq!(cells(&again), cells(&after));
}

#[test]
fn rejected_action_leaves_the_board_alone() {
    let pieces = catalog();
    let board = board_with(&pieces, &[(5, 5, red(LITTLE)), (5, 6, blue(BIG)), (5, 7, blue(BIG))]);
    let before = cells(&board);
    let calls = RefCell::new(0);
    let result = board.apply_action(&jump(at(5, 5), &[Direction::South]), |_, _| {
        *calls.borrow_mut() += 1;
    });
    match result {
        Ok(_) => panic!("an occupied landing cell"),
        Err(error) => assert_eq!(error, ActionError::PieceOnJump(blue(BIG))),
    }
    assert_eq!(*calls.borrow(), 0);
    assert_eq!(cells(&board), before);
    match board.apply_with_captures(&step(at(4, 4), Direction::South)) {
        Ok(_) => panic!("no piece at the start"),
        Err(error) => assert_eq!(error, ActionError::NoPieceAtStart),
    }
}

#[test]
fn board_space_is_the_zero_of_the_storage() {
    let zero: BoardSpace = matrix::Element::zero();
    assert_eq!(zero, BoardSpace::Normal(None));
    let space: Space = matrix::Element::zero();
    assert_eq!(space, Space::Normal);
}

#[test]
fn piece_knows_its_side_and_definition() {
    let piece = Piece::new(4, Color::Blue);
    assert_eq!(piece.color(), Color::Blue);
    assert_eq!(piece.definition_index(), 4);
}

#[test]
fn boards_are_compared_by_value() {
    let pieces = catalog();
    let other_pieces = catalog();
    let board = board_with(&pieces, &[(5, 5, red(BIG)), (0, 4, blue(LITTLE))]);
    assert!(board == board.clone());
    assert!(board == board_with(&other_pieces, &[(0, 4, blue(LITTLE)), (5, 5, red(BIG))]));
    assert!(board != board_with(&pieces, &[(5, 5, red(BIG))]));
    assert!(board != board_with(&pieces, &[(5, 5, red(BIG)), (0, 4, red(LITTLE))]));
    assert!(board != board_with(&pieces, &[(5, 5, red(BIG)), (0, 5, blue(LITTLE))]));
    let small = GameBoard::new(
        &BoardType::Rectangular { rows: 10, columns: 9, goal_locations: [4u8, 5].iter().cloned().collect() },
        &pieces,
    )
    .unwrap();
    assert!(small != GameBoard::new(&get_board(), &pieces).unwrap());
}

#[test]
fn coordinate_indexes_a_matrix() {
    let matrix = Conventional::from_vec((2, 3), vec![10, 20, 30, 40, 50, 60]);
    assert_eq!(*matrix.index(at(0, 0)), 10);
    assert_eq!(*matrix.index(at(1, 0)), 20);
    assert_eq!(*matrix.index(at(0, 2)), 50);
    assert_eq!(*matrix.index(at(1, 2)), 60);
    assert_eq!(matrix::Position::coordinates(&at(1, 2)), (1, 2));
    assert!(matrix::Position::row(&at(-1, 2)) > 32767);
    assert!(matrix::Position::column(&at(1, -2)) > 32767);
}

#[test]
fn piece_hopped_over_twice_is_captured_once() {
    let pieces = catalog();
    let board = board_with(&pieces, &[(4, 6, red(BIG)), (5, 5, blue(BIG)), (5, 4, red(LITTLE))]);
    let chain = [Direction::NorthEast, Direction::West, Direction::SouthEast];
    assert_eq!(board.is_valid_action(&jump(at(4, 6), &chain)), Ok(()));
    let (after, captures) = board.apply_with_captures(&jump(at(4, 6), &chain)).unwrap();
    assert_eq!(captures, vec![(at(5, 5), blue(BIG))]);
    assert!(after == board_with(&pieces, &[(6, 6, red(BIG)), (5, 4, red(LITTLE))]));
    assert_eq!(count(&after), count(&board) - 1);
}
