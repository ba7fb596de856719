use std::collections::HashSet;

use kapto::coordinate::Coordinate;
use kapto::game_board::Color;
use kapto::grid::SpaceGrid;
use kapto::ruleset::board_type::space::Space;
use kapto::ruleset::board_type::{BoardType, BoardTypeVerifyError};

fn rectangular(rows: u8, columns: u8, goals: &[u8]) -> BoardType {
    BoardType::Rectangular { rows, columns, goal_locations: goals.iter().cloned().collect() }
}

#[test]
fn it_works() {
    assert_eq!(2 + 2, 4);
}

#[test]
fn verify_test() {
    assert_eq!(
        BoardType::Rectangular { rows: 0, columns: 2, goal_locations: HashSet::new() }.verify(),
        Err(BoardTypeVerifyError::InvalidRows(0))
    );
    assert_eq!(
        BoardType::Rectangular { rows: 1, columns: 0, goal_locations: HashSet::new() }.verify(),
        Err(BoardTypeVerifyError::InvalidColumns(0))
    );
    assert_eq!(
        BoardType::Rectangular { rows: 1, columns: 2, goal_locations: HashSet::new() }.verify(),
        Ok(())
    )
}

#[test]
fn rectangular_rows_have_an_upper_limit() {
    assert_eq!(rectangular(253, 2, &[]).verify(), Ok(()));
    assert_eq!(rectangular(254, 2, &[]).verify(), Err(BoardTypeVerifyError::InvalidRows(254)));
    assert_eq!(rectangular(255, 2, &[]).verify(), Err(BoardTypeVerifyError::InvalidRows(255)));
}

#[test]
fn rectangular_needs_two_columns() {
    assert_eq!(rectangular(1, 1, &[]).verify(), Err(BoardTypeVerifyError::InvalidColumns(1)));
    assert_eq!(rectangular(1, 255, &[254]).verify(), Ok(()));
}

#[test]
fn rows_are_checked_before_columns_and_goals() {
    assert_eq!(rectangular(0, 0, &[9]).verify(), Err(BoardTypeVerifyError::InvalidRows(0)));
    assert_eq!(rectangular(3, 1, &[9]).verify(), Err(BoardTypeVerifyError::InvalidColumns(1)));
}

#[test]
fn goal_column_outside_the_board_is_rejected() {
    assert_eq!(
        rectangular(10, 10, &[4, 10]).verify(),
        Err(BoardTypeVerifyError::InvalidGoalLocation(10))
    );
    assert_eq!(rectangular(10, 10, &[4, 9]).verify(), Ok(()));
}

#[test]
fn smallest_offending_goal_column_is_reported() {
    assert_eq!(
        rectangular(10, 10, &[200, 12, 3, 255, 40]).verify(),
        Err(BoardTypeVerifyError::InvalidGoalLocation(12))
    );
}

#[test]
fn standard_sized_board_has_goals_in_the_border_rows() {
    let board = rectangular(10, 10, &[4, 5]);
    assert_eq!(board.get_space(Coordinate::new(0, 4)), Space::Goal(Color::Red));
    assert_eq!(board.get_space(Coordinate::new(0, 0)), Space::Invalid);
    assert_eq!(board.get_space(Coordinate::new(1, 0)), Space::Normal);
    assert_eq!(board.get_space(Coordinate::new(11, 5)), Space::Goal(Color::Blue));
    assert_eq!(board.rows(), 12);
    assert_eq!(board.columns(), 10);
    assert!(board.has_goal());
}

#[test]
fn positions_off_the_board_are_invalid_spaces() {
    let board = rectangular(10, 10, &[4, 5]);
    assert_eq!(board.get_space(Coordinate::new(-1, 4)), Space::Invalid);
    assert_eq!(board.get_space(Coordinate::new(4, -1)), Space::Invalid);
    assert_eq!(board.get_space(Coordinate::new(12, 4)), Space::Invalid);
    assert_eq!(board.get_space(Coordinate::new(4, 10)), Space::Invalid);
    assert_eq!(board.get_space(Coordinate::new(i16::MAX, i16::MIN)), Space::Invalid);
    assert_eq!(board.get_space(Coordinate::new(10, 9)), Space::Normal);
    assert_eq!(board.get_space(Coordinate::new(11, 9)), Space::Invalid);
}

#[test]
fn board_without_goal_columns_has_no_goal() {
    assert!(!rectangular(3, 3, &[]).has_goal());
    assert!(!rectangular(3, 3, &[7]).has_goal());
    assert!(rectangular(3, 3, &[2]).has_goal());
}

#[test]
fn flip_mirrors_the_row() {
    let board = rectangular(10, 10, &[4, 5]);
    assert_eq!(board.flip_coordinate(Coordinate::new(1, 3)), Coordinate::new(10, 3));
    assert_eq!(board.flip_coordinate(Coordinate::new(0, 0)), Coordinate::new(11, 0));
    assert_eq!(board.flip_coordinate(Coordinate::new(11, 9)), Coordinate::new(0, 9));
}

#[test]
fn rotate_mirrors_row_and_column() {
    let board = rectangular(10, 10, &[4, 5]);
    assert_eq!(board.rotate_coordinate(Coordinate::new(1, 3)), Coordinate::new(10, 6));
    assert_eq!(board.rotate_coordinate(Coordinate::new(0, 0)), Coordinate::new(11, 9));
    assert_eq!(
        board.rotate_coordinate(board.rotate_coordinate(Coordinate::new(7, 2))),
        Coordinate::new(7, 2)
    );
}

#[test]
fn into_matrix_lays_out_a_rectangular_board() {
    let grid = match rectangular(2, 3, &[1]).into_matrix() {
        Ok(grid) => grid,
        Err(_) => panic!("a valid board"),
    };
    assert_eq!(grid.rows(), 4);
    assert_eq!(grid.columns(), 3);
    let expected = [
        [Space::Invalid, Space::Goal(Color::Red), Space::Invalid],
        [Space::Normal, Space::Normal, Space::Normal],
        [Space::Normal, Space::Normal, Space::Normal],
        [Space::Invalid, Space::Goal(Color::Blue), Space::Invalid],
    ];
    for row in 0..4 {
        for column in 0..3 {
            assert_eq!(grid.get(row, column), Some(expected[row][column]));
        }
    }
    assert_eq!(grid.get(4, 0), None);
    assert_eq!(grid.get(0, 3), None);
}

#[test]
fn into_matrix_hands_an_invalid_board_back() {
    match rectangular(0, 3, &[1]).into_matrix() {
        Ok(_) => panic!("an invalid board"),
        Err((board, error)) => {
            assert_eq!(error, BoardTypeVerifyError::InvalidRows(0));
            match board {
                BoardType::Rectangular { rows, columns, goal_locations } => {
                    assert_eq!(rows, 0);
                    assert_eq!(columns, 3);
                    assert!(goal_locations.contains(&1));
                    assert_eq!(goal_locations.len(), 1);
                }
                BoardType::Custom(_) => panic!("a rectangular board"),
            }
        }
    }
}

#[test]
fn space_grid_starts_normal_and_keeps_what_is_set() {
    let mut grid = SpaceGrid::new(3, 2);
    assert_eq!(grid.rows(), 3);
    assert_eq!(grid.columns(), 2);
    for row in 0..3 {
        for column in 0..2 {
            assert_eq!(grid.get(row, column), Some(Space::Normal));
        }
    }
    assert!(grid.set(2, 1, Space::Goal(Color::Blue)));
    assert!(grid.set(0, 1, Space::Invalid));
    assert!(!grid.set(3, 0, Space::Invalid));
    assert!(!grid.set(0, 2, Space::Invalid));
    assert_eq!(grid.get(2, 1), Some(Space::Goal(Color::Blue)));
    assert_eq!(grid.get(0, 1), Some(Space::Invalid));
    assert_eq!(grid.get(1, 1), Some(Space::Normal));
    assert_eq!(grid.get(2, 0), Some(Space::Normal));
    assert_eq!(grid.get(1, 0), Some(Space::Normal));
    assert_eq!(grid.get(0, 0), Some(Space::Normal));
    assert_eq!(grid.get(3, 1), None);
}

#[test]
fn space_grid_clone_is_independent() {
    let mut grid = SpaceGrid::new(2, 2);
    grid.set(1, 0, Space::Invalid);
    let copy = grid.clone();
    grid.set(0, 1, Space::Goal(Color::Red));
    assert_eq!(copy.get(1, 0), Some(Space::Invalid));
    assert_eq!(copy.get(0, 1), Some(Space::Normal));
    assert_eq!(grid.get(0, 1), Some(Space::Goal(Color::Red)));
}

#[test]
fn custom_board_reads_its_grid() {
    let mut grid = SpaceGrid::new(3, 4);
    grid.set(0, 0, Space::Invalid);
    grid.set(2, 3, Space::Goal(Color::Red));
    let board = BoardType::Custom(grid);
    assert_eq!(board.verify(), Ok(()));
    assert_eq!(board.rows(), 3);
    assert_eq!(board.columns(), 4);
    assert_eq!(board.get_space(Coordinate::new(0, 0)), Space::Invalid);
    assert_eq!(board.get_space(Coordinate::new(2, 3)), Space::Goal(Color::Red));
    assert_eq!(board.get_space(Coordinate::new(1, 1)), Space::Normal);
    assert_eq!(board.get_space(Coordinate::new(3, 1)), Space::Invalid);
    assert!(board.has_goal());
    assert_eq!(board.flip_coordinate(Coordinate::new(0, 1)), Coordinate::new(2, 1));
    assert_eq!(board.rotate_coordinate(Coordinate::new(0, 1)), Coordinate::new(2, 2));
}

#[test]
fn custom_board_may_not_exceed_the_index_range() {
    assert_eq!(
        BoardType::Custom(SpaceGrid::new(256, 2)).verify(),
        Err(BoardTypeVerifyError::InvalidRows(256))
    );
    assert_eq!(
        BoardType::Custom(SpaceGrid::new(2, 300)).verify(),
        Err(BoardTypeVerifyError::InvalidColumns(300))
    );
    assert_eq!(
        BoardType::Custom(SpaceGrid::new(256, 256)).verify(),
        Err(BoardTypeVerifyError::InvalidRows(256))
    );
    assert_eq!(BoardType::Custom(SpaceGrid::new(255, 255)).verify(), Ok(()));
    assert_eq!(BoardType::Custom(SpaceGrid::new(0, 0)).verify(), Ok(()));
}

#[test]
fn custom_board_without_goal_cell_has_no_goal() {
    let mut grid = SpaceGrid::new(2, 2);
    grid.set(0, 0, Space::Invalid);
    assert!(!BoardType::Custom(grid).has_goal());
}

#[test]
fn board_type_clone_keeps_the_shape() {
    let board = rectangular(4, 6, &[0, 5]);
    let copy = board.clone();
    assert_eq!(copy.rows(), 6);
    assert_eq!(copy.columns(), 6);
    for row in 0..6 {
        for column in 0..6 {
            let position = Coordinate::new(row, column);
            assert_eq!(copy.get_space(position), board.get_space(position));
        }
    }
    match copy {
        BoardType::Rectangular { goal_locations, .. } => {
            assert_eq!(goal_locations.len(), 2);
        }
        BoardType::Custom(_) => panic!("a rectangular board"),
    }
}
