use kapto::coordinate::Coordinate;
use kapto::direction::{Direction, Directions};

#[test]
fn coordinate_new_sets_row_and_column() {
    let coordinate = Coordinate::new(3, -7);
    assert_eq!(coordinate.row, 3);
    assert_eq!(coordinate.column, -7);
}

#[test]
fn coordinates_add_by_component() {
    assert_eq!(Coordinate::new(3, -7) + Coordinate::new(10, 20), Coordinate::new(13, 13));
    let mut sum = Coordinate::new(1, 2);
    sum += Coordinate::new(-5, 5);
    assert_eq!(sum, Coordinate::new(-4, 7));
}

#[test]
fn coordinates_subtract_by_component() {
    assert_eq!(Coordinate::new(3, -7) - Coordinate::new(10, 20), Coordinate::new(-7, -27));
    let mut difference = Coordinate::new(1, 2);
    difference -= Coordinate::new(-5, 5);
    assert_eq!(difference, Coordinate::new(6, -3));
}

#[test]
fn coordinates_scale_by_component() {
    assert_eq!(Coordinate::new(3, -7) * 2, Coordinate::new(6, -14));
    assert_eq!(Coordinate::new(3, -7) * -1, Coordinate::new(-3, 7));
    let mut scaled = Coordinate::new(1, 2);
    scaled *= 100;
    assert_eq!(scaled, Coordinate::new(100, 200));
}

#[test]
fn coordinate_is_found_among_others() {
    let others = vec![Coordinate::new(1, 2), Coordinate::new(3, 4)];
    assert!(Coordinate::new(3, 4).is_among(&others));
    assert!(!Coordinate::new(4, 3).is_among(&others));
    assert!(!Coordinate::new(1, 2).is_among(&Vec::new()));
}

#[test]
fn direction_offsets() {
    assert_eq!(Direction::North.offset(), Coordinate::new(0, -1));
    assert_eq!(Direction::South.offset(), Coordinate::new(0, 1));
    assert_eq!(Direction::East.offset(), Coordinate::new(1, 0));
    assert_eq!(Direction::West.offset(), Coordinate::new(-1, 0));
    assert_eq!(Direction::NorthWest.offset(), Coordinate::new(-1, -1));
    assert_eq!(Direction::NorthEast.offset(), Coordinate::new(1, -1));
    assert_eq!(Direction::SouthWest.offset(), Coordinate::new(-1, 1));
    assert_eq!(Direction::SouthEast.offset(), Coordinate::new(1, 1));
}

#[test]
fn direction_sets_have_their_bits() {
    assert_eq!(Directions::none().bits(), 0b0000_0000);
    assert_eq!(Directions::cardinal().bits(), 0b0000_1111);
    assert_eq!(Directions::diagonal().bits(), 0b1111_0000);
    assert_eq!(Directions::all().bits(), 0b1111_1111);
    assert_eq!(Directions::from(Direction::North).bits(), 0b0000_0001);
    assert_eq!(Directions::from(Direction::South).bits(), 0b0000_0010);
    assert_eq!(Directions::from(Direction::East).bits(), 0b0000_0100);
    assert_eq!(Directions::from(Direction::West).bits(), 0b0000_1000);
    assert_eq!(Directions::from(Direction::NorthWest).bits(), 0b0001_0000);
    assert_eq!(Directions::from(Direction::NorthEast).bits(), 0b0010_0000);
    assert_eq!(Directions::from(Direction::SouthWest).bits(), 0b0100_0000);
    assert_eq!(Directions::from(Direction::SouthEast).bits(), 0b1000_0000);
    assert_eq!(Directions::from_bits(0b0101_0101).bits(), 0b0101_0101);
}

#[test]
fn direction_sets_contain_their_members() {
    let cardinal = Directions::cardinal();
    assert!(cardinal.has(Direction::North));
    assert!(cardinal.has(Direction::West));
    assert!(!cardinal.has(Direction::NorthWest));
    assert!(cardinal.contains(Directions::from(Direction::East)));
    assert!(cardinal.contains(Directions::none()));
    assert!(!cardinal.contains(Directions::all()));
    assert!(!cardinal.contains(Directions::from(Direction::SouthEast)));
    assert!(Directions::all().contains(cardinal));
    assert!(Directions::all().contains(Directions::diagonal()));
    assert!(!Directions::none().contains(cardinal));
    assert!(Directions::none().contains(Directions::none()));
}

#[test]
fn direction_sets_unite() {
    assert_eq!(Directions::cardinal().union(Directions::diagonal()), Directions::all());
    assert_eq!(Directions::cardinal().union(Directions::none()), Directions::cardinal());
    let pair = Directions::from(Direction::North).union(Directions::from(Direction::SouthEast));
    assert_eq!(pair.bits(), 0b1000_0001);
    assert!(pair.has(Direction::North));
    assert!(pair.has(Direction::SouthEast));
    assert!(!pair.has(Direction::South));
}

#[test]
fn direction_sets_know_when_they_are_empty() {
    assert!(Directions::none().is_empty());
    assert!(!Directions::cardinal().is_empty());
    assert!(!Directions::from(Direction::SouthEast).is_empty());
}

#[test]
fn direction_sets_are_walked_in_a_fixed_order() {
    assert_eq!(
        Directions::all().to_vec(),
        vec![
            Direction::North,
            Direction::South,
            Direction::East,
            Direction::West,
            Direction::NorthWest,
            Direction::NorthEast,
            Direction::SouthWest,
            Direction::SouthEast,
        ]
    );
    assert_eq!(
        Directions::diagonal().to_vec(),
        vec![
            Direction::NorthWest,
            Direction::NorthEast,
            Direction::SouthWest,
            Direction::SouthEast,
        ]
    );
    assert_eq!(
        Directions::from(Direction::SouthWest).union(Directions::from(Direction::South)).to_vec(),
        vec![Direction::South, Direction::SouthWest]
    );
    assert_eq!(Directions::none().to_vec(), vec![]);
}

#[test]
fn direction_sets_convert_to_vectors() {
    let members: Vec<Direction> = Vec::from(Directions::cardinal());
    assert_eq!(
        members,
        vec![Direction::North, Direction::South, Direction::East, Direction::West]
    );
    let none: Vec<Direction> = Directions::none().into();
    assert_eq!(none, vec![]);
}
