//! The eight compass directions and sets of them.
use vstd::prelude::*;
use vstd::std_specs::convert::FromSpecImpl;

use crate::coordinate::Coordinate;

verus! {

/// One of the eight compass directions a piece can travel in.
#[derive(Copy, Clone, Debug, PartialEq, Eq, Hash, Structural)]
pub enum Direction {
    North,
    South,
    East,
    West,
    NorthWest,
    NorthEast,
    SouthWest,
    SouthEast,
}

impl Direction {
    /// The change of row caused by one step in this direction.
    pub open spec fn row_step(self) -> int {
        match self {
            Direction::North | Direction::South => 0,
            Direction::East | Direction::NorthEast | Direction::SouthEast => 1,
            Direction::West | Direction::NorthWest | Direction::SouthWest => -1,
        }
    }

    /// The change of column caused by one step in this direction.
    pub open spec fn column_step(self) -> int {
        match self {
            Direction::East | Direction::West => 0,
            Direction::South | Direction::SouthWest | Direction::SouthEast => 1,
            Direction::North | Direction::NorthWest | Direction::NorthEast => -1,
        }
    }

    /// The single bit that stands for this direction inside a [`Directions`] set.
    pub open spec fn bit(self) -> u8 {
        match self {
            Direction::North => 0b0000_0001,
            Direction::South => 0b0000_0010,
            Direction::East => 0b0000_0100,
            Direction::West => 0b0000_1000,
            Direction::NorthWest => 0b0001_0000,
            Direction::NorthEast => 0b0010_0000,
            Direction::SouthWest => 0b0100_0000,
            Direction::SouthEast => 0b1000_0000,
        }
    }

    /// The unit offset of one step in this direction.
    pub fn offset(&self) -> (offset: Coordinate)
        ensures
            offset.row == self.row_step(),
            offset.column == self.column_step(),
    {
        match self {
            Direction::North => Coordinate::new(0, -1),
            Direction::South => Coordinate::new(0, 1),
            Direction::East => Coordinate::new(1, 0),
            Direction::West => Coordinate::new(-1, 0),
            Direction::NorthWest => Coordinate::new(-1, -1),
            Direction::NorthEast => Coordinate::new(1, -1),
            Direction::SouthWest => Coordinate::new(-1, 1),
            Direction::SouthEast => Coordinate::new(1, 1),
        }
    }
}

/// The order in which a set of directions is walked.
pub open spec fn walk_order() -> Seq<Direction> {
    seq![
        Direction::North,
        Direction::South,
        Direction::East,
        Direction::West,
        Direction::NorthWest,
        Direction::NorthEast,
        Direction::SouthWest,
        Direction::SouthEast,
    ]
}

/// A set of directions, kept as one bit per direction.
#[derive(Copy, Clone, Debug, PartialEq, Eq, Hash, Structural)]
pub struct Directions {
    bits: u8,
}

impl View for Directions {
    type V = Set<Direction>;

    closed spec fn view(&self) -> Set<Direction> {
        Set::new(|direction: Direction| self.bits & direction.bit() != 0)
    }
}

impl Directions {
    /// The bit pattern of the set; bit `d.bit()` is set exactly when `d` is a member.
    pub closed spec fn spec_bits(self) -> u8 {
        self.bits
    }

    /// Membership in the set is read off the bit pattern.
    pub broadcast proof fn lemma_view_is_bits(self, direction: Direction)
        ensures
            #[trigger] self@.contains(direction) <==> self.spec_bits() & direction.bit() != 0,
    {
    }

    pub fn bits(&self) -> (bits: u8)
        ensures
            bits == self.spec_bits(),
    {
        self.bits
    }

    pub fn from_bits(bits: u8) -> (set: Self)
        ensures
            set.spec_bits() == bits,
    {
        Directions { bits }
    }

    /// The empty set.
    pub fn none() -> (set: Self)
        ensures
            set@ == Set::<Direction>::empty(),
            set.spec_bits() == 0,
    {
        let set = Directions { bits: 0 };
        proof {
            assert forall|direction: Direction| !set@.contains(direction) by {
                let bit = direction.bit();
                assert(0u8 & bit == 0) by (bit_vector);
            }
            assert(set@ =~= Set::<Direction>::empty());
        }
        set
    }

    /// North, south, east and west.
    pub fn cardinal() -> (set: Self)
        ensures
            set@ == set![Direction::North, Direction::South, Direction::East, Direction::West],
            set.spec_bits() == 0b0000_1111,
    {
        let set = Directions { bits: 0b0000_1111 };
        proof {
            assert(0b0000_1111u8 & 0b0000_0001 != 0 && 0b0000_1111u8 & 0b0000_0010 != 0
                && 0b0000_1111u8 & 0b0000_0100 != 0 && 0b0000_1111u8 & 0b0000_1000 != 0
                && 0b0000_1111u8 & 0b0001_0000 == 0 && 0b0000_1111u8 & 0b0010_0000 == 0
                && 0b0000_1111u8 & 0b0100_0000 == 0 && 0b0000_1111u8 & 0b1000_0000 == 0)
                by (bit_vector);
            assert(set@ =~= set![
                Direction::North,
                Direction::South,
                Direction::East,
                Direction::West,
            ]);
        }
        set
    }

    /// The four diagonals.
    pub fn diagonal() -> (set: Self)
        ensures
            set@ == set![
                Direction::NorthWest,
                Direction::NorthEast,
                Direction::SouthWest,
                Direction::SouthEast,
            ],
            set.spec_bits() == 0b1111_0000,
    {
        let set = Directions { bits: 0b1111_0000 };
        proof {
            assert(0b1111_0000u8 & 0b0000_0001 == 0 && 0b1111_0000u8 & 0b0000_0010 == 0
                && 0b1111_0000u8 & 0b0000_0100 == 0 && 0b1111_0000u8 & 0b0000_1000 == 0
                && 0b1111_0000u8 & 0b0001_0000 != 0 && 0b1111_0000u8 & 0b0010_0000 != 0
                && 0b1111_0000u8 & 0b0100_0000 != 0 && 0b1111_0000u8 & 0b1000_0000 != 0)
                by (bit_vector);
            assert(set@ =~= set![
                Direction::NorthWest,
                Direction::NorthEast,
                Direction::SouthWest,
                Direction::SouthEast,
            ]);
        }
        set
    }

    /// All eight directions.
    pub fn all() -> (set: Self)
        ensures
            forall|direction: Direction| set@.contains(direction),
            set.spec_bits() == 0b1111_1111,
    {
        let set = Directions { bits: 0b1111_1111 };
        proof {
            assert forall|direction: Direction| set@.contains(direction) by {
                let bit = direction.bit();
                assert(bit != 0 ==> 0b1111_1111u8 & bit != 0) by (bit_vector);
            }
        }
        set
    }

    pub fn is_empty(&self) -> (empty: bool)
        ensures
            empty == (self@ == Set::<Direction>::empty()),
    {
        proof {
            let bits = self.bits;
            if bits == 0 {
                assert forall|direction: Direction| !self@.contains(direction) by {
                    let bit = direction.bit();
                    assert(0u8 & bit == 0) by (bit_vector);
                }
                assert(self@ =~= Set::<Direction>::empty());
            } else {
                assert(bits != 0 ==> (bits & 0b0000_0001 != 0 || bits & 0b0000_0010 != 0 || bits
                    & 0b0000_0100 != 0 || bits & 0b0000_1000 != 0 || bits & 0b0001_0000 != 0
                    || bits & 0b0010_0000 != 0 || bits & 0b0100_0000 != 0 || bits & 0b1000_0000
                    != 0)) by (bit_vector);
                assert(self@.contains(Direction::North) || self@.contains(Direction::South)
                    || self@.contains(Direction::East) || self@.contains(Direction::West)
                    || self@.contains(Direction::NorthWest) || self@.contains(
                    Direction::NorthEast,
                ) || self@.contains(Direction::SouthWest) || self@.contains(
                    Direction::SouthEast,
                ));
            }
        }
        self.bits == 0
    }

    /// Whether `direction` is a member.
    pub fn has(&self, direction: Direction) -> (member: bool)
        ensures
            member == self@.contains(direction),
    {
        let single = Directions::from(direction);
        self.bits & single.bits != 0
    }

    /// Whether every member of `other` is a member of `self`.
    pub fn contains(&self, other: Directions) -> (all_present: bool)
        ensures
            all_present == other@.subset_of(self@),
    {
        proof {
            let a = self.bits;
            let b = other.bits;
            assert((a & b == b) <==> ((b & 0b0000_0001 != 0 ==> a & 0b0000_0001 != 0) && (b
                & 0b0000_0010 != 0 ==> a & 0b0000_0010 != 0) && (b & 0b0000_0100 != 0 ==> a
                & 0b0000_0100 != 0) && (b & 0b0000_1000 != 0 ==> a & 0b0000_1000 != 0) && (b
                & 0b0001_0000 != 0 ==> a & 0b0001_0000 != 0) && (b & 0b0010_0000 != 0 ==> a
                & 0b0010_0000 != 0) && (b & 0b0100_0000 != 0 ==> a & 0b0100_0000 != 0) && (b
                & 0b1000_0000 != 0 ==> a & 0b1000_0000 != 0))) by (bit_vector);
            if a & b == b {
                assert forall|direction: Direction| other@.contains(direction) implies self@.contains(
                    direction,
                ) by {}
            } else {
                let missing = choose|direction: Direction|
                    b & direction.bit() != 0 && a & direction.bit() == 0;
                assert(b & Direction::North.bit() != 0 && a & Direction::North.bit() == 0 || b
                    & Direction::South.bit() != 0 && a & Direction::South.bit() == 0 || b
                    & Direction::East.bit() != 0 && a & Direction::East.bit() == 0 || b
                    & Direction::West.bit() != 0 && a & Direction::West.bit() == 0 || b
                    & Direction::NorthWest.bit() != 0 && a & Direction::NorthWest.bit() == 0 || b
                    & Direction::NorthEast.bit() != 0 && a & Direction::NorthEast.bit() == 0 || b
                    & Direction::SouthWest.bit() != 0 && a & Direction::SouthWest.bit() == 0 || b
                    & Direction::SouthEast.bit() != 0 && a & Direction::SouthEast.bit() == 0);
                assert(other@.contains(missing) && !self@.contains(missing));
            }
        }
        self.bits & other.bits == other.bits
    }

    /// The set holding the members of both sets.
    pub fn union(&self, other: Directions) -> (both: Self)
        ensures
            both@ == self@.union(other@),
            both.spec_bits() == self.spec_bits() | other.spec_bits(),
    {
        let both = Directions { bits: self.bits | other.bits };
        proof {
            let a = self.bits;
            let b = other.bits;
            assert forall|direction: Direction|
                both@.contains(direction) <==> (self@.contains(direction) || other@.contains(
                    direction,
                )) by {
                let bit = direction.bit();
                assert(((a | b) & bit != 0) <==> (a & bit != 0 || b & bit != 0)) by (bit_vector);
            }
            assert(both@ =~= self@.union(other@));
        }
        both
    }

    /// The members in walking order: north, south, east, west, then the diagonals
    /// north-west, north-east, south-west, south-east.
    pub fn to_vec(&self) -> (members: Vec<Direction>)
        ensures
            members@ == walk_order().filter(|direction: Direction| self@.contains(direction)),
    {
        let order = [
            Direction::North,
            Direction::South,
            Direction::East,
            Direction::West,
            Direction::NorthWest,
            Direction::NorthEast,
            Direction::SouthWest,
            Direction::SouthEast,
        ];
        let ghost keep = |direction: Direction| self@.contains(direction);
        let mut members: Vec<Direction> = Vec::new();
        let mut index: usize = 0;
        assert(order@ =~= walk_order());
        assert(order@.subrange(0, 0) =~= Seq::<Direction>::empty());
        while index < 8
            invariant
                index <= 8,
                order@ == walk_order(),
                keep == |direction: Direction| self@.contains(direction),
                members@ == order@.subrange(0, index as int).filter(keep),
            decreases 8 - index,
        {
            let direction = order[index];
            proof {
                let before = order@.subrange(0, index as int);
                let after = order@.subrange(0, index as int + 1);
                assert(after =~= before.push(direction));
                assert(after.drop_last() =~= before);
                reveal(Seq::filter);
            }
            if self.has(direction) {
                members.push(direction);
            }
            index = index + 1;
        }
        assert(order@.subrange(0, 8) =~= order@);
        members
    }
}

impl FromSpecImpl<Direction> for Directions {
    open spec fn obeys_from_spec() -> bool {
        true
    }

    open spec fn from_spec(direction: Direction) -> Self {
        Directions::single(direction)
    }
}

impl Directions {
    /// The set whose only member is `direction`.
    pub closed spec fn single(direction: Direction) -> Self {
        Directions { bits: direction.bit() }
    }

    /// `single(direction)` holds `direction` and nothing else.
    pub broadcast proof fn lemma_single(direction: Direction)
        ensures
            #[trigger] Directions::single(direction)@ == set![direction],
            Directions::single(direction).spec_bits() == direction.bit(),
    {
        let set = Directions::single(direction);
        assert forall|other: Direction| set@.contains(other) <==> other == direction by {
            let a = direction.bit();
            let b = other.bit();
            assert(0b0000_0001u8 & 0b0000_0001 != 0 && 0b0000_0001u8 & 0b0000_0010 == 0
                && 0b0000_0001u8 & 0b0000_0100 == 0 && 0b0000_0001u8 & 0b0000_1000 == 0
                && 0b0000_0001u8 & 0b0001_0000 == 0 && 0b0000_0001u8 & 0b0010_0000 == 0
                && 0b0000_0001u8 & 0b0100_0000 == 0 && 0b0000_0001u8 & 0b1000_0000 == 0)
                by (bit_vector);
            assert(0b0000_0010u8 & 0b0000_0010 != 0 && 0b0000_0010u8 & 0b0000_0100 == 0
                && 0b0000_0010u8 & 0b0000_1000 == 0 && 0b0000_0010u8 & 0b0001_0000 == 0
                && 0b0000_0010u8 & 0b0010_0000 == 0 && 0b0000_0010u8 & 0b0100_0000 == 0
                && 0b0000_0010u8 & 0b1000_0000 == 0) by (bit_vector);
            assert(0b0000_0100u8 & 0b0000_0100 != 0 && 0b0000_0100u8 & 0b0000_1000 == 0
                && 0b0000_0100u8 & 0b0001_0000 == 0 && 0b0000_0100u8 & 0b0010_0000 == 0
                && 0b0000_0100u8 & 0b0100_0000 == 0 && 0b0000_0100u8 & 0b1000_0000 == 0)
                by (bit_vector);
            assert(0b0000_1000u8 & 0b0000_1000 != 0 && 0b0000_1000u8 & 0b0001_0000 == 0
                && 0b0000_1000u8 & 0b0010_0000 == 0 && 0b0000_1000u8 & 0b0100_0000 == 0
                && 0b0000_1000u8 & 0b1000_0000 == 0) by (bit_vector);
            assert(0b0001_0000u8 & 0b0001_0000 != 0 && 0b0001_0000u8 & 0b0010_0000 == 0
                && 0b0001_0000u8 & 0b0100_0000 == 0 && 0b0001_0000u8 & 0b1000_0000 == 0)
                by (bit_vector);
            assert(0b0010_0000u8 & 0b0010_0000 != 0 && 0b0010_0000u8 & 0b0100_0000 == 0
                && 0b0010_0000u8 & 0b1000_0000 == 0) by (bit_vector);
            assert(0b0100_0000u8 & 0b0100_0000 != 0 && 0b0100_0000u8 & 0b1000_0000 == 0
                && 0b1000_0000u8 & 0b1000_0000 != 0) by (bit_vector);
            assert(forall|x: u8, y: u8| x & y == y & x) by (bit_vector);
        }
        assert(set@ =~= set![direction]);
    }
}

impl From<Direction> for Directions {
    fn from(direction: Direction) -> (set: Self) {
        let bits: u8 = match direction {
            Direction::North => 0b0000_0001,
            Direction::South => 0b0000_0010,
            Direction::East => 0b0000_0100,
            Direction::West => 0b0000_1000,
            Direction::NorthWest => 0b0001_0000,
            Direction::NorthEast => 0b0010_0000,
            Direction::SouthWest => 0b0100_0000,
            Direction::SouthEast => 0b1000_0000,
        };
        Directions { bits }
    }
}

impl FromSpecImpl<Directions> for Vec<Direction> {
    open spec fn obeys_from_spec() -> bool {
        false
    }

    open spec fn from_spec(from: Directions) -> Self {
        arbitrary()
    }
}

impl From<Directions> for Vec<Direction> {
    /// The members in walking order, as [`Directions::to_vec`] gives them.
    fn from(from: Directions) -> (members: Self)
        ensures
            members@ == walk_order().filter(|direction: Direction| from@.contains(direction)),
    {
        from.to_vec()
    }
}

} // verus!
