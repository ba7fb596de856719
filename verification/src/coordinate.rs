//! Board coordinates and their offset algebra.
use vstd::prelude::*;
use vstd::std_specs::ops::{AddSpecImpl, MulSpecImpl, SubSpecImpl};

verus! {

/// A position on, or an offset across, a board.
///
/// Whether a coordinate names a cell depends on the board it is used with; a coordinate
/// by itself is never invalid.
#[derive(Copy, Clone, Debug, PartialEq, Eq, Hash, Structural)]
pub struct Coordinate {
    pub row: i16,
    pub column: i16,
}

impl Coordinate {
    pub fn new(row: i16, column: i16) -> (coordinate: Self)
        ensures
            coordinate == (Coordinate { row, column }),
    {
        Self { row, column }
    }

    /// Whether both components of `self + rhs` are representable.
    pub open spec fn can_add(self, rhs: Self) -> bool {
        &&& i16::MIN <= self.row + rhs.row <= i16::MAX
        &&& i16::MIN <= self.column + rhs.column <= i16::MAX
    }

    /// Whether both components of `self - rhs` are representable.
    pub open spec fn can_sub(self, rhs: Self) -> bool {
        &&& i16::MIN <= self.row - rhs.row <= i16::MAX
        &&& i16::MIN <= self.column - rhs.column <= i16::MAX
    }

    /// Whether both components of `self * factor` are representable.
    pub open spec fn can_scale(self, factor: i16) -> bool {
        &&& i16::MIN <= self.row * factor <= i16::MAX
        &&& i16::MIN <= self.column * factor <= i16::MAX
    }

    /// Whether `self` is one of `others`.
    pub fn is_among(&self, others: &Vec<Coordinate>) -> (found: bool)
        ensures
            found == others@.contains(*self),
    {
        let mut index: usize = 0;
        while index < others.len()
            invariant
                index <= others.len(),
                forall|i: int| 0 <= i < index ==> others@[i] != *self,
            decreases others.len() - index,
        {
            if others[index] == *self {
                return true;
            }
            index = index + 1;
        }
        false
    }

    /// Component-wise sum.
    pub open spec fn plus(self, rhs: Self) -> Self {
        Coordinate { row: (self.row + rhs.row) as i16, column: (self.column + rhs.column) as i16 }
    }

    /// Component-wise difference.
    pub open spec fn minus(self, rhs: Self) -> Self {
        Coordinate { row: (self.row - rhs.row) as i16, column: (self.column - rhs.column) as i16 }
    }

    /// Both components multiplied by `factor`.
    pub open spec fn scaled(self, factor: i16) -> Self {
        Coordinate { row: (self.row * factor) as i16, column: (self.column * factor) as i16 }
    }
}

impl matrix::Position for Coordinate {
    /// The row as an index; a negative row gives an index beyond every matrix.
    fn row(&self) -> (row: usize)
        ensures
            self.row >= 0 ==> row == self.row,
            self.row < 0 ==> row > i16::MAX,
    {
        if self.row >= 0 {
            self.row as usize
        } else {
            usize::MAX
        }
    }

    /// The column as an index; a negative column gives an index beyond every matrix.
    fn column(&self) -> (column: usize)
        ensures
            self.column >= 0 ==> column == self.column,
            self.column < 0 ==> column > i16::MAX,
    {
        if self.column >= 0 {
            self.column as usize
        } else {
            usize::MAX
        }
    }
}

impl AddSpecImpl for Coordinate {
    open spec fn obeys_add_spec() -> bool {
        true
    }

    open spec fn add_req(self, rhs: Self) -> bool {
        self.can_add(rhs)
    }

    open spec fn add_spec(self, rhs: Self) -> Self {
        self.plus(rhs)
    }
}

impl core::ops::Add for Coordinate {
    type Output = Self;

    fn add(self, rhs: Self) -> Self {
        Self { row: self.row + rhs.row, column: self.column + rhs.column }
    }
}

impl SubSpecImpl for Coordinate {
    open spec fn obeys_sub_spec() -> bool {
        true
    }

    open spec fn sub_req(self, rhs: Self) -> bool {
        self.can_sub(rhs)
    }

    open spec fn sub_spec(self, rhs: Self) -> Self {
        self.minus(rhs)
    }
}

impl core::ops::Sub for Coordinate {
    type Output = Self;

    fn sub(self, rhs: Self) -> Self {
        Self { row: self.row - rhs.row, column: self.column - rhs.column }
    }
}

impl MulSpecImpl<i16> for Coordinate {
    open spec fn obeys_mul_spec() -> bool {
        true
    }

    open spec fn mul_req(self, rhs: i16) -> bool {
        self.can_scale(rhs)
    }

    open spec fn mul_spec(self, rhs: i16) -> Self {
        self.scaled(rhs)
    }
}

impl core::ops::Mul<i16> for Coordinate {
    type Output = Self;

    fn mul(self, rhs: i16) -> Self {
        Self { row: self.row * rhs, column: self.column * rhs }
    }
}

impl core::ops::AddAssign for Coordinate {
    fn add_assign(&mut self, rhs: Self)
        requires
            old(self).can_add(rhs),
        ensures
            *final(self) == old(self).plus(rhs),
    {
        self.row = self.row + rhs.row;
        self.column = self.column + rhs.column;
    }
}

impl core::ops::SubAssign for Coordinate {
    fn sub_assign(&mut self, rhs: Self)
        requires
            old(self).can_sub(rhs),
        ensures
            *final(self) == old(self).minus(rhs),
    {
        self.row = self.row - rhs.row;
        self.column = self.column - rhs.column;
    }
}

impl core::ops::MulAssign<i16> for Coordinate {
    fn mul_assign(&mut self, rhs: i16)
        requires
            old(self).can_scale(rhs),
        ensures
            *final(self) == old(self).scaled(rhs),
    {
        self.row = self.row * rhs;
        self.column = self.column * rhs;
    }
}

} // verus!
