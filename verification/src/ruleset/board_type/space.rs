use vstd::prelude::*;

use crate::game_board::Color;

verus! {

/// What a cell of a board shape is, before any piece stands on it.
#[derive(Copy, Clone, Debug, Hash, PartialEq, Eq, Structural)]
pub enum Space {
    /// Not part of the playing area.
    Invalid,
    /// An ordinary cell.
    Normal,
    /// A goal cell of the given side.
    Goal(Color),
}

impl matrix::Element for Space {
    fn zero() -> (space: Self)
        ensures
            space == Space::Normal,
    {
        Self::Normal
    }
}

} // verus!
