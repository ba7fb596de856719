//! How the sides take turns placing their pieces.
use vstd::prelude::*;

use crate::ruleset::starting_positions::piece_limit::{PieceLimit, PieceLimitKind, PieceLimits};

verus! {

/// How the sides take turns placing their pieces.
#[derive(Copy, Clone, Debug, PartialEq, Eq, Structural)]
pub enum AlternationType {
    /// The sides take turns placing `per_turn_count` pieces.
    TurnsCount {
        /// Above zero.
        per_turn_count: usize,
    },
    /// The sides take turns placing pieces worth `per_turn_points` points. The piece limits
    /// have to hold a point limit.
    TurnsPoints {
        /// Above zero.
        per_turn_points: usize,
        hard_limit: bool,
    },
    /// The side that has placed fewer points places next; the first side where both have
    /// placed the same.
    Points,
    /// Each side places all of its pieces in one turn.
    WholePlacement,
    /// The sides place their pieces hidden from each other.
    Hidden,
}

/// Why a way of taking turns was rejected.
#[derive(Copy, Clone, Debug, PartialEq, Eq, Structural)]
pub enum AlterationTypeError {
    /// The number of pieces per turn is zero.
    CountIs0,
    /// The number of points per turn is zero.
    PointsIs0,
    /// Turns are counted in points, but the piece limits hold no point limit.
    PointLimitMissing,
}

pub type AlterationTypeResult<T> = Result<T, AlterationTypeError>;

/// Whether `limits` holds a point limit.
pub open spec fn has_point_limit(limits: Seq<PieceLimit>) -> bool {
    exists|i: int| 0 <= i < limits.len() && #[trigger] limits[i].spec_kind() == PieceLimitKind::PointLimit
}

impl AlternationType {
    /// What `verify` returns with the piece limits `limits`.
    pub open spec fn check(self, limits: Seq<PieceLimit>) -> AlterationTypeResult<()> {
        match self {
            AlternationType::TurnsCount { per_turn_count } => if per_turn_count == 0 {
                Err(AlterationTypeError::CountIs0)
            } else {
                Ok(())
            },
            AlternationType::TurnsPoints { per_turn_points, .. } => if per_turn_points == 0 {
                Err(AlterationTypeError::PointsIs0)
            } else if !has_point_limit(limits) {
                Err(AlterationTypeError::PointLimitMissing)
            } else {
                Ok(())
            },
            AlternationType::Points => Ok(()),
            AlternationType::WholePlacement => Ok(()),
            AlternationType::Hidden => Ok(()),
        }
    }

    /// Checks the way of taking turns: a count or a number of points per turn has to be above
    /// zero, and turns counted in points need a point limit among `piece_limits`.
    pub fn verify(&self, piece_limits: &PieceLimits) -> (result: AlterationTypeResult<()>)
        ensures
            result == self.check(piece_limits@),
    {
        match self {
            AlternationType::TurnsCount { per_turn_count } => {
                if *per_turn_count == 0 {
                    return Err(AlterationTypeError::CountIs0);
                }
            },
            AlternationType::TurnsPoints { per_turn_points, hard_limit: _ } => {
                if *per_turn_points == 0 {
                    return Err(AlterationTypeError::PointsIs0);
                }
                if !piece_limits.contains_kind(PieceLimitKind::PointLimit) {
                    return Err(AlterationTypeError::PointLimitMissing);
                }
            },
            AlternationType::Points => {},
            AlternationType::WholePlacement => {},
            AlternationType::Hidden => {},
        }
        Ok(())
    }
}

} // verus!
