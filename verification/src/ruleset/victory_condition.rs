//! How the game is won.
use std::collections::HashSet;
use vstd::prelude::*;
use vstd::std_specs::cmp::PartialEqSpecImpl;

use crate::ruleset::board_type::BoardType;
use crate::ruleset::catalog_index::{copy_indices, first_index_from, first_member_from};
use crate::ruleset::piece_definition::PieceDefinition;
use crate::ruleset::Ruleset;

verus! {

broadcast use vstd::std_specs::hash::group_hash_axioms;

/// The kinds of victory condition. A set of conditions holds at most one condition of each
/// kind.
#[derive(Copy, Clone, Debug, PartialEq, Eq, Hash, Structural)]
pub enum VictoryConditionKind {
    GoalCount,
    AllCaptured,
    PointDifference,
}

/// A way of winning.
///
/// Two conditions are equal when they are of the same kind, whatever they hold.
#[derive(Debug)]
pub enum VictoryCondition {
    /// A side wins with `amount` of its pieces on goal cells. Only pieces of the catalog
    /// entries in `eligible_definitions` count.
    GoalCount { amount: usize, eligible_definitions: HashSet<usize> },
    /// A side wins when every piece of the other side is captured.
    AllCaptured,
    /// A side wins when it is ahead by `threshold` points.
    PointDifference { threshold: usize },
}

/// Why a victory condition was rejected.
#[derive(Copy, Clone, Debug, PartialEq, Eq, Hash, Structural)]
pub enum VictoryConditionError {
    /// Pieces on goal cells are to be counted, but the board has no goal cell.
    NoGoalOnBoard,
    /// A catalog index is named that no entry has.
    PieceIndexNotFound(usize),
}

pub type VictoryConditionResult<T> = Result<T, VictoryConditionError>;

impl VictoryCondition {
    pub open spec fn spec_kind(self) -> VictoryConditionKind {
        match self {
            VictoryCondition::GoalCount { .. } => VictoryConditionKind::GoalCount,
            VictoryCondition::AllCaptured => VictoryConditionKind::AllCaptured,
            VictoryCondition::PointDifference { .. } => VictoryConditionKind::PointDifference,
        }
    }

    /// Whether two conditions are of the same kind and hold the same.
    pub open spec fn same_condition(self, other: VictoryCondition) -> bool {
        match (self, other) {
            (
                VictoryCondition::GoalCount { amount, eligible_definitions },
                VictoryCondition::GoalCount {
                    amount: other_amount,
                    eligible_definitions: other_definitions,
                },
            ) => amount == other_amount && eligible_definitions@ == other_definitions@,
            (VictoryCondition::AllCaptured, VictoryCondition::AllCaptured) => true,
            (
                VictoryCondition::PointDifference { threshold },
                VictoryCondition::PointDifference { threshold: other_threshold },
            ) => threshold == other_threshold,
            _ => false,
        }
    }

    /// What `verify` returns for the board `board` and the catalog `pieces`.
    ///
    /// Counting pieces on goal cells needs a board with a goal cell, and every index named
    /// has to be one that a catalog entry has; of those that are not, the smallest is
    /// reported. The other conditions always pass.
    pub open spec fn check(self, board: BoardType, pieces: Seq<PieceDefinition>) -> VictoryConditionResult<
        (),
    > {
        match self {
            VictoryCondition::GoalCount { eligible_definitions, .. } => if !board.spec_has_goal() {
                Err(VictoryConditionError::NoGoalOnBoard)
            } else {
                match first_index_from(eligible_definitions@, pieces.len()) {
                    Some(index) => Err(VictoryConditionError::PieceIndexNotFound(index)),
                    None => Ok(()),
                }
            },
            VictoryCondition::AllCaptured => Ok(()),
            VictoryCondition::PointDifference { .. } => Ok(()),
        }
    }

    /// The verdict on conditions: that of the first condition, in order, that does not
    /// pass.
    pub open spec fn check_all(
        conditions: Seq<VictoryCondition>,
        board: BoardType,
        pieces: Seq<PieceDefinition>,
    ) -> VictoryConditionResult<()>
        decreases conditions.len(),
    {
        if conditions.len() == 0 {
            Ok(())
        } else {
            match conditions[0].check(board, pieces) {
                Err(error) => Err(error),
                Ok(_) => VictoryCondition::check_all(conditions.drop_first(), board, pieces),
            }
        }
    }

    pub fn kind(&self) -> (kind: VictoryConditionKind)
        ensures
            kind == self.spec_kind(),
    {
        match self {
            VictoryCondition::GoalCount { .. } => VictoryConditionKind::GoalCount,
            VictoryCondition::AllCaptured => VictoryConditionKind::AllCaptured,
            VictoryCondition::PointDifference { .. } => VictoryConditionKind::PointDifference,
        }
    }

    /// Checks the condition against the board and the catalog of `ruleset`.
    pub fn verify(&self, ruleset: &Ruleset) -> (result: VictoryConditionResult<()>)
        ensures
            result == self.check(ruleset.board_type, ruleset.pieces@),
    {
        match self {
            VictoryCondition::GoalCount { amount: _, eligible_definitions } => {
                if !ruleset.board_type.has_goal() {
                    return Err(VictoryConditionError::NoGoalOnBoard);
                }
                match first_member_from(eligible_definitions, ruleset.pieces.len()) {
                    Some(index) => Err(VictoryConditionError::PieceIndexNotFound(index)),
                    None => Ok(()),
                }
            },
            VictoryCondition::AllCaptured => Ok(()),
            VictoryCondition::PointDifference { .. } => Ok(()),
        }
    }
}

impl Clone for VictoryCondition {
    fn clone(&self) -> (copy: Self)
        ensures
            copy.same_condition(*self),
    {
        match self {
            VictoryCondition::GoalCount { amount, eligible_definitions } => VictoryCondition::GoalCount {
                amount: *amount,
                eligible_definitions: copy_indices(eligible_definitions),
            },
            VictoryCondition::AllCaptured => VictoryCondition::AllCaptured,
            VictoryCondition::PointDifference { threshold } => VictoryCondition::PointDifference {
                threshold: *threshold,
            },
        }
    }
}

impl PartialEqSpecImpl for VictoryCondition {
    open spec fn obeys_eq_spec() -> bool {
        true
    }

    open spec fn eq_spec(&self, other: &VictoryCondition) -> bool {
        self.spec_kind() == other.spec_kind()
    }
}

impl PartialEq for VictoryCondition {
    fn eq(&self, other: &VictoryCondition) -> (same: bool) {
        self.kind() == other.kind()
    }
}

impl Eq for VictoryCondition {

}

/// Whether no two of `conditions` are of the same kind.
pub open spec fn distinct_condition_kinds(conditions: Seq<VictoryCondition>) -> bool {
    forall|i: int, j: int|
        0 <= i < j < conditions.len() ==> #[trigger] conditions[i].spec_kind()
            != #[trigger] conditions[j].spec_kind()
}

/// A set of victory conditions with at most one condition of each kind, in the order in
/// which the conditions were put in.
#[derive(Debug)]
pub struct VictoryConditions {
    conditions: Vec<VictoryCondition>,
}

impl View for VictoryConditions {
    type V = Seq<VictoryCondition>;

    closed spec fn view(&self) -> Seq<VictoryCondition> {
        self.conditions@
    }
}

impl VictoryConditions {
    #[verifier::type_invariant]
    spec fn kinds_differ(self) -> bool {
        distinct_condition_kinds(self.conditions@)
    }

    /// The empty set.
    pub fn new() -> (set: Self)
        ensures
            set@ == Seq::<VictoryCondition>::empty(),
    {
        VictoryConditions { conditions: Vec::new() }
    }

    /// The number of conditions in the set.
    pub fn len(&self) -> (len: usize)
        ensures
            len == self@.len(),
            distinct_condition_kinds(self@),
    {
        proof {
            use_type_invariant(self);
        }
        self.conditions.len()
    }

    /// The condition that was put in as number `index`, counting from zero.
    pub fn get(&self, index: usize) -> (condition: Option<&VictoryCondition>)
        ensures
            match condition {
                Some(condition) => index < self@.len() && *condition == self@[index as int],
                None => index >= self@.len(),
            },
    {
        if index < self.conditions.len() {
            Some(&self.conditions[index])
        } else {
            None
        }
    }

    /// Whether the set holds a condition of the given kind.
    pub fn contains_kind(&self, kind: VictoryConditionKind) -> (found: bool)
        ensures
            found == exists|i: int| 0 <= i < self@.len() && #[trigger] self@[i].spec_kind() == kind,
    {
        let mut index: usize = 0;
        while index < self.conditions.len()
            invariant
                index <= self.conditions.len(),
                forall|i: int| 0 <= i < index ==> #[trigger] self.conditions@[i].spec_kind() != kind,
            decreases self.conditions.len() - index,
        {
            if self.conditions[index].kind() == kind {
                return true;
            }
            index = index + 1;
        }
        false
    }

    /// Puts `condition` into the set unless the set holds a condition of its kind already.
    /// Returns whether the condition was put in.
    pub fn insert(&mut self, condition: VictoryCondition) -> (added: bool)
        ensures
            added == !exists|i: int|
                0 <= i < old(self)@.len() && #[trigger] old(self)@[i].spec_kind()
                    == condition.spec_kind(),
            final(self)@ == if added {
                old(self)@.push(condition)
            } else {
                old(self)@
            },
    {
        proof {
            use_type_invariant(&*self);
        }
        if self.contains_kind(condition.kind()) {
            false
        } else {
            let mut conditions: Vec<VictoryCondition> = Vec::new();
            core::mem::swap(&mut self.conditions, &mut conditions);
            conditions.push(condition);
            self.conditions = conditions;
            true
        }
    }
}

impl Clone for VictoryConditions {
    fn clone(&self) -> (copy: Self)
        ensures
            copy@.len() == self@.len(),
            forall|i: int| 0 <= i < self@.len() ==> #[trigger] copy@[i].same_condition(self@[i]),
    {
        proof {
            use_type_invariant(self);
        }
        let mut conditions: Vec<VictoryCondition> = Vec::new();
        let mut index: usize = 0;
        while index < self.conditions.len()
            invariant
                index <= self.conditions.len(),
                conditions@.len() == index,
                forall|i: int|
                    0 <= i < index ==> #[trigger] conditions@[i].same_condition(self.conditions@[i]),
            decreases self.conditions.len() - index,
        {
            conditions.push(self.conditions[index].clone());
            index = index + 1;
        }
        proof {
            assert forall|i: int, j: int| 0 <= i < j < conditions@.len() implies #[trigger] conditions@[i].spec_kind()
                != #[trigger] conditions@[j].spec_kind() by {
                assert(conditions@[i].same_condition(self.conditions@[i]));
                assert(conditions@[j].same_condition(self.conditions@[j]));
                assert(conditions@[i].spec_kind() == self.conditions@[i].spec_kind());
                assert(conditions@[j].spec_kind() == self.conditions@[j].spec_kind());
            }
        }
        VictoryConditions { conditions }
    }
}

} // verus!
