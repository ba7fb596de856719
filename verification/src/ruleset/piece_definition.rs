//! The piece catalog: what each kind of piece may do.
use vstd::prelude::*;

use crate::direction::{Direction, Directions};

verus! {

/// How a piece makes a simple move.
#[derive(Copy, Clone, Debug, PartialEq, Eq, Hash, Structural)]
pub enum MoveRule {
    /// Up to `limit` cells in any of `directions`.
    AnyDirection { limit: usize, directions: Directions },
}

impl MoveRule {
    /// The greatest distance of a move.
    pub open spec fn spec_limit(self) -> usize {
        match self {
            MoveRule::AnyDirection { limit, .. } => limit,
        }
    }

    /// The directions a move may take.
    pub open spec fn spec_directions(self) -> Directions {
        match self {
            MoveRule::AnyDirection { directions, .. } => directions,
        }
    }

    /// Whether the rule allows a move of one cell in `direction`.
    pub open spec fn allows_step(self, direction: Direction) -> bool {
        self.spec_limit() >= 1 && self.spec_directions()@.contains(direction)
    }

    pub fn limit(&self) -> (limit: usize)
        ensures
            limit == self.spec_limit(),
    {
        match self {
            MoveRule::AnyDirection { limit, .. } => *limit,
        }
    }

    pub fn directions(&self) -> (directions: Directions)
        ensures
            directions == self.spec_directions(),
    {
        match self {
            MoveRule::AnyDirection { directions, .. } => *directions,
        }
    }

    /// Whether the rule allows a move of one cell in `direction`.
    pub fn allows(&self, direction: Direction) -> (allowed: bool)
        ensures
            allowed == self.allows_step(direction),
    {
        self.limit() >= 1 && self.directions().has(direction)
    }
}

/// Where a chain of jumps may lead.
#[derive(Copy, Clone, Debug, PartialEq, Eq, Hash, Structural)]
pub enum JumpRule {
    /// The chain may not come back to the cell it started from.
    NoSameStart,
}

/// How many jumps one chain may have, and in which directions.
#[derive(Copy, Clone, Debug, PartialEq, Eq, Hash, Structural)]
pub enum JumpLimit {
    /// Any number of jumps.
    Unlimited { directions: Directions },
    /// At most `limit` jumps.
    Limited { limit: usize, directions: Directions },
}

impl JumpLimit {
    /// The greatest length of a chain; `None` where chains are not capped.
    pub open spec fn spec_cap(self) -> Option<usize> {
        match self {
            JumpLimit::Unlimited { .. } => None,
            JumpLimit::Limited { limit, .. } => Some(limit),
        }
    }

    /// The directions a jump may take.
    pub open spec fn spec_directions(self) -> Directions {
        match self {
            JumpLimit::Unlimited { directions } => directions,
            JumpLimit::Limited { directions, .. } => directions,
        }
    }

    /// The greatest length of a chain; `None` where chains are not capped.
    pub fn cap(&self) -> (cap: Option<usize>)
        ensures
            cap == self.spec_cap(),
    {
        match self {
            JumpLimit::Unlimited { .. } => None,
            JumpLimit::Limited { limit, .. } => Some(*limit),
        }
    }

    pub fn directions(&self) -> (directions: Directions)
        ensures
            directions == self.spec_directions(),
    {
        match self {
            JumpLimit::Unlimited { directions } => *directions,
            JumpLimit::Limited { directions, .. } => *directions,
        }
    }
}

/// A way of capturing.
#[derive(Copy, Clone, Debug, PartialEq, Eq, Hash, Structural)]
pub enum CaptureRule {
    /// By jumping over the captured piece.
    JumpOver,
}

/// Which pieces a way of capturing takes.
#[derive(Copy, Clone, Debug, PartialEq, Eq, Hash, Structural)]
pub enum CaptureTarget {
    /// Pieces of the other side only.
    EnemyOnly,
}

/// When a captured piece leaves the board.
#[derive(Copy, Clone, Debug, PartialEq, Eq, Hash, Structural)]
pub enum CaptureTimingRule {
    /// As soon as it is captured.
    Immediate,
    /// When the capturing side's turn ends.
    AfterTurn,
}

/// Whether a piece that can capture has to.
#[derive(Copy, Clone, Debug, PartialEq, Eq, Hash, Structural)]
pub enum CaptureRequirement {
    Optional,
    /// It has to; among several forced captures the higher priority goes first.
    Forced(usize),
}

/// How a piece may move on goal cells.
#[derive(Copy, Clone, Debug, PartialEq, Eq, Hash, Structural)]
pub enum GoalMovementRule {
    /// As anywhere else.
    Free,
}

/// The capture rules of a piece: for each way of capturing that the piece has, the pieces
/// it takes that way.
#[derive(Copy, Clone, Debug, PartialEq, Eq, Hash, Structural)]
pub struct CaptureRules {
    jump_over: Option<CaptureTarget>,
}

impl View for CaptureRules {
    type V = Map<CaptureRule, CaptureTarget>;

    closed spec fn view(&self) -> Map<CaptureRule, CaptureTarget> {
        match self.jump_over {
            Some(target) => map![CaptureRule::JumpOver => target],
            None => Map::empty(),
        }
    }
}

impl CaptureRules {
    /// No rule at all.
    pub fn new() -> (rules: Self)
        ensures
            rules@ == Map::<CaptureRule, CaptureTarget>::empty(),
    {
        CaptureRules { jump_over: None }
    }

    /// Sets the target of `rule` and returns the target it had before.
    pub fn insert(&mut self, rule: CaptureRule, target: CaptureTarget) -> (previous: Option<
        CaptureTarget,
    >)
        ensures
            final(self)@ == old(self)@.insert(rule, target),
            previous == if old(self)@.contains_key(rule) {
                Some(old(self)@[rule])
            } else {
                None
            },
    {
        match rule {
            CaptureRule::JumpOver => {
                let previous = self.jump_over;
                self.jump_over = Some(target);
                assert(self@ =~= old(self)@.insert(rule, target));
                previous
            },
        }
    }

    /// The target of `rule`, if the piece has that rule.
    pub fn get(&self, rule: CaptureRule) -> (target: Option<CaptureTarget>)
        ensures
            target == if self@.contains_key(rule) {
                Some(self@[rule])
            } else {
                None
            },
    {
        match rule {
            CaptureRule::JumpOver => self.jump_over,
        }
    }

    pub fn is_empty(&self) -> (empty: bool)
        ensures
            empty == (self@ == Map::<CaptureRule, CaptureTarget>::empty()),
    {
        proof {
            if self.jump_over is Some {
                assert(self@.contains_key(CaptureRule::JumpOver));
            }
        }
        self.jump_over.is_none()
    }
}

/// One entry of the piece catalog.
#[derive(Debug, PartialEq, Eq)]
pub struct PieceDefinition {
    pub id: usize,
    pub name: String,
    pub move_rule: MoveRule,
    pub jump_rule: JumpRule,
    pub jump_limit: JumpLimit,
    pub capture_rules: CaptureRules,
    pub capture_timing_rule: CaptureTimingRule,
    pub capture_requirement: CaptureRequirement,
    pub goal_move_rule: GoalMovementRule,
}

/// Why a piece definition was rejected.
#[derive(Copy, Clone, Debug, PartialEq, Eq, Hash, Structural)]
pub enum PieceDefinitionError {
    /// The move rule allows moves of zero cells only.
    MoveLimitIs0,
    /// The move rule names no direction.
    NoMoveDirections,
    /// The jump limit allows chains of zero jumps only.
    JumpLimitIs0,
    /// The jump limit names no direction.
    NoJumpDirections,
    /// The piece has no capture rule.
    NoCaptureRules,
}

pub type PieceDefinitionResult<T> = Result<T, PieceDefinitionError>;

impl PieceDefinition {
    /// What `verify` returns: the first in this order of the move rule's limit, the move
    /// rule's directions, the jump limit's cap, the jump limit's directions and the capture
    /// rules that is found wanting.
    pub open spec fn check(self) -> PieceDefinitionResult<()> {
        if self.move_rule.spec_limit() == 0 {
            Err(PieceDefinitionError::MoveLimitIs0)
        } else if self.move_rule.spec_directions()@ == Set::<Direction>::empty() {
            Err(PieceDefinitionError::NoMoveDirections)
        } else if self.jump_limit.spec_cap() == Some(0usize) {
            Err(PieceDefinitionError::JumpLimitIs0)
        } else if self.jump_limit.spec_directions()@ == Set::<Direction>::empty() {
            Err(PieceDefinitionError::NoJumpDirections)
        } else if self.capture_rules@ == Map::<CaptureRule, CaptureTarget>::empty() {
            Err(PieceDefinitionError::NoCaptureRules)
        } else {
            Ok(())
        }
    }

    /// Whether two definitions say the same in every field; names are compared by their
    /// text.
    pub open spec fn is_duplicate_of(self, other: PieceDefinition) -> bool {
        &&& self.id == other.id
        &&& self.name@ == other.name@
        &&& self.move_rule == other.move_rule
        &&& self.jump_rule == other.jump_rule
        &&& self.jump_limit == other.jump_limit
        &&& self.capture_rules == other.capture_rules
        &&& self.capture_timing_rule == other.capture_timing_rule
        &&& self.capture_requirement == other.capture_requirement
        &&& self.goal_move_rule == other.goal_move_rule
    }

    /// Checks the definition for consistency: every limit allows something, and no set of
    /// rules or directions is empty.
    pub fn verify(&self) -> (result: PieceDefinitionResult<()>)
        ensures
            result == self.check(),
    {
        if self.move_rule.limit() == 0 {
            return Err(PieceDefinitionError::MoveLimitIs0);
        }
        if self.move_rule.directions().is_empty() {
            return Err(PieceDefinitionError::NoMoveDirections);
        }
        match self.jump_limit.cap() {
            Some(limit) => {
                if limit == 0 {
                    return Err(PieceDefinitionError::JumpLimitIs0);
                }
            },
            None => {},
        }
        if self.jump_limit.directions().is_empty() {
            return Err(PieceDefinitionError::NoJumpDirections);
        }
        if self.capture_rules.is_empty() {
            return Err(PieceDefinitionError::NoCaptureRules);
        }
        Ok(())
    }

    /// Whether the two definitions say the same in every field.
    pub fn same_as(&self, other: &PieceDefinition) -> (same: bool)
        ensures
            same == self.is_duplicate_of(*other),
    {
        self.id == other.id && self.name == other.name && self.move_rule == other.move_rule
            && self.jump_rule == other.jump_rule && self.jump_limit == other.jump_limit
            && self.capture_rules == other.capture_rules && self.capture_timing_rule
            == other.capture_timing_rule && self.capture_requirement == other.capture_requirement
            && self.goal_move_rule == other.goal_move_rule
    }
}

impl Clone for PieceDefinition {
    fn clone(&self) -> (copy: Self)
        ensures
            copy == *self,
    {
        PieceDefinition {
            id: self.id,
            name: self.name.clone(),
            move_rule: self.move_rule,
            jump_rule: self.jump_rule,
            jump_limit: self.jump_limit,
            capture_rules: self.capture_rules,
            capture_timing_rule: self.capture_timing_rule,
            capture_requirement: self.capture_requirement,
            goal_move_rule: self.goal_move_rule,
        }
    }
}

} // verus!
