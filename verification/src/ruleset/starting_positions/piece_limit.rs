//! Limits on what a side may place.
use std::collections::HashMap;
use vstd::prelude::*;
use vstd::std_specs::cmp::PartialEqSpecImpl;

use crate::ruleset::catalog_index::{first_index_from, first_key_from, first_where};
use crate::ruleset::piece_definition::PieceDefinition;
use crate::ruleset::Ruleset;

verus! {

broadcast use vstd::std_specs::hash::group_hash_axioms;

/// The kinds of piece limit. A set of limits holds at most one limit of each kind.
#[derive(Copy, Clone, Debug, PartialEq, Eq, Hash, Structural)]
pub enum PieceLimitKind {
    TotalLimit,
    TypeCountLimit,
    PointLimit,
}

/// A limit on what a side may place.
///
/// Two limits are equal when they are of the same kind, whatever they hold.
#[derive(Debug)]
pub enum PieceLimit {
    /// A limit on the number of pieces.
    TotalLimit { limit: usize },
    /// A limit on the number of pieces of each catalog entry.
    TypeCountLimit {
        /// From a catalog index to the limit of that entry. An entry without a limit may be
        /// placed without limit.
        limits: HashMap<usize, usize>,
    },
    /// A limit on the points that the pieces are worth together.
    PointLimit {
        /// From a catalog index to the points a piece of that entry is worth. Every entry of
        /// the catalog has to be given.
        point_values: HashMap<usize, usize>,
        /// The points each side may spend.
        point_limit: usize,
    },
}

/// Why a set of piece limits was rejected.
#[derive(Clone, Debug, PartialEq, Eq)]
pub enum PieceLimitError {
    /// The limit on the number of pieces is zero.
    LimitIs0,
    /// A limit is given for a catalog index that no entry has.
    PieceIndexNotFound(usize),
    /// The limit of the given catalog entry is zero.
    LimitIs0ForPiece(PieceDefinition),
    /// The given catalog entry has no point value, or one of zero.
    PieceHasNoPointValue(PieceDefinition),
}

pub type PieceLimitResult<T> = Result<T, PieceLimitError>;

/// The verdict on per-entry limits: the first catalog entry, in catalog order, whose limit
/// is zero is reported; else the smallest index with a limit that no entry has.
pub open spec fn type_counts_outcome(limits: Map<usize, usize>, pieces: Seq<PieceDefinition>) -> PieceLimitResult<
    (),
> {
    match first_where(
        0,
        pieces.len() as int,
        |index: int| limits.contains_key(index as usize) && limits[index as usize] == 0,
    ) {
        Some(index) => Err(PieceLimitError::LimitIs0ForPiece(pieces[index])),
        None => match first_index_from(limits.dom(), pieces.len()) {
            Some(index) => Err(PieceLimitError::PieceIndexNotFound(index)),
            None => Ok(()),
        },
    }
}

/// The verdict on point values: the first catalog entry, in catalog order, that has no
/// point value or one of zero is reported.
pub open spec fn point_values_outcome(point_values: Map<usize, usize>, pieces: Seq<PieceDefinition>) -> PieceLimitResult<
    (),
> {
    match first_where(
        0,
        pieces.len() as int,
        |index: int| !point_values.contains_key(index as usize) || point_values[index as usize] == 0,
    ) {
        Some(index) => Err(PieceLimitError::PieceHasNoPointValue(pieces[index])),
        None => Ok(()),
    }
}

impl PieceLimit {
    pub open spec fn spec_kind(self) -> PieceLimitKind {
        match self {
            PieceLimit::TotalLimit { .. } => PieceLimitKind::TotalLimit,
            PieceLimit::TypeCountLimit { .. } => PieceLimitKind::TypeCountLimit,
            PieceLimit::PointLimit { .. } => PieceLimitKind::PointLimit,
        }
    }

    /// Whether two limits are of the same kind and hold the same.
    pub open spec fn same_limit(self, other: PieceLimit) -> bool {
        match (self, other) {
            (PieceLimit::TotalLimit { limit }, PieceLimit::TotalLimit { limit: other_limit }) => limit
                == other_limit,
            (
                PieceLimit::TypeCountLimit { limits },
                PieceLimit::TypeCountLimit { limits: other_limits },
            ) => limits@ == other_limits@,
            (
                PieceLimit::PointLimit { point_values, point_limit },
                PieceLimit::PointLimit { point_values: other_values, point_limit: other_limit },
            ) => point_values@ == other_values@ && point_limit == other_limit,
            _ => false,
        }
    }

    /// The verdict on one limit, for play with the catalog `pieces`.
    pub open spec fn check(self, pieces: Seq<PieceDefinition>) -> PieceLimitResult<()> {
        match self {
            PieceLimit::TotalLimit { limit } => if limit == 0 {
                Err(PieceLimitError::LimitIs0)
            } else {
                Ok(())
            },
            PieceLimit::TypeCountLimit { limits } => type_counts_outcome(limits@, pieces),
            PieceLimit::PointLimit { point_values, .. } => point_values_outcome(point_values@, pieces),
        }
    }

    /// The verdict on limits: that of the first limit, in order, that does not pass.
    pub open spec fn check_all(limits: Seq<PieceLimit>, pieces: Seq<PieceDefinition>) -> PieceLimitResult<
        (),
    >
        decreases limits.len(),
    {
        if limits.len() == 0 {
            Ok(())
        } else {
            match limits[0].check(pieces) {
                Err(error) => Err(error),
                Ok(_) => PieceLimit::check_all(limits.drop_first(), pieces),
            }
        }
    }

    pub fn kind(&self) -> (kind: PieceLimitKind)
        ensures
            kind == self.spec_kind(),
    {
        match self {
            PieceLimit::TotalLimit { .. } => PieceLimitKind::TotalLimit,
            PieceLimit::TypeCountLimit { .. } => PieceLimitKind::TypeCountLimit,
            PieceLimit::PointLimit { .. } => PieceLimitKind::PointLimit,
        }
    }

    /// Checks per-entry limits against the catalog `pieces`.
    fn verify_type_counts(limits: &HashMap<usize, usize>, pieces: &Vec<PieceDefinition>) -> (result:
        PieceLimitResult<()>)
        ensures
            result == type_counts_outcome(limits@, pieces@),
    {
        let ghost is_zero = |index: int|
            limits@.contains_key(index as usize) && limits@[index as usize] == 0;
        let mut piece_index: usize = 0;
        while piece_index < pieces.len()
            invariant
                piece_index <= pieces.len(),
                is_zero == |index: int|
                    limits@.contains_key(index as usize) && limits@[index as usize] == 0,
                first_where(0, pieces@.len() as int, is_zero) == first_where(
                    piece_index as int,
                    pieces@.len() as int,
                    is_zero,
                ),
            decreases pieces.len() - piece_index,
        {
            match limits.get(&piece_index) {
                Some(limit) => {
                    if *limit == 0 {
                        assert(is_zero(piece_index as int));
                        return Err(PieceLimitError::LimitIs0ForPiece(pieces[piece_index].clone()));
                    }
                },
                None => {},
            }
            assert(!is_zero(piece_index as int));
            piece_index = piece_index + 1;
        }
        match first_key_from(limits, pieces.len()) {
            Some(piece_index) => Err(PieceLimitError::PieceIndexNotFound(piece_index)),
            None => Ok(()),
        }
    }

    /// Checks point values against the catalog `pieces`.
    fn verify_point_values(point_values: &HashMap<usize, usize>, pieces: &Vec<PieceDefinition>) -> (result:
        PieceLimitResult<()>)
        ensures
            result == point_values_outcome(point_values@, pieces@),
    {
        let ghost is_missing = |index: int|
            !point_values@.contains_key(index as usize) || point_values@[index as usize] == 0;
        let mut piece_index: usize = 0;
        while piece_index < pieces.len()
            invariant
                piece_index <= pieces.len(),
                is_missing == |index: int|
                    !point_values@.contains_key(index as usize) || point_values@[index as usize]
                        == 0,
                first_where(0, pieces@.len() as int, is_missing) == first_where(
                    piece_index as int,
                    pieces@.len() as int,
                    is_missing,
                ),
            decreases pieces.len() - piece_index,
        {
            match point_values.get(&piece_index) {
                None => {
                    assert(is_missing(piece_index as int));
                    return Err(PieceLimitError::PieceHasNoPointValue(pieces[piece_index].clone()));
                },
                Some(points) => {
                    if *points == 0 {
                        assert(is_missing(piece_index as int));
                        return Err(
                            PieceLimitError::PieceHasNoPointValue(pieces[piece_index].clone()),
                        );
                    }
                },
            }
            assert(!is_missing(piece_index as int));
            piece_index = piece_index + 1;
        }
        Ok(())
    }

    /// Checks one limit against the catalog `pieces`.
    fn verify_one(&self, pieces: &Vec<PieceDefinition>) -> (result: PieceLimitResult<()>)
        ensures
            result == self.check(pieces@),
    {
        match self {
            PieceLimit::TotalLimit { limit } => {
                if *limit == 0 {
                    return Err(PieceLimitError::LimitIs0);
                }
                Ok(())
            },
            PieceLimit::TypeCountLimit { limits } => PieceLimit::verify_type_counts(limits, pieces),
            PieceLimit::PointLimit { point_values, point_limit: _ } => PieceLimit::verify_point_values(
                point_values,
                pieces,
            ),
        }
    }

    /// Checks a set of limits against the catalog of `ruleset`.
    ///
    /// The limits are checked in the order in which they were put into the set, and the first
    /// that does not pass decides. A total limit has to be above zero. A per-entry limit has to
    /// be above zero and given for an index that a catalog entry has. Point values have to be
    /// given for every catalog entry and be above zero.
    pub fn verify(self_set: &PieceLimits, ruleset: &Ruleset) -> (result: PieceLimitResult<()>)
        ensures
            result == PieceLimit::check_all(self_set@, ruleset.pieces@),
    {
        let mut index: usize = 0;
        assert(self_set@.subrange(0, self_set@.len() as int) =~= self_set@);
        while index < self_set.len()
            invariant
                index <= self_set@.len(),
                PieceLimit::check_all(self_set@, ruleset.pieces@) == PieceLimit::check_all(
                    self_set@.subrange(index as int, self_set@.len() as int),
                    ruleset.pieces@,
                ),
            decreases self_set@.len() - index,
        {
            let ghost rest = self_set@.subrange(index as int, self_set@.len() as int);
            assert(rest[0] == self_set@[index as int]);
            assert(rest.drop_first() =~= self_set@.subrange(
                index as int + 1,
                self_set@.len() as int,
            ));
            match self_set.get(index) {
                Some(piece_limit) => {
                    match piece_limit.verify_one(&ruleset.pieces) {
                        Ok(_) => {},
                        Err(error) => {
                            return Err(error);
                        },
                    }
                },
                None => {},
            }
            index = index + 1;
        }
        Ok(())
    }
}

impl Clone for PieceLimit {
    fn clone(&self) -> (copy: Self)
        ensures
            copy.same_limit(*self),
    {
        match self {
            PieceLimit::TotalLimit { limit } => PieceLimit::TotalLimit { limit: *limit },
            PieceLimit::TypeCountLimit { limits } => PieceLimit::TypeCountLimit {
                limits: limits.clone(),
            },
            PieceLimit::PointLimit { point_values, point_limit } => PieceLimit::PointLimit {
                point_values: point_values.clone(),
                point_limit: *point_limit,
            },
        }
    }
}

impl PartialEqSpecImpl for PieceLimit {
    open spec fn obeys_eq_spec() -> bool {
        true
    }

    open spec fn eq_spec(&self, other: &PieceLimit) -> bool {
        self.spec_kind() == other.spec_kind()
    }
}

impl PartialEq for PieceLimit {
    fn eq(&self, other: &PieceLimit) -> (same: bool) {
        self.kind() == other.kind()
    }
}

impl Eq for PieceLimit {

}

/// Whether no two of `limits` are of the same kind.
pub open spec fn distinct_limit_kinds(limits: Seq<PieceLimit>) -> bool {
    forall|i: int, j: int|
        0 <= i < j < limits.len() ==> #[trigger] limits[i].spec_kind() != #[trigger] limits[j].spec_kind()
}

/// A set of piece limits with at most one limit of each kind, in the order in which the
/// limits were put in.
#[derive(Debug)]
pub struct PieceLimits {
    limits: Vec<PieceLimit>,
}

impl View for PieceLimits {
    type V = Seq<PieceLimit>;

    closed spec fn view(&self) -> Seq<PieceLimit> {
        self.limits@
    }
}

impl PieceLimits {
    #[verifier::type_invariant]
    spec fn kinds_differ(self) -> bool {
        distinct_limit_kinds(self.limits@)
    }

    /// The empty set.
    pub fn new() -> (set: Self)
        ensures
            set@ == Seq::<PieceLimit>::empty(),
    {
        PieceLimits { limits: Vec::new() }
    }

    /// The number of limits in the set.
    pub fn len(&self) -> (len: usize)
        ensures
            len == self@.len(),
            distinct_limit_kinds(self@),
    {
        proof {
            use_type_invariant(self);
        }
        self.limits.len()
    }

    /// The limit that was put in as number `index`, counting from zero.
    pub fn get(&self, index: usize) -> (limit: Option<&PieceLimit>)
        ensures
            match limit {
                Some(limit) => index < self@.len() && *limit == self@[index as int],
                None => index >= self@.len(),
            },
    {
        if index < self.limits.len() {
            Some(&self.limits[index])
        } else {
            None
        }
    }

    /// Whether the set holds a limit of the given kind.
    pub fn contains_kind(&self, kind: PieceLimitKind) -> (found: bool)
        ensures
            found == exists|i: int| 0 <= i < self@.len() && #[trigger] self@[i].spec_kind() == kind,
    {
        let mut index: usize = 0;
        while index < self.limits.len()
            invariant
                index <= self.limits.len(),
                forall|i: int| 0 <= i < index ==> #[trigger] self.limits@[i].spec_kind() != kind,
            decreases self.limits.len() - index,
        {
            if self.limits[index].kind() == kind {
                return true;
            }
            index = index + 1;
        }
        false
    }

    /// Puts `limit` into the set unless the set holds a limit of its kind already. Returns
    /// whether the limit was put in.
    pub fn insert(&mut self, limit: PieceLimit) -> (added: bool)
        ensures
            added == !exists|i: int|
                0 <= i < old(self)@.len() && #[trigger] old(self)@[i].spec_kind() == limit.spec_kind(),
            final(self)@ == if added {
                old(self)@.push(limit)
            } else {
                old(self)@
            },
    {
        proof {
            use_type_invariant(&*self);
        }
        if self.contains_kind(limit.kind()) {
            false
        } else {
            let mut limits: Vec<PieceLimit> = Vec::new();
            core::mem::swap(&mut self.limits, &mut limits);
            limits.push(limit);
            self.limits = limits;
            true
        }
    }
}

impl Clone for PieceLimits {
    fn clone(&self) -> (copy: Self)
        ensures
            copy@.len() == self@.len(),
            forall|i: int| 0 <= i < self@.len() ==> #[trigger] copy@[i].same_limit(self@[i]),
    {
        proof {
            use_type_invariant(self);
        }
        let mut limits: Vec<PieceLimit> = Vec::new();
        let mut index: usize = 0;
        while index < self.limits.len()
            invariant
                index <= self.limits.len(),
                limits@.len() == index,
                distinct_limit_kinds(self.limits@),
                forall|i: int|
                    0 <= i < index ==> #[trigger] limits@[i].same_limit(self.limits@[i]),
            decreases self.limits.len() - index,
        {
            limits.push(self.limits[index].clone());
            index = index + 1;
        }
        proof {
            assert forall|i: int, j: int| 0 <= i < j < limits@.len() implies #[trigger] limits@[i].spec_kind()
                != #[trigger] limits@[j].spec_kind() by {
                assert(limits@[i].same_limit(self.limits@[i]));
                assert(limits@[j].same_limit(self.limits@[j]));
                assert(limits@[i].spec_kind() == self.limits@[i].spec_kind());
                assert(limits@[j].spec_kind() == self.limits@[j].spec_kind());
            }
        }
        PieceLimits { limits }
    }
}

} // verus!
