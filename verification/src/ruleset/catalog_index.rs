//! References into the piece catalog by index.
//!
//! Starting layouts, piece limits and victory conditions name pieces by their position in
//! the catalog. Where such references are checked, the ones that resolve are walked in
//! ascending order, and of those that do not the smallest is reported.
use std::collections::{HashMap, HashSet};
use vstd::prelude::*;

verus! {

broadcast use vstd::std_specs::hash::group_hash_axioms;

/// The smallest index from `from` on and below `to` that `wanted` holds of, if there is
/// one.
pub open spec fn first_where(from: int, to: int, wanted: spec_fn(int) -> bool) -> Option<int>
    decreases to - from,
{
    if from >= to {
        None
    } else if wanted(from) {
        Some(from)
    } else {
        first_where(from + 1, to, wanted)
    }
}

/// `first_where` gives an index in range of which `wanted` holds and before which, from
/// `from` on, it does not; it gives none only where `wanted` holds of no index in range.
pub proof fn lemma_first_where(from: int, to: int, wanted: spec_fn(int) -> bool)
    ensures
        match first_where(from, to, wanted) {
            Some(index) => from <= index < to && wanted(index) && forall|other: int|
                from <= other < index ==> !#[trigger] wanted(other),
            None => forall|other: int| from <= other < to ==> !#[trigger] wanted(other),
        },
    decreases to - from,
{
    if from < to && !wanted(from) {
        lemma_first_where(from + 1, to, wanted);
    }
}

/// Whether `index` is the smallest member of `indices` that is at least `bound`.
pub open spec fn is_first_from(indices: Set<usize>, bound: nat, index: usize) -> bool {
    &&& indices.contains(index)
    &&& index >= bound
    &&& forall|other: usize| indices.contains(other) && other >= bound ==> index <= other
}

/// The smallest member of `indices` that is at least `bound`, if there is one.
///
/// With the length of the catalog for `bound`, this is the smallest index that does not
/// resolve.
pub open spec fn first_index_from(indices: Set<usize>, bound: nat) -> Option<usize> {
    if exists|index: usize| is_first_from(indices, bound, index) {
        Some(choose|index: usize| is_first_from(indices, bound, index))
    } else {
        None
    }
}

/// `first_index_from` is `Some` of the smallest member from `bound` on where there is one.
pub proof fn lemma_first_index_found(indices: Set<usize>, bound: nat, index: usize)
    requires
        is_first_from(indices, bound, index),
    ensures
        first_index_from(indices, bound) == Some(index),
{
    let chosen = choose|index: usize| is_first_from(indices, bound, index);
    assert(is_first_from(indices, bound, chosen));
    assert(chosen <= index && index <= chosen);
}

/// Where some member is at least `bound`, one of them is the smallest.
pub proof fn lemma_some_index_is_first(indices: Set<usize>, bound: nat, index: usize)
    requires
        indices.contains(index),
        index >= bound,
    ensures
        exists|first: usize| is_first_from(indices, bound, first),
    decreases index,
{
    if exists|smaller: usize| indices.contains(smaller) && smaller >= bound && smaller < index {
        let smaller = choose|smaller: usize|
            indices.contains(smaller) && smaller >= bound && smaller < index;
        lemma_some_index_is_first(indices, bound, smaller);
    } else {
        assert(is_first_from(indices, bound, index));
    }
}

/// `first_index_from` is `None` where every member is below `bound`.
pub proof fn lemma_first_index_absent(indices: Set<usize>, bound: nat)
    requires
        forall|index: usize| indices.contains(index) ==> index < bound,
    ensures
        first_index_from(indices, bound) is None,
{
}

/// The smallest key of `map` that is at least `bound`, if there is one.
pub fn first_key_from<V>(map: &HashMap<usize, V>, bound: usize) -> (first: Option<usize>)
    ensures
        first == first_index_from(map@.dom(), bound as nat),
{
    let mut best: Option<usize> = None;
    for key in walk: map.keys()
        invariant
            walk.seq().unref().to_set() == map@.dom(),
            match best {
                Some(found) => found >= bound && map@.contains_key(found) && forall|i: int|
                    0 <= i < walk.index() && *walk.seq()[i] >= bound ==> found <= *walk.seq()[i],
                None => forall|i: int| 0 <= i < walk.index() ==> *walk.seq()[i] < bound,
            },
    {
        if *key >= bound {
            match best {
                Some(found) => {
                    if *key < found {
                        best = Some(*key);
                    }
                },
                None => {
                    best = Some(*key);
                },
            }
        }
    }
    proof {
        match best {
            Some(found) => {
                lemma_first_index_found(map@.dom(), bound as nat, found);
            },
            None => {
                lemma_first_index_absent(map@.dom(), bound as nat);
            },
        }
    }
    best
}

/// The smallest member of `set` that is at least `bound`, if there is one.
pub fn first_member_from(set: &HashSet<usize>, bound: usize) -> (first: Option<usize>)
    ensures
        first == first_index_from(set@, bound as nat),
{
    let mut best: Option<usize> = None;
    for member in walk: set.iter()
        invariant
            walk.seq().unref().to_set() == set@,
            match best {
                Some(found) => found >= bound && set@.contains(found) && forall|i: int|
                    0 <= i < walk.index() && *walk.seq()[i] >= bound ==> found <= *walk.seq()[i],
                None => forall|i: int| 0 <= i < walk.index() ==> *walk.seq()[i] < bound,
            },
    {
        if *member >= bound {
            match best {
                Some(found) => {
                    if *member < found {
                        best = Some(*member);
                    }
                },
                None => {
                    best = Some(*member);
                },
            }
        }
    }
    proof {
        match best {
            Some(found) => {
                lemma_first_index_found(set@, bound as nat, found);
            },
            None => {
                lemma_first_index_absent(set@, bound as nat);
            },
        }
    }
    best
}

/// A set with the same members as `set`.
pub fn copy_indices(set: &HashSet<usize>) -> (copy: HashSet<usize>)
    ensures
        copy@ == set@,
{
    let mut copy: HashSet<usize> = HashSet::new();
    for member in walk: set.iter()
        invariant
            walk.seq().unref().to_set() == set@,
            forall|i: int| 0 <= i < walk.index() ==> copy@.contains(*#[trigger] walk.seq()[i]),
            forall|index: usize| copy@.contains(index) ==> set@.contains(index),
    {
        assert(walk.seq().unref()[walk.index() as int] == *member);
        assert(walk.seq().unref().contains(*member));
        copy.insert(*member);
    }
    assert(copy@ =~= set@);
    copy
}

} // verus!
