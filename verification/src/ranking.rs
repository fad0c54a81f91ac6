//! Folds that pick one element of a sequence of numbers by their order.
//!
//! Each fold walks the sequence from its first element and is defined for
//! every sequence of patterns, those that encode no number included. The
//! lemmas say what the fold finds where every element is a number.

use vstd::prelude::*;
use crate::scalar::{is_nan, less, lt, min_of, minimum, INFINITY};

verus! {

/// The index that a walk from the front ends on when it moves to an
/// element only if that element is strictly below the one it holds.
pub open spec fn first_least(xs: Seq<u32>) -> int
    decreases xs.len(),
{
    if xs.len() <= 1 {
        0
    } else {
        let held = first_least(xs.drop_last());
        if lt(xs.last(), xs[held]) {
            xs.len() - 1
        } else {
            held
        }
    }
}

/// The index that a walk from the front ends on when it stays on the
/// element it holds only if the next one is strictly below it.
pub open spec fn last_greatest(xs: Seq<u32>) -> int
    decreases xs.len(),
{
    if xs.len() <= 1 {
        0
    } else {
        let held = last_greatest(xs.drop_last());
        if lt(xs.last(), xs[held]) {
            held
        } else {
            xs.len() - 1
        }
    }
}

/// The index that a walk from the front ends on when it moves to an
/// element only if that element is strictly above the one it holds.
pub open spec fn first_greatest(xs: Seq<u32>) -> int
    decreases xs.len(),
{
    if xs.len() <= 1 {
        0
    } else {
        let held = first_greatest(xs.drop_last());
        if lt(xs[held], xs.last()) {
            xs.len() - 1
        } else {
            held
        }
    }
}

/// The least number of a non-empty sequence, folded from the front with
/// [`min_of`]; elements that encode no number are passed over.
pub open spec fn least(xs: Seq<u32>) -> u32
    decreases xs.len(),
{
    if xs.len() == 0 {
        0
    } else if xs.len() == 1 {
        xs[0]
    } else {
        min_of(least(xs.drop_last()), xs.last())
    }
}

/// Whether every element encodes a number.
pub open spec fn all_numbers(xs: Seq<u32>) -> bool {
    forall|i: int| 0 <= i < xs.len() ==> !is_nan(#[trigger] xs[i])
}

/// Whether every element is a number that is not negative, its sign bit
/// clear: what a distance is.
pub open spec fn distances(xs: Seq<u32>) -> bool {
    forall|i: int| 0 <= i < xs.len() ==> #[trigger] xs[i] <= INFINITY
}

/// Each fold's index lies within a non-empty sequence.
pub proof fn lemma_folds_in_range(xs: Seq<u32>)
    requires
        xs.len() > 0,
    ensures
        0 <= first_least(xs) < xs.len(),
        0 <= last_greatest(xs) < xs.len(),
        0 <= first_greatest(xs) < xs.len(),
    decreases xs.len(),
{
    if xs.len() > 1 {
        lemma_folds_in_range(xs.drop_last());
    }
}

/// Whatever the elements are, the element that [`first_least`] finds is
/// not above the first one.
pub proof fn lemma_first_least_not_above_first(xs: Seq<u32>)
    requires
        xs.len() > 0,
    ensures
        !lt(xs[0], xs[first_least(xs)]),
        !is_nan(xs[0]) ==> !is_nan(xs[first_least(xs)]),
    decreases xs.len(),
{
    lemma_folds_in_range(xs);
    if xs.len() > 1 {
        let front = xs.drop_last();
        lemma_first_least_not_above_first(front);
        lemma_folds_in_range(front);
        assert(front[0] == xs[0]);
        assert(front[first_least(front)] == xs[first_least(front)]);
    }
}

/// Among numbers, [`first_least`] is the first index whose element no
/// other element is below.
pub proof fn lemma_first_least_is_first_minimum(xs: Seq<u32>)
    requires
        xs.len() > 0,
        all_numbers(xs),
    ensures
        forall|j: int| 0 <= j < xs.len() ==> !lt(#[trigger] xs[j], xs[first_least(xs)]),
        forall|j: int| 0 <= j < first_least(xs) ==> lt(xs[first_least(xs)], #[trigger] xs[j]),
    decreases xs.len(),
{
    lemma_folds_in_range(xs);
    if xs.len() > 1 {
        let front = xs.drop_last();
        lemma_first_least_is_first_minimum(front);
        lemma_folds_in_range(front);
        let held = first_least(front);
        assert forall|j: int| 0 <= j < xs.len() implies !lt(#[trigger] xs[j], xs[first_least(xs)]) by {
            if j < xs.len() - 1 {
                assert(front[j] == xs[j]);
            }
        }
        assert forall|j: int| 0 <= j < first_least(xs) implies lt(
            xs[first_least(xs)],
            #[trigger] xs[j],
        ) by {
            assert(front[j] == xs[j]);
            if j < held {
                assert(lt(front[held], front[j]));
            }
        }
    }
}

/// Among numbers, [`last_greatest`] is the last index whose element is
/// below no other element.
pub proof fn lemma_last_greatest_is_last_maximum(xs: Seq<u32>)
    requires
        xs.len() > 0,
        all_numbers(xs),
    ensures
        forall|j: int| 0 <= j < xs.len() ==> !lt(xs[last_greatest(xs)], #[trigger] xs[j]),
        forall|j: int| last_greatest(xs) < j < xs.len() ==> lt(#[trigger] xs[j], xs[last_greatest(xs)]),
    decreases xs.len(),
{
    lemma_folds_in_range(xs);
    if xs.len() > 1 {
        let front = xs.drop_last();
        lemma_last_greatest_is_last_maximum(front);
        lemma_folds_in_range(front);
        let held = last_greatest(front);
        assert forall|j: int| 0 <= j < xs.len() implies !lt(xs[last_greatest(xs)], #[trigger] xs[j]) by {
            if j < xs.len() - 1 {
                assert(front[j] == xs[j]);
            }
        }
        assert forall|j: int| last_greatest(xs) < j < xs.len() implies lt(
            #[trigger] xs[j],
            xs[last_greatest(xs)],
        ) by {
            if j < xs.len() - 1 {
                assert(front[j] == xs[j]);
            }
        }
    }
}

/// Among numbers, [`first_greatest`] is the first index whose element is
/// below no other element.
pub proof fn lemma_first_greatest_is_first_maximum(xs: Seq<u32>)
    requires
        xs.len() > 0,
        all_numbers(xs),
    ensures
        forall|j: int| 0 <= j < xs.len() ==> !lt(xs[first_greatest(xs)], #[trigger] xs[j]),
        forall|j: int| 0 <= j < first_greatest(xs) ==> lt(#[trigger] xs[j], xs[first_greatest(xs)]),
    decreases xs.len(),
{
    lemma_folds_in_range(xs);
    if xs.len() > 1 {
        let front = xs.drop_last();
        lemma_first_greatest_is_first_maximum(front);
        lemma_folds_in_range(front);
        let held = first_greatest(front);
        assert forall|j: int| 0 <= j < xs.len() implies !lt(xs[first_greatest(xs)], #[trigger] xs[j]) by {
            if j < xs.len() - 1 {
                assert(front[j] == xs[j]);
            }
        }
        assert forall|j: int| 0 <= j < first_greatest(xs) implies lt(
            #[trigger] xs[j],
            xs[first_greatest(xs)],
        ) by {
            assert(front[j] == xs[j]);
            if j < held {
                assert(lt(front[j], front[held]));
            }
        }
    }
}

/// Among numbers, [`least`] is an element of the sequence that no element
/// is below.
pub proof fn lemma_least_is_minimum(xs: Seq<u32>)
    requires
        xs.len() > 0,
        all_numbers(xs),
    ensures
        exists|i: int| 0 <= i < xs.len() && xs[i] == least(xs),
        forall|j: int| 0 <= j < xs.len() ==> !lt(#[trigger] xs[j], least(xs)),
    decreases xs.len(),
{
    if xs.len() == 1 {
        assert(xs[0] == least(xs));
    } else {
        let front = xs.drop_last();
        lemma_least_is_minimum(front);
        let i = choose|i: int| 0 <= i < front.len() && front[i] == least(front);
        assert(xs[i] == front[i]);
        if least(xs) == xs.last() {
            assert(xs[xs.len() - 1] == least(xs));
        } else {
            assert(xs[i] == least(xs));
        }
        assert forall|j: int| 0 <= j < xs.len() implies !lt(#[trigger] xs[j], least(xs)) by {
            if j < xs.len() - 1 {
                assert(front[j] == xs[j]);
            }
        }
    }
}

/// The least of some distances is a distance, one of those given and above
/// none of them; it is zero exactly where one of them is.
pub proof fn lemma_least_distance(xs: Seq<u32>)
    requires
        xs.len() > 0,
        distances(xs),
    ensures
        least(xs) <= INFINITY,
        exists|i: int| 0 <= i < xs.len() && xs[i] == least(xs),
        forall|j: int| 0 <= j < xs.len() ==> least(xs) <= #[trigger] xs[j],
        least(xs) == 0 <==> exists|i: int| 0 <= i < xs.len() && xs[i] == 0,
{
    assert(all_numbers(xs)) by {
        assert forall|i: int| 0 <= i < xs.len() implies !is_nan(#[trigger] xs[i]) by {
            assert(xs[i] <= INFINITY);
        }
    }
    lemma_least_is_minimum(xs);
    let at = choose|i: int| 0 <= i < xs.len() && xs[i] == least(xs);
    assert(xs[at] <= INFINITY);
    assert forall|j: int| 0 <= j < xs.len() implies least(xs) <= #[trigger] xs[j] by {
        assert(xs[j] <= INFINITY);
        assert(!lt(xs[j], least(xs)));
    }
    if exists|i: int| 0 <= i < xs.len() && xs[i] == 0 {
        let zero = choose|i: int| 0 <= i < xs.len() && xs[i] == 0;
        assert(least(xs) <= xs[zero]);
    }
}

/// Finds the first least element; `None` on an empty sequence.
pub fn leftmost(xs: &[u32]) -> (r: Option<usize>)
    ensures
        xs.len() == 0 <==> r is None,
        r matches Some(i) ==> i == first_least(xs@) && i < xs.len(),
        r matches Some(i) ==> all_numbers(xs@) ==> {
            &&& forall|j: int| 0 <= j < xs.len() ==> !lt(#[trigger] xs[j], xs[i as int])
            &&& forall|j: int| 0 <= j < i ==> lt(xs[i as int], #[trigger] xs[j])
        },
{
    if xs.len() == 0 {
        return None;
    }
    let mut held: usize = 0;
    let mut i: usize = 1;
    assert(xs@.take(1).len() == 1);
    while i < xs.len()
        invariant
            1 <= i <= xs.len(),
            held < i,
            held == first_least(xs@.take(i as int)),
        decreases xs.len() - i,
    {
        proof {
            assert(xs@.take(i + 1).drop_last() == xs@.take(i as int));
        }
        if less(xs[i], xs[held]) {
            held = i;
        }
        i += 1;
    }
    assert(xs@.take(i as int) == xs@);
    proof {
        if all_numbers(xs@) {
            lemma_first_least_is_first_minimum(xs@);
        }
    }
    Some(held)
}

/// Finds the last greatest element; `None` on an empty sequence.
pub fn rightmost(xs: &[u32]) -> (r: Option<usize>)
    ensures
        xs.len() == 0 <==> r is None,
        r matches Some(i) ==> i == last_greatest(xs@) && i < xs.len(),
        r matches Some(i) ==> all_numbers(xs@) ==> {
            &&& forall|j: int| 0 <= j < xs.len() ==> !lt(xs[i as int], #[trigger] xs[j])
            &&& forall|j: int| i < j < xs.len() ==> lt(#[trigger] xs[j], xs[i as int])
        },
{
    if xs.len() == 0 {
        return None;
    }
    let mut held: usize = 0;
    let mut i: usize = 1;
    assert(xs@.take(1).len() == 1);
    while i < xs.len()
        invariant
            1 <= i <= xs.len(),
            held < i,
            held == last_greatest(xs@.take(i as int)),
        decreases xs.len() - i,
    {
        proof {
            assert(xs@.take(i + 1).drop_last() == xs@.take(i as int));
        }
        if !less(xs[i], xs[held]) {
            held = i;
        }
        i += 1;
    }
    assert(xs@.take(i as int) == xs@);
    proof {
        if all_numbers(xs@) {
            lemma_last_greatest_is_last_maximum(xs@);
        }
    }
    Some(held)
}

/// Finds the first greatest element; `None` on an empty sequence.
pub fn highest(xs: &[u32]) -> (r: Option<usize>)
    ensures
        xs.len() == 0 <==> r is None,
        r matches Some(i) ==> i == first_greatest(xs@) && i < xs.len(),
        r matches Some(i) ==> all_numbers(xs@) ==> {
            &&& forall|j: int| 0 <= j < xs.len() ==> !lt(xs[i as int], #[trigger] xs[j])
            &&& forall|j: int| 0 <= j < i ==> lt(#[trigger] xs[j], xs[i as int])
        },
{
    if xs.len() == 0 {
        return None;
    }
    let mut held: usize = 0;
    let mut i: usize = 1;
    assert(xs@.take(1).len() == 1);
    while i < xs.len()
        invariant
            1 <= i <= xs.len(),
            held < i,
            held == first_greatest(xs@.take(i as int)),
        decreases xs.len() - i,
    {
        proof {
            assert(xs@.take(i + 1).drop_last() == xs@.take(i as int));
        }
        if less(xs[held], xs[i]) {
            held = i;
        }
        i += 1;
    }
    assert(xs@.take(i as int) == xs@);
    proof {
        if all_numbers(xs@) {
            lemma_first_greatest_is_first_maximum(xs@);
        }
    }
    Some(held)
}

/// The distance to the nearest of some goals, given the distance to each:
/// undefined exactly where there is no goal. Distances are numbers that
/// are not negative; the nearest is then such a number too, one of those
/// given and above none of them, and it is zero exactly where one of them
/// is.
pub fn nearest(xs: &[u32]) -> (r: Option<u32>)
    ensures
        xs.len() == 0 <==> r is None,
        r matches Some(d) ==> d == least(xs@),
        r matches Some(d) ==> distances(xs@) ==> {
            &&& d <= INFINITY
            &&& exists|i: int| 0 <= i < xs.len() && xs[i] == d
            &&& forall|j: int| 0 <= j < xs.len() ==> d <= #[trigger] xs[j]
            &&& d == 0 <==> exists|i: int| 0 <= i < xs.len() && xs[i] == 0
        },
{
    if xs.len() == 0 {
        return None;
    }
    let mut held: u32 = xs[0];
    let mut i: usize = 1;
    assert(xs@.take(1).len() == 1);
    while i < xs.len()
        invariant
            1 <= i <= xs.len(),
            held == least(xs@.take(i as int)),
        decreases xs.len() - i,
    {
        proof {
            assert(xs@.take(i + 1).drop_last() == xs@.take(i as int));
        }
        held = minimum(held, xs[i]);
        i += 1;
    }
    assert(xs@.take(i as int) == xs@);
    proof {
        if distances(xs@) {
            lemma_least_distance(xs@);
        }
    }
    Some(held)
}

} // verus!
