//! Finite sums over integer-valued terms, used to state contractions and pairings.

use vstd::prelude::*;

verus! {

/// Σ_{j < k} f(j).
pub open spec fn sum_to(f: spec_fn(int) -> int, k: int) -> int
    decreases k,
{
    if k <= 0 {
        0
    } else {
        sum_to(f, k - 1) + f(k - 1)
    }
}

/// A sum whose terms all vanish is zero.
pub proof fn lemma_sum_of_zeros(f: spec_fn(int) -> int, k: int)
    requires
        forall|j: int| 0 <= j < k ==> #[trigger] f(j) == 0,
    ensures
        sum_to(f, k) == 0,
    decreases k,
{
    if k > 0 {
        lemma_sum_of_zeros(f, k - 1);
    }
}

/// A sum whose terms vanish everywhere but at `j0` equals the term at `j0`.
pub proof fn lemma_sum_single(f: spec_fn(int) -> int, k: int, j0: int)
    requires
        0 <= j0 < k,
        forall|j: int| 0 <= j < k && j != j0 ==> #[trigger] f(j) == 0,
    ensures
        sum_to(f, k) == f(j0),
    decreases k,
{
    if k - 1 == j0 {
        lemma_sum_of_zeros(f, k - 1);
    } else {
        lemma_sum_single(f, k - 1, j0);
    }
}

} // verus!
