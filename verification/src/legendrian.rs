//! The standard Legendrian submanifold L = {y = 0, z = 0} of R^{2n+1},
//! whose tangent space is spanned by ∂/∂x₁, …, ∂/∂xₙ.

use vstd::prelude::*;
use crate::contact_form::{dim_of, dimension_fits, alpha_entry, dalpha_entry, dalpha_apply, dalpha_apply_terms};
use crate::linear::{sum_to, lemma_sum_single};

verus! {

/// Entry (i, j) of the (2n+1) × n matrix whose columns are ∂/∂x₁, …, ∂/∂xₙ.
pub open spec fn standard_tangent_entry(i: int, j: int) -> int {
    if i == j {
        1
    } else {
        0
    }
}

/// A point of R^{2n+1} whose y-coordinates all vanish.
pub open spec fn on_zero_section(n: int, p: Seq<int>) -> bool {
    &&& p.len() == dim_of(n)
    &&& forall|i: int| 0 <= i < n ==> #[trigger] p[n + i] == 0
}

/// The terms of α_p applied to the j-th tangent vector of the standard Legendrian.
pub open spec fn alpha_tangent_terms(n: int, p: Seq<int>, j: int) -> spec_fn(int) -> int {
    |i: int| alpha_entry(n, p, i) * standard_tangent_entry(i, j)
}

/// α_p applied to the j-th tangent vector ∂/∂x_j of the standard Legendrian.
pub open spec fn alpha_on_tangent(n: int, p: Seq<int>, j: int) -> int {
    sum_to(alpha_tangent_terms(n, p, j), dim_of(n))
}

/// The tangent basis of the standard Legendrian: the (2n+1) × n matrix whose
/// column j is ∂/∂x_j (a 1 at row j, 0 elsewhere).
pub fn standard_tangent_basis(n: usize) -> (b: Vec<Vec<i64>>)
    requires
        dimension_fits(n),
    ensures
        b@.len() == dim_of(n as int),
        forall|i: int| 0 <= i < dim_of(n as int) ==> (#[trigger] b@[i])@.len() == n,
        forall|i: int, j: int|
            0 <= i < dim_of(n as int) && 0 <= j < n ==> #[trigger] b@[i]@[j]
                == standard_tangent_entry(i, j),
        forall|j: int| 0 <= j < n ==> #[trigger] b@[j]@[j] == 1,
        forall|i: int, j: int|
            0 <= i < dim_of(n as int) && 0 <= j < n && i != j ==> #[trigger] b@[i]@[j] == 0,
{
    let dim = 2 * n + 1;
    let mut b: Vec<Vec<i64>> = Vec::new();
    for i in 0..dim
        invariant
            dim == dim_of(n as int),
            b@.len() == i,
            forall|k: int| 0 <= k < i ==> (#[trigger] b@[k])@.len() == n,
            forall|k: int, j: int|
                0 <= k < i && 0 <= j < n ==> #[trigger] b@[k]@[j] == standard_tangent_entry(k, j),
    {
        let mut row: Vec<i64> = Vec::new();
        for j in 0..n
            invariant
                row@.len() == j,
                forall|k: int| 0 <= k < j ==> row@[k] == standard_tangent_entry(i as int, k),
        {
            let v: i64 = if i == j {
                1
            } else {
                0
            };
            row.push(v);
        }
        b.push(row);
    }
    b
}

/// The standard Legendrian is Legendrian: at every point with y = 0, α vanishes
/// on each of its tangent vectors ∂/∂x_j.
pub proof fn lemma_standard_legendrian_is_legendrian(n: int, p: Seq<int>)
    requires
        n >= 0,
        on_zero_section(n, p),
    ensures
        forall|j: int| 0 <= j < n ==> #[trigger] alpha_on_tangent(n, p, j) == 0,
{
    assert forall|j: int| 0 <= j < n implies #[trigger] alpha_on_tangent(n, p, j) == 0 by {
        assert forall|i: int| 0 <= i < dim_of(n) && i != j implies #[trigger] alpha_tangent_terms(
            n,
            p,
            j,
        )(i) == 0 by {}
        lemma_sum_single(alpha_tangent_terms(n, p, j), dim_of(n), j);
        assert(p[n + j] == 0);
    }
}

/// Column j of the tangent basis of the standard Legendrian, as a vector.
pub open spec fn tangent_column(j: int) -> spec_fn(int) -> int {
    |i: int| standard_tangent_entry(i, j)
}

/// The terms of dα(u, v) = Σᵢ uᵢ · (dα v)ᵢ.
pub open spec fn dalpha_pairing_terms(n: int, u: spec_fn(int) -> int, v: spec_fn(int) -> int) -> spec_fn(
    int,
) -> int {
    |i: int| u(i) * dalpha_apply(n, v, i)
}

/// The 2-form dα evaluated on the vectors u and v.
pub open spec fn dalpha_pairing(n: int, u: spec_fn(int) -> int, v: spec_fn(int) -> int) -> int {
    crate::linear::sum_to(dalpha_pairing_terms(n, u, v), dim_of(n))
}

/// The tangent vectors of the standard Legendrian are the x-directions: column j
/// is ∂/∂x_j, with a 1 in the x_j-component and zero x-, y- and z-components otherwise.
pub proof fn lemma_standard_tangent_vectors_are_x_directions(n: int)
    requires
        n >= 0,
    ensures
        forall|j: int| 0 <= j < n ==> #[trigger] tangent_column(j)(j) == 1,
        forall|i: int, j: int|
            0 <= i < dim_of(n) && 0 <= j < n && i != j ==> #[trigger] tangent_column(j)(i) == 0,
        forall|i: int, j: int| n <= i < dim_of(n) && 0 <= j < n ==> #[trigger] tangent_column(j)(i) == 0,
{
}

/// The standard Legendrian is isotropic for dα: dα(∂/∂x_j, ∂/∂x_k) = 0 for
/// all tangent vectors of its basis.
pub proof fn lemma_standard_legendrian_isotropic(n: int)
    requires
        n >= 0,
    ensures
        forall|j: int, k: int|
            0 <= j < n && 0 <= k < n ==> #[trigger] dalpha_pairing(n, tangent_column(j), tangent_column(k))
                == 0,
{
    assert forall|j: int, k: int| 0 <= j < n && 0 <= k < n implies #[trigger] dalpha_pairing(
        n,
        tangent_column(j),
        tangent_column(k),
    ) == 0 by {
        // dα(∂/∂x_k) has component i equal to dα's entry (i, k).
        assert forall|i: int| 0 <= i < dim_of(n) implies #[trigger] dalpha_apply(
            n,
            tangent_column(k),
            i,
        ) == dalpha_entry(n, i, k) by {
            assert forall|l: int| 0 <= l < dim_of(n) && l != k implies #[trigger] dalpha_apply_terms(
                n,
                tangent_column(k),
                i,
            )(l) == 0 by {}
            lemma_sum_single(dalpha_apply_terms(n, tangent_column(k), i), dim_of(n), k);
        }
        assert forall|i: int| 0 <= i < dim_of(n) && i != j implies #[trigger] dalpha_pairing_terms(
            n,
            tangent_column(j),
            tangent_column(k),
        )(i) == 0 by {}
        lemma_sum_single(dalpha_pairing_terms(n, tangent_column(j), tangent_column(k)), dim_of(n), j);
        assert(dalpha_apply(n, tangent_column(k), j) == dalpha_entry(n, j, k));
    }
}

} // verus!
