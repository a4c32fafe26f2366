//! The standard contact form α = dz − Σ yᵢ dxᵢ on R^{2n+1}, its exterior
//! derivative dα = Σ dxᵢ ∧ dyᵢ and its Reeb vector field R = ∂/∂z.
//!
//! Coordinates are laid out as (x₁,…,xₙ, y₁,…,yₙ, z): xᵢ has index i,
//! yᵢ has index n + i and z has index 2n.

use vstd::prelude::*;
use crate::linear::{sum_to, lemma_sum_of_zeros, lemma_sum_single};
use crate::determinant::{
    det, first_row_minor, cofactor_term, alternating_sign, zero_row, block_entry,
    lemma_det_zero_row, lemma_det_block, lemma_symplectic_block_det, lemma_cofactor_sum_single,
    lemma_product_with_zero_factor,
};

verus! {

/// Dimension 2n + 1 of the contact manifold.
pub open spec fn dim_of(n: int) -> int {
    2 * n + 1
}

/// 2n + 1 is representable as a `usize`.
pub open spec fn dimension_fits(n: usize) -> bool {
    2 * n + 1 <= usize::MAX
}

/// Coefficient (i, j) of the skew-symmetric matrix of dα = Σ dxᵢ ∧ dyᵢ.
pub open spec fn dalpha_entry(n: int, i: int, j: int) -> int {
    if 0 <= i < n && j == n + i {
        1
    } else if n <= i < 2 * n && j == i - n {
        -1
    } else {
        0
    }
}

/// Component j of the Reeb vector field R = ∂/∂z.
pub open spec fn reeb_entry(n: int, j: int) -> int {
    if j == 2 * n {
        1
    } else {
        0
    }
}

/// Coefficient j of α_p = dz − Σ yᵢ dxᵢ at the point p = (x, y, z).
pub open spec fn alpha_entry(n: int, p: Seq<int>, j: int) -> int {
    if 0 <= j < n {
        -p[n + j]
    } else if j == 2 * n {
        1
    } else {
        0
    }
}

/// The origin of R^{2n+1}.
pub open spec fn origin(n: int) -> Seq<int> {
    Seq::new(dim_of(n) as nat, |k: int| 0int)
}

/// The terms of row i of dα applied to R.
pub open spec fn dalpha_reeb_terms(n: int, i: int) -> spec_fn(int) -> int {
    |j: int| dalpha_entry(n, i, j) * reeb_entry(n, j)
}

/// Component i of the contraction dα(R, ·), as the product of dα's matrix with R.
pub open spec fn dalpha_contract_reeb(n: int, i: int) -> int {
    sum_to(dalpha_reeb_terms(n, i), dim_of(n))
}

/// The terms of the pairing α_p(R).
pub open spec fn alpha_reeb_terms(n: int, p: Seq<int>) -> spec_fn(int) -> int {
    |j: int| alpha_entry(n, p, j) * reeb_entry(n, j)
}

/// The pairing α_p(R).
pub open spec fn alpha_of_reeb(n: int, p: Seq<int>) -> int {
    sum_to(alpha_reeb_terms(n, p), dim_of(n))
}

/// Dimension 2n + 1 of the contact manifold with parameter n.
pub fn manifold_dimension(n: usize) -> (d: usize)
    requires
        dimension_fits(n),
    ensures
        d == dim_of(n as int),
{
    2 * n + 1
}

/// The matrix of dα = Σ dxᵢ ∧ dyᵢ, of size (2n+1) × (2n+1): +1 at (i, n+i),
/// −1 at (n+i, i), 0 elsewhere. It does not depend on the point.
pub fn standard_exterior_derivative(n: usize) -> (m: Vec<Vec<i64>>)
    requires
        dimension_fits(n),
    ensures
        m@.len() == dim_of(n as int),
        forall|i: int| 0 <= i < dim_of(n as int) ==> (#[trigger] m@[i])@.len() == dim_of(n as int),
        forall|i: int, j: int|
            0 <= i < dim_of(n as int) && 0 <= j < dim_of(n as int) ==> #[trigger] m@[i]@[j]
                == dalpha_entry(n as int, i, j),
        forall|i: int|
            0 <= i < n ==> #[trigger] m@[i]@[n + i] == 1 && m@[n + i]@[i] == -1,
        forall|i: int, j: int|
            0 <= i < dim_of(n as int) && 0 <= j < dim_of(n as int) && !(i < n && j == n + i) && !(
            n <= i < 2 * n && j == i - n) ==> #[trigger] m@[i]@[j] == 0,
{
    let dim = 2 * n + 1;
    let mut m: Vec<Vec<i64>> = Vec::new();
    for i in 0..dim
        invariant
            dim == dim_of(n as int),
            m@.len() == i,
            forall|k: int| 0 <= k < i ==> (#[trigger] m@[k])@.len() == dim,
            forall|k: int, j: int|
                0 <= k < i && 0 <= j < dim ==> #[trigger] m@[k]@[j] == dalpha_entry(
                    n as int,
                    k,
                    j,
                ),
    {
        let mut row: Vec<i64> = Vec::new();
        for j in 0..dim
            invariant
                dim == dim_of(n as int),
                i < dim,
                row@.len() == j,
                forall|k: int| 0 <= k < j ==> row@[k] == dalpha_entry(n as int, i as int, k),
        {
            let v: i64 = if i < n && j == n + i {
                1
            } else if n <= i && i < 2 * n && j == i - n {
                -1
            } else {
                0
            };
            row.push(v);
        }
        m.push(row);
    }
    m
}

/// Coefficients of α = dz − Σ yᵢ dxᵢ at the origin: (0, …, 0, 1).
pub fn alpha_at_origin(n: usize) -> (a: Vec<i64>)
    requires
        dimension_fits(n),
    ensures
        a@.len() == dim_of(n as int),
        forall|j: int| 0 <= j < dim_of(n as int) ==> a@[j] == alpha_entry(n as int, origin(n as int), j),
        a@[2 * n as int] == 1,
        forall|j: int| 0 <= j < dim_of(n as int) && j != 2 * n ==> a@[j] == 0,
{
    let dim = 2 * n + 1;
    let mut a: Vec<i64> = Vec::new();
    for j in 0..dim
        invariant
            dim == dim_of(n as int),
            a@.len() == j,
            forall|k: int| 0 <= k < j ==> a@[k] == alpha_entry(n as int, origin(n as int), k),
    {
        let v: i64 = if j == 2 * n {
            1
        } else {
            0
        };
        a.push(v);
    }
    a
}

/// The Reeb vector field R associated to the standard contact form,
/// defined by α(R) = 1 and dα(R, ·) = 0.
#[derive(Debug, Clone, Copy)]
pub struct ReebVectorField {
    pub n: usize,
}

impl ReebVectorField {
    pub fn new(n: usize) -> (r: Self)
        ensures
            r.n == n,
    {
        Self { n }
    }

    /// The Reeb vector field R = ∂/∂z: the unit vector at index 2n.
    /// It is the same at every point.
    pub fn evaluate(&self) -> (r: Vec<i64>)
        requires
            dimension_fits(self.n),
        ensures
            r@.len() == dim_of(self.n as int),
            forall|j: int| 0 <= j < dim_of(self.n as int) ==> r@[j] == reeb_entry(self.n as int, j),
            r@[2 * self.n as int] == 1,
            forall|j: int| 0 <= j < dim_of(self.n as int) && j != 2 * self.n ==> r@[j] == 0,
    {
        let dim = 2 * self.n + 1;
        let mut r: Vec<i64> = Vec::new();
        for j in 0..dim
            invariant
                dim == dim_of(self.n as int),
                r@.len() == j,
                forall|k: int| 0 <= k < j ==> r@[k] == reeb_entry(self.n as int, k),
        {
            let v: i64 = if j == 2 * self.n {
                1
            } else {
                0
            };
            r.push(v);
        }
        r
    }

    /// Checks the Reeb condition dα(R, ·) = 0 for the standard contact form
    /// with parameter `form_n`: every component of dα applied to R vanishes.
    pub fn verify_dalpha_condition(&self, form_n: usize) -> (ok: bool)
        requires
            self.n == form_n,
            dimension_fits(form_n),
        ensures
            ok == (forall|i: int|
                0 <= i < dim_of(form_n as int) ==> #[trigger] dalpha_contract_reeb(form_n as int, i)
                    == 0),
            ok,
    {
        let r = self.evaluate();
        let dalpha = standard_exterior_derivative(form_n);
        let dim = 2 * form_n + 1;
        let mut ok = true;
        for i in 0..dim
            invariant
                dim == dim_of(form_n as int),
                self.n == form_n,
                r@.len() == dim,
                forall|j: int| 0 <= j < dim ==> r@[j] == reeb_entry(form_n as int, j),
                dalpha@.len() == dim,
                forall|k: int| 0 <= k < dim ==> (#[trigger] dalpha@[k])@.len() == dim,
                forall|k: int, j: int|
                    0 <= k < dim && 0 <= j < dim ==> #[trigger] dalpha@[k]@[j] == dalpha_entry(
                        form_n as int,
                        k,
                        j,
                    ),
                ok == (forall|k: int|
                    0 <= k < i ==> #[trigger] dalpha_contract_reeb(form_n as int, k) == 0),
        {
            let row = &dalpha[i];
            let mut acc: i64 = 0;
            for j in 0..dim
                invariant
                    dim == dim_of(form_n as int),
                    i < dim,
                    row@.len() == dim,
                    r@.len() == dim,
                    forall|k: int| 0 <= k < dim ==> r@[k] == reeb_entry(form_n as int, k),
                    forall|k: int| 0 <= k < dim ==> row@[k] == dalpha_entry(form_n as int, i as int, k),
                    acc == 0,
                    acc == sum_to(dalpha_reeb_terms(form_n as int, i as int), j as int),
            {
                proof {
                    if j == 2 * form_n {
                        assert(dalpha_entry(form_n as int, i as int, j as int) == 0);
                    }
                    assert(dalpha_reeb_terms(form_n as int, i as int)(j as int) == 0);
                }
                acc = acc + row[j] * r[j];
            }
            if acc != 0 {
                ok = false;
            }
        }
        proof {
            lemma_reeb_in_kernel_of_dalpha(form_n as int);
        }
        ok
    }
}

/// dα is skew-symmetric: its (i, j) coefficient is minus its (j, i) coefficient.
pub proof fn lemma_dalpha_skew_symmetric(n: int)
    ensures
        forall|i: int, j: int| #[trigger] dalpha_entry(n, i, j) == -dalpha_entry(n, j, i),
{
}

/// The Reeb field lies in the kernel of dα: every component of dα(R, ·) is zero.
pub proof fn lemma_reeb_in_kernel_of_dalpha(n: int)
    requires
        n >= 0,
    ensures
        forall|i: int| 0 <= i < dim_of(n) ==> #[trigger] dalpha_contract_reeb(n, i) == 0,
{
    assert forall|i: int| 0 <= i < dim_of(n) implies #[trigger] dalpha_contract_reeb(n, i) == 0 by {
        assert forall|j: int| 0 <= j < dim_of(n) implies #[trigger] dalpha_reeb_terms(n, i)(j)
            == 0 by {
            if j == 2 * n {
                assert(dalpha_entry(n, i, j) == 0);
            }
        }
        lemma_sum_of_zeros(dalpha_reeb_terms(n, i), dim_of(n));
    }
}

/// The Reeb field is normalised by α: α_p(R) = 1 at every point p.
pub proof fn lemma_alpha_of_reeb_is_one(n: int, p: Seq<int>)
    requires
        n >= 0,
        p.len() == dim_of(n),
    ensures
        alpha_of_reeb(n, p) == 1,
{
    assert forall|j: int| 0 <= j < dim_of(n) && j != 2 * n implies #[trigger] alpha_reeb_terms(
        n,
        p,
    )(j) == 0 by {}
    lemma_sum_single(alpha_reeb_terms(n, p), dim_of(n), 2 * n);
}

/// The (2n+1) × (2n+1) matrix whose determinant is the top form α ∧ (dα)ⁿ at p:
/// row 0 holds α_p and row r ≥ 1 holds row r − 1 of dα.
pub open spec fn top_form_matrix(n: int, p: Seq<int>) -> spec_fn(int, int) -> int {
    |r: int, c: int|
        if r == 0 {
            alpha_entry(n, p, c)
        } else {
            dalpha_entry(n, r - 1, c)
        }
}

/// The top form α ∧ (dα)ⁿ of the standard contact form at p.
pub open spec fn volume_at(n: int, p: Seq<int>) -> int {
    det(top_form_matrix(n, p), dim_of(n) as nat)
}

/// The standard form is contact everywhere: α ∧ (dα)ⁿ = 1 at every point p.
pub proof fn lemma_standard_form_is_contact(n: nat, p: Seq<int>)
    requires
        p.len() == dim_of(n as int),
    ensures
        volume_at(n as int, p) == 1,
{
    let ni = n as int;
    let k = (2 * n + 1) as nat;
    let m = top_form_matrix(ni, p);
    // The x-columns: deleting column i leaves the row of dyᵢ-coefficients empty.
    assert forall|i: int| 0 <= i < k && i != 2 * ni implies #[trigger] cofactor_term(m, k, i)
        == 0 by {
        let mi = first_row_minor(m, i);
        if i < ni {
            assert forall|c: int| 0 <= c < k - 1 implies #[trigger] mi(ni + i, c) == 0 by {
                if c < i {
                    assert(dalpha_entry(ni, ni + i, c) == 0);
                } else {
                    assert(dalpha_entry(ni, ni + i, c + 1) == 0);
                }
            }
            assert(zero_row(mi, (k - 1) as nat, ni + i));
            lemma_det_zero_row(mi, (k - 1) as nat, ni + i);
        } else {
            assert(m(0, i) == 0);
        }
        lemma_product_with_zero_factor(alternating_sign(i), m(0, i), det(mi, (k - 1) as nat));
    }
    // The z-column: what is left is dα on the 2n coordinates (x, y), the block
    // matrix [[0, I_n], [−I_n, 0]], of determinant 1.
    let s = first_row_minor(m, 2 * ni);
    assert forall|r: int, c: int| 0 <= r < n + n && 0 <= c < n + n implies #[trigger] s(r, c)
        == block_entry(ni, ni, r, c) by {}
    lemma_det_block(s, n, n);
    lemma_symplectic_block_det(n);
    assert((k - 1) as nat == (n + n) as nat);
    lemma_cofactor_sum_single(m, k, k, 2 * ni);
    assert(m(0, 2 * ni) == 1);
    assert(alternating_sign(2 * ni) == 1);
}

/// The vector with components v[0], …, v[2n] as a function of the index.
pub open spec fn components(v: Seq<int>) -> spec_fn(int) -> int {
    |j: int| v[j]
}

/// The terms of component i of dα applied to v.
pub open spec fn dalpha_apply_terms(n: int, v: spec_fn(int) -> int, i: int) -> spec_fn(int) -> int {
    |l: int| dalpha_entry(n, i, l) * v(l)
}

/// Component i of dα(v, ·), the product of dα's matrix with v.
pub open spec fn dalpha_apply(n: int, v: spec_fn(int) -> int, i: int) -> int {
    sum_to(dalpha_apply_terms(n, v, i), dim_of(n))
}

/// The terms of the pairing α_p(v).
pub open spec fn alpha_pairing_terms(n: int, p: Seq<int>, v: spec_fn(int) -> int) -> spec_fn(
    int,
) -> int {
    |j: int| alpha_entry(n, p, j) * v(j)
}

/// The pairing α_p(v).
pub open spec fn alpha_pairing(n: int, p: Seq<int>, v: spec_fn(int) -> int) -> int {
    sum_to(alpha_pairing_terms(n, p, v), dim_of(n))
}

/// The coordinate vector with a 1 in component k.
pub open spec fn coordinate_vector(k: int) -> spec_fn(int) -> int {
    |j: int|
        if j == k {
            1
        } else {
            0
        }
}

/// dα = Σ dxᵢ ∧ dyᵢ does not involve z: its row and its column of index 2n are zero.
pub proof fn lemma_dalpha_ignores_z(n: int)
    requires
        n >= 0,
    ensures
        forall|i: int| #[trigger] dalpha_entry(n, i, 2 * n) == 0 && dalpha_entry(n, 2 * n, i) == 0,
{
}

/// dα(v, ·) = 0 forces every x- and y-component of v to vanish: the kernel of
/// dα is the z-axis.
pub proof fn lemma_kernel_of_dalpha_is_z_axis(n: int, v: Seq<int>)
    requires
        n >= 0,
        v.len() == dim_of(n),
        forall|i: int| 0 <= i < dim_of(n) ==> #[trigger] dalpha_apply(n, components(v), i) == 0,
    ensures
        forall|j: int| 0 <= j < 2 * n ==> v[j] == 0,
{
    assert forall|j: int| 0 <= j < 2 * n implies v[j] == 0 by {
        if j < n {
            // Component n + j of dα(v, ·) is −v[j].
            let i = n + j;
            assert forall|l: int| 0 <= l < dim_of(n) && l != j implies #[trigger] dalpha_apply_terms(
                n,
                components(v),
                i,
            )(l) == 0 by {}
            lemma_sum_single(dalpha_apply_terms(n, components(v), i), dim_of(n), j);
            assert(dalpha_apply(n, components(v), i) == 0);
        } else {
            // Component j − n of dα(v, ·) is v[j].
            let i = j - n;
            assert forall|l: int| 0 <= l < dim_of(n) && l != j implies #[trigger] dalpha_apply_terms(
                n,
                components(v),
                i,
            )(l) == 0 by {}
            lemma_sum_single(dalpha_apply_terms(n, components(v), i), dim_of(n), j);
            assert(dalpha_apply(n, components(v), i) == 0);
        }
    }
}

/// The Reeb field is unique: a vector v with dα(v, ·) = 0 and α_p(v) = 1 at
/// some point p is ∂/∂z, the unit vector of index 2n.
pub proof fn lemma_reeb_field_unique(n: int, p: Seq<int>, v: Seq<int>)
    requires
        n >= 0,
        p.len() == dim_of(n),
        v.len() == dim_of(n),
        forall|i: int| 0 <= i < dim_of(n) ==> #[trigger] dalpha_apply(n, components(v), i) == 0,
        alpha_pairing(n, p, components(v)) == 1,
    ensures
        v[2 * n] == 1,
        forall|j: int| 0 <= j < dim_of(n) && j != 2 * n ==> v[j] == 0,
{
    lemma_kernel_of_dalpha_is_z_axis(n, v);
    assert forall|j: int| 0 <= j < dim_of(n) && j != 2 * n implies #[trigger] alpha_pairing_terms(
        n,
        p,
        components(v),
    )(j) == 0 by {
        assert(v[j] == 0);
    }
    lemma_sum_single(alpha_pairing_terms(n, p, components(v)), dim_of(n), 2 * n);
}

/// α_p on the coordinate vectors: α_p(∂/∂xᵢ) = −yᵢ, α_p(∂/∂yᵢ) = 0 and α_p(∂/∂z) = 1.
pub proof fn lemma_alpha_on_coordinate_vectors(n: int, p: Seq<int>)
    requires
        n >= 0,
        p.len() == dim_of(n),
    ensures
        forall|i: int| 0 <= i < n ==> #[trigger] alpha_pairing(n, p, coordinate_vector(i)) == -p[n + i],
        forall|i: int| 0 <= i < n ==> #[trigger] alpha_pairing(n, p, coordinate_vector(n + i)) == 0,
        alpha_pairing(n, p, coordinate_vector(2 * n)) == 1,
{
    assert forall|k: int| 0 <= k < dim_of(n) implies #[trigger] alpha_pairing(
        n,
        p,
        coordinate_vector(k),
    ) == alpha_entry(n, p, k) by {
        assert forall|j: int| 0 <= j < dim_of(n) && j != k implies #[trigger] alpha_pairing_terms(
            n,
            p,
            coordinate_vector(k),
        )(j) == 0 by {}
        lemma_sum_single(alpha_pairing_terms(n, p, coordinate_vector(k)), dim_of(n), k);
    }
    assert forall|i: int| 0 <= i < n implies #[trigger] alpha_pairing(n, p, coordinate_vector(i))
        == -p[n + i] by {
        assert(alpha_pairing(n, p, coordinate_vector(i)) == alpha_entry(n, p, i));
    }
    assert forall|i: int| 0 <= i < n implies #[trigger] alpha_pairing(
        n,
        p,
        coordinate_vector(n + i),
    ) == 0 by {
        assert(alpha_pairing(n, p, coordinate_vector(n + i)) == alpha_entry(n, p, n + i));
    }
    assert(alpha_pairing(n, p, coordinate_vector(2 * n)) == alpha_entry(n, p, 2 * n));
}

} // verus!
