//! Gray stability: the outcome of checking that the linear interpolation
//! αₜ = (1 − t)α₀ + tα₁ stays contact at the sampled times tₖ = k / steps.

use vstd::prelude::*;
use crate::contact_form::{dim_of, dimension_fits, reeb_entry};

verus! {

/// Gray stability result: whether two contact structures are isotopic.
#[derive(Debug, Clone, Copy)]
pub struct GrayStability {
    pub n: usize,
    /// Whether the two contact forms are isotopic.
    pub is_isotopic: bool,
    /// The number of interpolation steps.
    pub interpolation_steps: usize,
}

impl GrayStability {
    /// Decides the path check from the contact tests of the sampled times, in
    /// order: `contact_at_step[k]` tells whether αₜ is contact at the k-th of
    /// the `steps + 1` samples. Sampling stops at the first sample that is not
    /// contact, so the tests given may be a prefix of all samples. The path is
    /// isotopic exactly when all `steps + 1` samples were tested and every one
    /// is contact.
    pub fn from_step_checks(n: usize, steps: usize, contact_at_step: &Vec<bool>) -> (r: Self)
        requires
            contact_at_step@.len() <= steps + 1,
        ensures
            r.n == n,
            r.interpolation_steps == steps,
            r.is_isotopic == (contact_at_step@.len() == steps + 1 && forall|k: int|
                0 <= k < contact_at_step@.len() ==> #[trigger] contact_at_step@[k]),
    {
        let len = contact_at_step.len();
        let mut is_stable = true;
        let mut k: usize = 0;
        while k < len
            invariant
                len == contact_at_step@.len(),
                k <= len,
                is_stable == (forall|j: int| 0 <= j < k ==> #[trigger] contact_at_step@[j]),
            decreases len - k,
        {
            if !contact_at_step[k] {
                is_stable = false;
            }
            k = k + 1;
        }
        let sampled_all = len > steps;
        GrayStability { n, is_isotopic: is_stable && sampled_all, interpolation_steps: steps }
    }

    /// The Moser-type vector field of the Gray isotopy, in the simplified form
    /// that keeps only its Reeb component: the unit vector ∂/∂z.
    pub fn moser_vector_field(&self) -> (x: Vec<i64>)
        requires
            dimension_fits(self.n),
        ensures
            x@.len() == dim_of(self.n as int),
            forall|j: int| 0 <= j < dim_of(self.n as int) ==> x@[j] == reeb_entry(self.n as int, j),
            x@[2 * self.n as int] == 1,
            forall|j: int| 0 <= j < dim_of(self.n as int) && j != 2 * self.n ==> x@[j] == 0,
    {
        let dim = 2 * self.n + 1;
        let mut x: Vec<i64> = Vec::new();
        for j in 0..dim
            invariant
                dim == dim_of(self.n as int),
                x@.len() == j,
                forall|k: int| 0 <= k < j ==> x@[k] == reeb_entry(self.n as int, k),
        {
            let v: i64 = if j == 2 * self.n {
                1
            } else {
                0
            };
            x.push(v);
        }
        x
    }
}

} // verus!
