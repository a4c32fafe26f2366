//! Determinants of square integer matrices, by cofactor expansion along the
//! first row. A matrix of size k is given by its entries m(r, c), 0 ≤ r, c < k.

use vstd::prelude::*;

verus! {

/// (−1)^j.
pub open spec fn alternating_sign(j: int) -> int {
    if j % 2 == 0 {
        1
    } else {
        -1
    }
}

/// The matrix left when row 0 and column j are deleted.
pub open spec fn first_row_minor(m: spec_fn(int, int) -> int, j: int) -> spec_fn(int, int) -> int {
    |r: int, c: int|
        m(
            r + 1,
            if c < j {
                c
            } else {
                c + 1
            },
        )
}

/// The determinant of the k × k matrix m.
pub open spec fn det(m: spec_fn(int, int) -> int, k: nat) -> int
    decreases k, k + 1,
{
    if k == 0 {
        1
    } else {
        cofactor_sum(m, k, k)
    }
}

/// Σ_{i < j} (−1)^i · m(0, i) · det(minor of m at (0, i)), for a k × k matrix m.
pub open spec fn cofactor_sum(m: spec_fn(int, int) -> int, k: nat, j: nat) -> int
    decreases k, j,
{
    if j == 0 || k == 0 {
        0
    } else {
        cofactor_sum(m, k, (j - 1) as nat) + alternating_sign(j - 1) * m(0, j - 1) * det(
            first_row_minor(m, j - 1),
            (k - 1) as nat,
        )
    }
}

/// The cofactor term of column i in the expansion of det(m) along row 0.
pub open spec fn cofactor_term(m: spec_fn(int, int) -> int, k: nat, i: int) -> int {
    alternating_sign(i) * m(0, i) * det(first_row_minor(m, i), (k - 1) as nat)
}

/// Row r0 of the k × k matrix m is zero.
pub open spec fn zero_row(m: spec_fn(int, int) -> int, k: nat, r0: int) -> bool {
    forall|c: int| 0 <= c < k ==> #[trigger] m(r0, c) == 0
}

/// Entry (r, c) of the (a + b) × (a + b) block matrix [[0, I_a], [−I_b, 0]]:
/// row r < a holds +1 in column b + r, row a + s holds −1 in column s.
pub open spec fn block_entry(a: int, b: int, r: int, c: int) -> int {
    if 0 <= r < a && c == b + r {
        1
    } else if a <= r < a + b && c == r - a {
        -1
    } else {
        0
    }
}

/// The determinant of [[0, I_a], [−I_b, 0]], by the recurrence of its
/// first-row expansion.
pub open spec fn block_det(a: nat, b: nat) -> int
    decreases a, b,
{
    if a > 0 {
        if b % 2 == 0 {
            block_det((a - 1) as nat, b)
        } else {
            -block_det((a - 1) as nat, b)
        }
    } else if b > 0 {
        -block_det(0, (b - 1) as nat)
    } else {
        1
    }
}

/// A product with a vanishing factor vanishes.
pub proof fn lemma_product_with_zero_factor(s: int, a: int, d: int)
    by (nonlinear_arith)
    requires
        a == 0 || d == 0,
    ensures
        s * a * d == 0,
{
}

/// A cofactor sum whose terms all vanish is zero.
pub proof fn lemma_cofactor_sum_zero(m: spec_fn(int, int) -> int, k: nat, j: nat)
    requires
        k > 0,
        forall|i: int| 0 <= i < j ==> #[trigger] cofactor_term(m, k, i) == 0,
    ensures
        cofactor_sum(m, k, j) == 0,
    decreases j,
{
    if j > 0 {
        assert(cofactor_term(m, k, j - 1) == 0);
        lemma_cofactor_sum_zero(m, k, (j - 1) as nat);
    }
}

/// A cofactor sum whose terms vanish everywhere but at column i0 equals that term.
pub proof fn lemma_cofactor_sum_single(m: spec_fn(int, int) -> int, k: nat, j: nat, i0: int)
    requires
        k > 0,
        0 <= i0 < j,
        forall|i: int| 0 <= i < j && i != i0 ==> #[trigger] cofactor_term(m, k, i) == 0,
    ensures
        cofactor_sum(m, k, j) == cofactor_term(m, k, i0),
    decreases j,
{
    if j - 1 == i0 {
        lemma_cofactor_sum_zero(m, k, (j - 1) as nat);
    } else {
        assert(cofactor_term(m, k, j - 1) == 0);
        lemma_cofactor_sum_single(m, k, (j - 1) as nat, i0);
    }
}

/// A matrix with a zero row has determinant zero.
pub proof fn lemma_det_zero_row(m: spec_fn(int, int) -> int, k: nat, r0: int)
    requires
        0 <= r0 < k,
        zero_row(m, k, r0),
    ensures
        det(m, k) == 0,
    decreases k,
{
    assert forall|i: int| 0 <= i < k implies #[trigger] cofactor_term(m, k, i) == 0 by {
        if r0 == 0 {
            assert(m(0, i) == 0);
            lemma_product_with_zero_factor(
                alternating_sign(i),
                m(0, i),
                det(first_row_minor(m, i), (k - 1) as nat),
            );
        } else {
            let mi = first_row_minor(m, i);
            assert forall|c: int| 0 <= c < k - 1 implies #[trigger] mi(r0 - 1, c) == 0 by {
                if c < i {
                    assert(m(r0, c) == 0);
                } else {
                    assert(m(r0, c + 1) == 0);
                }
            }
            lemma_det_zero_row(mi, (k - 1) as nat, r0 - 1);
            lemma_product_with_zero_factor(alternating_sign(i), m(0, i), det(mi, (k - 1) as nat));
        }
    }
    lemma_cofactor_sum_zero(m, k, k);
}

/// The block matrix [[0, I_a], [−I_b, 0]] has determinant `block_det(a, b)`.
pub proof fn lemma_det_block(m: spec_fn(int, int) -> int, a: nat, b: nat)
    requires
        forall|r: int, c: int|
            0 <= r < a + b && 0 <= c < a + b ==> #[trigger] m(r, c) == block_entry(a as int, b as int, r, c),
    ensures
        det(m, a + b) == block_det(a, b),
    decreases a, b,
{
    let k = (a + b) as nat;
    if a > 0 {
        let bi = b as int;
        let mi = first_row_minor(m, bi);
        assert forall|r: int, c: int| 0 <= r < a - 1 + b && 0 <= c < a - 1 + b implies #[trigger] mi(
            r,
            c,
        ) == block_entry(a - 1, bi, r, c) by {
            if c < bi {
                assert(m(r + 1, c) == block_entry(a as int, bi, r + 1, c));
            } else {
                assert(m(r + 1, c + 1) == block_entry(a as int, bi, r + 1, c + 1));
            }
        }
        lemma_det_block(mi, (a - 1) as nat, b);
        assert forall|i: int| 0 <= i < k && i != bi implies #[trigger] cofactor_term(m, k, i)
            == 0 by {
            assert(m(0, i) == block_entry(a as int, bi, 0, i));
            lemma_product_with_zero_factor(
                alternating_sign(i),
                m(0, i),
                det(first_row_minor(m, i), (k - 1) as nat),
            );
        }
        lemma_cofactor_sum_single(m, k, k, bi);
        assert(m(0, bi) == block_entry(a as int, bi, 0, bi));
        assert(m(0, bi) == 1);
        assert((k - 1) as nat == ((a - 1) as nat + b) as nat);
        assert(det(m, k) == cofactor_term(m, k, bi));
        let sg = alternating_sign(bi);
        let d = det(mi, (k - 1) as nat);
        assert(det(m, k) == sg * 1 * d);
        if b % 2 == 0 {
            assert(sg == 1);
            assert(sg * 1 * d == d) by (nonlinear_arith)
                requires
                    sg == 1,
            ;
        } else {
            assert(sg == -1);
            assert(sg * 1 * d == -d) by (nonlinear_arith)
                requires
                    sg == -1,
            ;
        }
    } else if b > 0 {
        let mi = first_row_minor(m, 0);
        assert forall|r: int, c: int| 0 <= r < b - 1 && 0 <= c < b - 1 implies #[trigger] mi(r, c)
            == block_entry(0, b - 1, r, c) by {
            assert(m(r + 1, c + 1) == block_entry(0, b as int, r + 1, c + 1));
        }
        lemma_det_block(mi, 0, (b - 1) as nat);
        assert forall|i: int| 0 <= i < k && i != 0 implies #[trigger] cofactor_term(m, k, i)
            == 0 by {
            assert(m(0, i) == block_entry(0, b as int, 0, i));
            lemma_product_with_zero_factor(
                alternating_sign(i),
                m(0, i),
                det(first_row_minor(m, i), (k - 1) as nat),
            );
        }
        lemma_cofactor_sum_single(m, k, k, 0);
        assert(m(0, 0) == block_entry(0, b as int, 0, 0));
        assert(m(0, 0) == -1);
        assert(alternating_sign(0) == 1);
        assert((k - 1) as nat == (0 + (b - 1) as nat) as nat);
        assert(det(m, k) == cofactor_term(m, k, 0));
        let d = det(mi, (k - 1) as nat);
        assert(det(m, k) == 1 * (-1) * d);
        assert(1 * (-1) * d == -d) by (nonlinear_arith);
    }
}

/// det [[0, I_a], [−I_b, 0]] with b even is 1.
pub proof fn lemma_block_det_even(a: nat, b: nat)
    requires
        b % 2 == 0,
    ensures
        block_det(a, b) == 1,
    decreases a, b,
{
    if a > 0 {
        lemma_block_det_even((a - 1) as nat, b);
    } else if b > 0 {
        lemma_block_det_odd_column(0, (b - 1) as nat);
    }
}

/// det [[0, I_a], [−I_b, 0]] with b odd is (−1)^(a+1).
pub proof fn lemma_block_det_odd_column(a: nat, b: nat)
    requires
        b % 2 == 1,
    ensures
        block_det(a, b) == alternating_sign(a as int + 1),
    decreases a, b,
{
    if a > 0 {
        lemma_block_det_odd_column((a - 1) as nat, b);
    } else {
        lemma_block_det_even(0, (b - 1) as nat);
    }
}

/// det [[0, I_n], [−I_n, 0]] = 1.
pub proof fn lemma_symplectic_block_det(n: nat)
    ensures
        block_det(n, n) == 1,
{
    if n % 2 == 0 {
        lemma_block_det_even(n, n);
    } else {
        lemma_block_det_odd_column(n, n);
    }
}

} // verus!
