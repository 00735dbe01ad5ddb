//! Division and rounding facts that the invariant engine's proofs share.

use vstd::prelude::*;
use vstd::arithmetic::div_mod::{
    lemma_div_is_ordered, lemma_div_multiples_vanish, lemma_div_multiples_vanish_fancy,
    lemma_div_pos_is_pos, lemma_fundamental_div_mod, lemma_mod_bound,
};
use vstd::arithmetic::mul::{lemma_mul_inequality, lemma_mul_is_commutative};

verus! {

/// The quotient of `x` by `d` rounded toward positive infinity;
/// meaningful for `x >= 0` and `d > 0`.
pub open spec fn ceil_div(x: int, d: int) -> int {
    (x + d - 1) / d
}

/// Floor division stays within `(x - d, x]` after multiplying back.
pub proof fn lemma_floor_div_bounds(x: int, d: int)
    requires
        0 <= x,
        0 < d,
    ensures
        0 <= x / d,
        (x / d) * d <= x,
        x < (x / d) * d + d,
{
    lemma_fundamental_div_mod(x, d);
    lemma_mod_bound(x, d);
    lemma_div_pos_is_pos(x, d);
    lemma_mul_is_commutative(x / d, d);
}

/// Ceiling division stays within `[x, x + d)` after multiplying back.
pub proof fn lemma_ceil_div_bounds(x: int, d: int)
    requires
        0 <= x,
        0 < d,
    ensures
        0 <= ceil_div(x, d),
        x <= ceil_div(x, d) * d,
        ceil_div(x, d) * d < x + d,
{
    lemma_floor_div_bounds(x + d - 1, d);
}

/// Ceiling division does not shrink when the dividend grows.
pub proof fn lemma_ceil_div_ordered(x: int, y: int, d: int)
    requires
        0 <= x <= y,
        0 < d,
    ensures
        ceil_div(x, d) <= ceil_div(y, d),
{
    lemma_div_is_ordered(x + d - 1, y + d - 1, d);
}

/// Ceiling division is exact on multiples of the divisor.
pub proof fn lemma_ceil_div_exact(a: int, d: int)
    requires
        0 <= a,
        0 < d,
    ensures
        ceil_div(a * d, d) == a,
{
    lemma_div_multiples_vanish_fancy(a, d - 1, d);
    lemma_mul_is_commutative(a, d);
    assert(a * d + d - 1 == d * a + (d - 1));
}

/// Whether a product exceeds a bound can be read off a single floor
/// division: `a * d > m` exactly when `a > m / d`.
pub proof fn lemma_mul_gt_iff_div(a: int, d: int, m: int)
    requires
        0 <= a,
        0 < d,
        0 <= m,
    ensures
        a * d > m <==> a > m / d,
{
    lemma_floor_div_bounds(m, d);
    let q = m / d;
    if a > q {
        assert(a * d > m) by (nonlinear_arith)
            requires
                a >= q + 1,
                q * d <= m,
                m < q * d + d,
                d > 0,
        ;
    }
    if a <= q {
        assert(a * d <= m) by (nonlinear_arith)
            requires
                0 <= a <= q,
                q * d <= m,
                d > 0,
        ;
    }
}

/// Dividing a scaled value by the scale recovers the value.
pub proof fn lemma_mul_div_cancel(a: int, d: int)
    requires
        0 < d,
    ensures
        (a * d) / d == a,
{
    lemma_div_multiples_vanish(a, d);
    lemma_mul_is_commutative(a, d);
}

} // verus!
