//! The engine's general guarantees, stated once for all inputs and proved
//! against the same spec functions that the operations' contracts use.

use vstd::prelude::*;
use crate::arith::{lemma_ceil_div_bounds, lemma_floor_div_bounds, lemma_mul_div_cancel};
use crate::engine::{
    lemma_deposit_ratio_bounds, lemma_swap_fee_keeps_input, spec_deposit_amount,
    spec_deposit_ratio, spec_swap_amount_in, spec_swap_exact_in, spec_swap_in_with_fee,
    spec_withdraw_amount, spec_withdraw_ratio, FEE_DENOMINATOR, RATIO_SCALE,
};
use vstd::arithmetic::mul::lemma_mul_nonnegative;

verus! {

/// Invariant monotonicity. For every valid swap the reserve product never
/// decreases, and on a real trade (something is taken out of a funded
/// input reserve) with a positive fee it strictly grows: the collected
/// fee stays inside the reserves.
pub proof fn lemma_swap_product_monotone(
    reserve_in: u64,
    reserve_out: u64,
    fee_bps: u16,
    amount_out: u64,
)
    requires
        amount_out < reserve_out,
    ensures
        ({
            let amount_in = spec_swap_amount_in(
                reserve_in as int,
                reserve_out as int,
                fee_bps as int,
                amount_out as int,
            );
            &&& (reserve_in + amount_in) * (reserve_out - amount_out) >= reserve_in * reserve_out
            &&& (fee_bps > 0 && amount_out > 0 && reserve_in > 0 ==> (reserve_in + amount_in) * (
            reserve_out - amount_out) > reserve_in * reserve_out)
        }),
{
    let r_in = reserve_in as int;
    let r_out = reserve_out as int;
    let amt = amount_out as int;
    let fee = fee_bps as int;
    let new_out = r_out - amt;
    let denom = FEE_DENOMINATOR as int;
    let exact = spec_swap_exact_in(r_in, r_out, amt);
    let amount_in = spec_swap_in_with_fee(exact, fee);
    lemma_mul_nonnegative(r_in, amt);
    lemma_ceil_div_bounds(r_in * amt, new_out);
    lemma_swap_fee_keeps_input(exact, fee);
    assert((r_in + amount_in) * new_out >= r_in * r_out) by (nonlinear_arith)
        requires
            exact * new_out >= r_in * amt,
            amount_in >= exact,
            r_out == new_out + amt,
            0 <= exact,
            0 <= r_in,
            0 <= amt,
            1 <= new_out,
    ;
    if fee_bps > 0 && amount_out > 0 && reserve_in > 0 {
        assert(1 <= r_in * amt) by (nonlinear_arith)
            requires
                1 <= r_in,
                1 <= amt,
        ;
        assert(1 <= exact) by (nonlinear_arith)
            requires
                exact * new_out >= r_in * amt,
                1 <= r_in * amt,
                1 <= new_out,
                0 <= exact,
        ;
        lemma_mul_nonnegative(exact, denom + fee);
        lemma_ceil_div_bounds(exact * (denom + fee), denom);
        assert(exact + 1 <= amount_in) by (nonlinear_arith)
            requires
                amount_in * denom >= exact * (denom + fee),
                1 <= exact,
                1 <= fee,
                denom == 10000,
        ;
        assert((r_in + amount_in) * new_out > r_in * r_out) by (nonlinear_arith)
            requires
                exact * new_out >= r_in * amt,
                amount_in >= exact + 1,
                r_out == new_out + amt,
                0 <= exact,
                0 <= r_in,
                0 <= amt,
                1 <= new_out,
        ;
    }
}

/// Fee rounding never favors the trader: the fee-inclusive input, scaled
/// back by the fee denominator, always covers the exact input grossed up
/// by the fee rate.
pub proof fn lemma_swap_fee_rounding(
    reserve_in: u64,
    reserve_out: u64,
    fee_bps: u16,
    amount_out: u64,
)
    requires
        amount_out < reserve_out,
    ensures
        ({
            let exact = spec_swap_exact_in(reserve_in as int, reserve_out as int, amount_out as int);
            spec_swap_in_with_fee(exact, fee_bps as int) * FEE_DENOMINATOR >= exact * (
            FEE_DENOMINATOR + fee_bps)
        }),
{
    let r_in = reserve_in as int;
    let amt = amount_out as int;
    let new_out = reserve_out - amount_out;
    let denom = FEE_DENOMINATOR as int;
    let exact = spec_swap_exact_in(r_in, reserve_out as int, amt);
    lemma_mul_nonnegative(r_in, amt);
    lemma_ceil_div_bounds(r_in * amt, new_out as int);
    lemma_mul_nonnegative(exact, denom + fee_bps);
    lemma_ceil_div_bounds(exact * (denom + fee_bps), denom);
}

/// Proportionality of withdrawal: the payout of one reserve, as a
/// fraction of that reserve, matches the redeemed fraction of the LP
/// supply. Rounding is always downward (first bound), and falls short of
/// the exact fraction by less than one payout unit plus one part in the
/// fixed-point scale of the reserve (second bound).
pub proof fn lemma_withdraw_proportional(reserve: u64, lp_amount: u64, lp_supply: u64)
    requires
        0 < lp_amount <= lp_supply,
    ensures
        ({
            let amount = spec_withdraw_amount(reserve as int, lp_amount as int, lp_supply as int);
            &&& amount * lp_supply <= reserve * lp_amount
            &&& reserve * lp_amount * RATIO_SCALE < (amount + 1) * lp_supply * RATIO_SCALE
                + reserve * lp_supply
        }),
{
    let r = reserve as int;
    let lp = lp_amount as int;
    let supply = lp_supply as int;
    let scale = RATIO_SCALE as int;
    let ratio = spec_withdraw_ratio(lp, supply);
    let amount = spec_withdraw_amount(r, lp, supply);
    lemma_floor_div_bounds(lp * scale, supply);
    lemma_mul_nonnegative(r, ratio);
    lemma_floor_div_bounds(r * ratio, scale);
    assert(amount * supply <= r * lp) by (nonlinear_arith)
        requires
            ratio * supply <= lp * scale,
            amount * scale <= r * ratio,
            0 <= r,
            0 < supply,
            0 <= ratio,
            0 <= amount,
            scale == 1000000,
    ;
    assert(r * lp * scale < (amount + 1) * supply * scale + r * supply) by (nonlinear_arith)
        requires
            lp * scale < ratio * supply + supply,
            r * ratio < amount * scale + scale,
            0 <= r,
            0 < supply,
            0 <= ratio,
            0 <= amount,
            0 <= lp,
            scale == 1000000,
    ;
}

/// Full withdrawal drains exactly: redeeming the whole LP supply pays out
/// both reserves to the last unit, leaving nothing behind.
pub proof fn lemma_full_withdrawal_drains(reserve_a: u64, reserve_b: u64, lp_supply: u64)
    requires
        0 < lp_supply,
    ensures
        spec_withdraw_amount(reserve_a as int, lp_supply as int, lp_supply as int)
            == reserve_a as int,
        spec_withdraw_amount(reserve_b as int, lp_supply as int, lp_supply as int)
            == reserve_b as int,
{
    let supply = lp_supply as int;
    let scale = RATIO_SCALE as int;
    lemma_mul_div_cancel(scale, supply);
    assert(supply * scale == scale * supply);
    assert(spec_withdraw_ratio(supply, supply) == scale);
    lemma_mul_div_cancel(reserve_a as int, scale);
    lemma_mul_div_cancel(reserve_b as int, scale);
}

/// Deposit price invariance: a deposit into a non-empty pool grows both
/// reserves by one common ratio, so the grown reserves state the same
/// price as the old ones up to less than one unit of either asset
/// (cross-multiplied, each side undershoots the other by less than one
/// reserve unit).
pub proof fn lemma_deposit_preserves_price(reserve_a: u64, reserve_b: u64, lp_requested: u64)
    requires
        0 < reserve_a,
        0 < reserve_b,
    ensures
        ({
            let ratio = spec_deposit_ratio(reserve_a as int, reserve_b as int, lp_requested as int);
            let grown_a = reserve_a + spec_deposit_amount(reserve_a as int, ratio);
            let grown_b = reserve_b + spec_deposit_amount(reserve_b as int, ratio);
            &&& grown_a * reserve_b < grown_b * reserve_a + reserve_a
            &&& grown_b * reserve_a < grown_a * reserve_b + reserve_b
        }),
{
    let r_a = reserve_a as int;
    let r_b = reserve_b as int;
    let scale = RATIO_SCALE as int;
    let ratio = spec_deposit_ratio(r_a, r_b, lp_requested as int);
    let grown_a = r_a + spec_deposit_amount(r_a, ratio);
    let grown_b = r_b + spec_deposit_amount(r_b, ratio);
    lemma_deposit_ratio_bounds(r_a, r_b, lp_requested as int);
    lemma_mul_nonnegative(ratio, r_a);
    lemma_mul_nonnegative(ratio, r_b);
    lemma_floor_div_bounds(ratio * r_a, scale);
    lemma_floor_div_bounds(ratio * r_b, scale);
    assert(grown_a == ratio * r_a / scale);
    assert(grown_b == ratio * r_b / scale);
    assert(grown_a * r_b < grown_b * r_a + r_a) by (nonlinear_arith)
        requires
            grown_a * scale <= ratio * r_a,
            ratio * r_b < grown_b * scale + scale,
            0 < r_a,
            0 < r_b,
            0 <= ratio,
            0 <= grown_a,
            0 <= grown_b,
            scale == 1000000,
    ;
    assert(grown_b * r_a < grown_a * r_b + r_b) by (nonlinear_arith)
        requires
            grown_b * scale <= ratio * r_b,
            ratio * r_a < grown_a * scale + scale,
            0 < r_a,
            0 < r_b,
            0 <= ratio,
            0 <= grown_a,
            0 <= grown_b,
            scale == 1000000,
    ;
}

} // verus!
