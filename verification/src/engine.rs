//! The invariant engine: pure arithmetic of the four pool operations.
//!
//! Every function here computes amounts only; moving funds is the caller's
//! business. Reserves and the LP-share supply are read fresh by the caller
//! at the start of an operation and passed in as plain values.

use vstd::prelude::*;
use crate::arith::{
    ceil_div, lemma_ceil_div_bounds, lemma_ceil_div_exact, lemma_ceil_div_ordered,
    lemma_floor_div_bounds, lemma_mul_div_cancel, lemma_mul_gt_iff_div,
};
use crate::error::AmmError;
use vstd::arithmetic::div_mod::lemma_div_is_ordered;
use vstd::arithmetic::mul::{lemma_mul_inequality, lemma_mul_is_commutative, lemma_mul_upper_bound};

verus! {

/// Fixed-point scale used to carry sub-unit precision through the ratio
/// computations of deposits and withdrawals.
pub const RATIO_SCALE: u64 = 1_000_000;

/// Fee rates are quoted in basis points: this many of them make 100%.
pub const FEE_DENOMINATOR: u64 = 10_000;

/// What a withdrawal pays out.
#[derive(Clone, Copy, Debug, PartialEq, Eq, Structural)]
pub struct WithdrawAmounts {
    /// Units of asset A leaving pool custody for the withdrawer.
    pub amount_a: u64,
    /// Units of asset B leaving pool custody for the withdrawer.
    pub amount_b: u64,
}

/// The scaled fraction of the LP supply that a withdrawal redeems.
pub open spec fn spec_withdraw_ratio(lp_amount: int, lp_supply: int) -> int {
    lp_amount * RATIO_SCALE / lp_supply
}

/// How much of one reserve a withdrawal of `lp_amount` shares pays out:
/// the reserve scaled by the redeemed fraction, rounded down.
pub open spec fn spec_withdraw_amount(reserve: int, lp_amount: int, lp_supply: int) -> int {
    reserve * spec_withdraw_ratio(lp_amount, lp_supply) / (RATIO_SCALE as int)
}

/// The full outcome of a withdrawal request: which error it is refused
/// with, or the exact payout. Withdrawal arithmetic cannot overflow, so
/// the only failures are a bad share count and a violated slippage bound.
pub open spec fn spec_withdraw_result(
    reserve_a: u64,
    reserve_b: u64,
    lp_supply: u64,
    lp_amount: u64,
    min_token_a: u64,
    min_token_b: u64,
) -> Result<WithdrawAmounts, AmmError> {
    if lp_supply == 0 || lp_amount == 0 || lp_amount > lp_supply {
        Err(AmmError::InsufficientLiquidity)
    } else {
        let amount_a = spec_withdraw_amount(reserve_a as int, lp_amount as int, lp_supply as int);
        let amount_b = spec_withdraw_amount(reserve_b as int, lp_amount as int, lp_supply as int);
        if amount_a < min_token_a || amount_b < min_token_b {
            Err(AmmError::SlippageExceeded)
        } else {
            Ok(WithdrawAmounts { amount_a: amount_a as u64, amount_b: amount_b as u64 })
        }
    }
}

/// A withdrawal never pays out more of a reserve than the pool holds.
pub proof fn lemma_withdraw_amount_le_reserve(reserve: int, lp_amount: int, lp_supply: int)
    requires
        0 <= reserve,
        0 < lp_amount <= lp_supply,
    ensures
        0 <= spec_withdraw_amount(reserve, lp_amount, lp_supply) <= reserve,
{
    let scale = RATIO_SCALE as int;
    let ratio = spec_withdraw_ratio(lp_amount, lp_supply);
    assert(lp_amount * scale <= lp_supply * scale) by {
        lemma_mul_inequality(lp_amount, lp_supply, scale);
    }
    assert(ratio <= (lp_supply * scale) / lp_supply) by {
        lemma_div_is_ordered(lp_amount * scale, lp_supply * scale, lp_supply);
    }
    assert((lp_supply * scale) / lp_supply == scale) by {
        lemma_mul_div_cancel(scale, lp_supply);
        assert(lp_supply * scale == scale * lp_supply);
    }
    assert(0 <= ratio) by {
        lemma_floor_div_bounds(lp_amount * scale, lp_supply);
    }
    assert(reserve * ratio <= reserve * scale) by {
        lemma_mul_inequality(ratio, scale, reserve);
        assert(ratio * reserve == reserve * ratio);
        assert(scale * reserve == reserve * scale);
    }
    assert(spec_withdraw_amount(reserve, lp_amount, lp_supply) <= (reserve * scale) / scale) by {
        lemma_div_is_ordered(reserve * ratio, reserve * scale, scale);
    }
    assert((reserve * scale) / scale == reserve) by {
        lemma_mul_div_cancel(reserve, scale);
    }
    assert(0 <= reserve * ratio) by {
        lemma_mul_upper_bound(0, reserve, 0, ratio);
        assert(0 * 0 == 0);
    }
    assert(0 <= spec_withdraw_amount(reserve, lp_amount, lp_supply)) by {
        lemma_floor_div_bounds(reserve * ratio, scale);
    }
}

/// Proportional withdrawal: burning `lp_amount` LP shares out of
/// `lp_supply` pays out each reserve scaled by that fraction, rounded
/// down, provided the payout meets the caller's minimums.
///
/// The share count must be positive and no larger than the outstanding
/// supply; otherwise the request is refused before any arithmetic.
pub fn withdraw_amounts(
    reserve_a: u64,
    reserve_b: u64,
    lp_supply: u64,
    lp_amount: u64,
    min_token_a: u64,
    min_token_b: u64,
) -> (r: Result<WithdrawAmounts, AmmError>)
    ensures
        r == spec_withdraw_result(reserve_a, reserve_b, lp_supply, lp_amount, min_token_a, min_token_b),
{
    if lp_supply == 0 || lp_amount == 0 || lp_amount > lp_supply {
        return Err(AmmError::InsufficientLiquidity);
    }
    let scale: u128 = RATIO_SCALE as u128;
    let ratio: u128 = (lp_amount as u128) * scale / (lp_supply as u128);
    proof {
        lemma_withdraw_amount_le_reserve(reserve_a as int, lp_amount as int, lp_supply as int);
        lemma_withdraw_amount_le_reserve(reserve_b as int, lp_amount as int, lp_supply as int);
        assert(lp_amount * (RATIO_SCALE as int) <= lp_supply * (RATIO_SCALE as int)) by {
            lemma_mul_inequality(lp_amount as int, lp_supply as int, RATIO_SCALE as int);
        }
        assert(ratio <= RATIO_SCALE) by {
            lemma_div_is_ordered(
                lp_amount * (RATIO_SCALE as int),
                lp_supply * (RATIO_SCALE as int),
                lp_supply as int,
            );
            lemma_mul_div_cancel(RATIO_SCALE as int, lp_supply as int);
            assert(lp_supply * (RATIO_SCALE as int) == (RATIO_SCALE as int) * lp_supply);
        }
        assert(reserve_a * ratio <= u64::MAX * (RATIO_SCALE as int)) by {
            lemma_mul_upper_bound(reserve_a as int, u64::MAX as int, ratio as int, RATIO_SCALE as int);
        }
        assert(reserve_b * ratio <= u64::MAX * (RATIO_SCALE as int)) by {
            lemma_mul_upper_bound(reserve_b as int, u64::MAX as int, ratio as int, RATIO_SCALE as int);
        }
    }
    let amount_a_wide: u128 = (reserve_a as u128) * ratio / scale;
    let amount_b_wide: u128 = (reserve_b as u128) * ratio / scale;
    let amount_a: u64 = amount_a_wide as u64;
    let amount_b: u64 = amount_b_wide as u64;
    if amount_a < min_token_a || amount_b < min_token_b {
        return Err(AmmError::SlippageExceeded);
    }
    Ok(WithdrawAmounts { amount_a, amount_b })
}

/// What a deposit moves: both reserve contributions and the LP shares
/// minted in exchange.
#[derive(Clone, Copy, Debug, PartialEq, Eq, Structural)]
pub struct DepositAmounts {
    /// Units of asset A the depositor puts into pool custody.
    pub amount_a: u64,
    /// Units of asset B the depositor puts into pool custody.
    pub amount_b: u64,
    /// LP shares minted to the depositor.
    pub lp_minted: u64,
}

/// Scaled growth factor of the reserve product that a deposit of
/// `lp_requested` additional shares asks for, relative to the current
/// product `reserve_a * reserve_b`.
pub open spec fn spec_deposit_ratio(reserve_a: int, reserve_b: int, lp_requested: int) -> int {
    (reserve_a * reserve_b + lp_requested) * RATIO_SCALE / (reserve_a * reserve_b)
}

/// How much of one reserve must be added so that it grows by `ratio`:
/// the grown reserve, rounded down, minus the present one.
pub open spec fn spec_deposit_amount(reserve: int, ratio: int) -> int {
    ratio * reserve / (RATIO_SCALE as int) - reserve
}

/// The full outcome of a deposit request. An empty pool takes the
/// caller's maximums as exact and seeds the LP supply with their product;
/// a non-empty pool scales both reserves by the same ratio, so the price
/// cannot move, and mints exactly the requested shares.
pub open spec fn spec_deposit_result(
    reserve_a: u64,
    reserve_b: u64,
    lp_requested: u64,
    max_token_a: u64,
    max_token_b: u64,
) -> Result<DepositAmounts, AmmError> {
    if reserve_a == 0 && reserve_b == 0 {
        if max_token_a * max_token_b > u64::MAX {
            Err(AmmError::ArithmeticOverflow)
        } else {
            Ok(DepositAmounts {
                amount_a: max_token_a,
                amount_b: max_token_b,
                lp_minted: (max_token_a * max_token_b) as u64,
            })
        }
    } else if reserve_a == 0 || reserve_b == 0 {
        Err(AmmError::ArithmeticOverflow)
    } else if (reserve_a * reserve_b + lp_requested) * RATIO_SCALE > u128::MAX {
        Err(AmmError::ArithmeticOverflow)
    } else {
        let ratio = spec_deposit_ratio(reserve_a as int, reserve_b as int, lp_requested as int);
        let amount_a = spec_deposit_amount(reserve_a as int, ratio);
        let amount_b = spec_deposit_amount(reserve_b as int, ratio);
        if amount_a > max_token_a || amount_b > max_token_b {
            Err(AmmError::SlippageExceeded)
        } else {
            Ok(DepositAmounts {
                amount_a: amount_a as u64,
                amount_b: amount_b as u64,
                lp_minted: lp_requested,
            })
        }
    }
}

/// The deposit ratio is at least one (scaled), and scaling a reserve by
/// it adds at most `lp_requested` units to that reserve.
pub proof fn lemma_deposit_ratio_bounds(reserve_a: int, reserve_b: int, lp_requested: int)
    requires
        1 <= reserve_a,
        1 <= reserve_b,
        0 <= lp_requested,
    ensures
        RATIO_SCALE <= spec_deposit_ratio(reserve_a, reserve_b, lp_requested),
        spec_deposit_ratio(reserve_a, reserve_b, lp_requested) * reserve_a
            <= (reserve_a + lp_requested) * (RATIO_SCALE as int),
        spec_deposit_ratio(reserve_a, reserve_b, lp_requested) * reserve_b
            <= (reserve_b + lp_requested) * (RATIO_SCALE as int),
{
    let scale = RATIO_SCALE as int;
    let k = reserve_a * reserve_b;
    assert(1 <= k) by (nonlinear_arith)
        requires
            k == reserve_a * reserve_b,
            1 <= reserve_a,
            1 <= reserve_b,
    ;
    let grown = (k + lp_requested) * scale;
    let ratio = spec_deposit_ratio(reserve_a, reserve_b, lp_requested);
    lemma_floor_div_bounds(grown, k);
    assert(scale <= ratio) by {
        assert(k * scale <= grown);
        lemma_div_is_ordered(k * scale, grown, k);
        lemma_mul_div_cancel(scale, k);
        assert(k * scale == scale * k);
    }
    assert(ratio * reserve_a <= (reserve_a + lp_requested) * scale) by (nonlinear_arith)
        requires
            ratio * k <= grown,
            grown == (k + lp_requested) * scale,
            k == reserve_a * reserve_b,
            1 <= reserve_a,
            1 <= reserve_b,
            0 <= lp_requested,
            0 <= ratio,
            scale == 1000000,
    ;
    assert(ratio * reserve_b <= (reserve_b + lp_requested) * scale) by (nonlinear_arith)
        requires
            ratio * k <= grown,
            grown == (k + lp_requested) * scale,
            k == reserve_a * reserve_b,
            1 <= reserve_a,
            1 <= reserve_b,
            0 <= lp_requested,
            0 <= ratio,
            scale == 1000000,
    ;
}

/// With the deposit ratio of a non-empty pool, each reserve contribution
/// is non-negative and never exceeds the requested share count.
pub proof fn lemma_deposit_amount_bounds(reserve_a: int, reserve_b: int, lp_requested: int)
    requires
        1 <= reserve_a,
        1 <= reserve_b,
        0 <= lp_requested,
    ensures
        ({
            let ratio = spec_deposit_ratio(reserve_a, reserve_b, lp_requested);
            0 <= spec_deposit_amount(reserve_a, ratio) <= lp_requested
                && 0 <= spec_deposit_amount(reserve_b, ratio) <= lp_requested
        }),
{
    let ratio = spec_deposit_ratio(reserve_a, reserve_b, lp_requested);
    lemma_deposit_ratio_bounds(reserve_a, reserve_b, lp_requested);
    lemma_deposit_amount_side(reserve_a, lp_requested, ratio);
    lemma_deposit_amount_side(reserve_b, lp_requested, ratio);
}

/// Bounds for one reserve's deposit contribution, given the ratio bounds.
proof fn lemma_deposit_amount_side(reserve: int, lp_requested: int, ratio: int)
    requires
        1 <= reserve,
        0 <= lp_requested,
        RATIO_SCALE <= ratio,
        ratio * reserve <= (reserve + lp_requested) * (RATIO_SCALE as int),
    ensures
        0 <= spec_deposit_amount(reserve, ratio) <= lp_requested,
{
    let scale = RATIO_SCALE as int;
    assert(scale * reserve <= ratio * reserve) by {
        lemma_mul_inequality(scale, ratio, reserve);
    }
    assert(reserve <= ratio * reserve / scale) by {
        lemma_div_is_ordered(scale * reserve, ratio * reserve, scale);
        lemma_mul_div_cancel(reserve, scale);
        assert(scale * reserve == reserve * scale);
    }
    assert(ratio * reserve / scale <= reserve + lp_requested) by {
        lemma_div_is_ordered(ratio * reserve, (reserve + lp_requested) * scale, scale);
        lemma_mul_div_cancel(reserve + lp_requested, scale);
    }
}

/// Deposit: an empty pool takes the caller's maximums as the exact
/// contributions and seeds the LP supply with their product; a non-empty
/// pool grows both reserves by one common ratio derived from the
/// requested share count, rounds each grown reserve down, and refuses the
/// request if a contribution exceeds the caller's cap. Deposits charge no
/// trading fee.
pub fn deposit_amounts(
    reserve_a: u64,
    reserve_b: u64,
    lp_requested: u64,
    max_token_a: u64,
    max_token_b: u64,
) -> (r: Result<DepositAmounts, AmmError>)
    ensures
        r == spec_deposit_result(reserve_a, reserve_b, lp_requested, max_token_a, max_token_b),
{
    if reserve_a == 0 && reserve_b == 0 {
        proof {
            lemma_mul_upper_bound(max_token_a as int, u64::MAX as int, max_token_b as int, u64::MAX as int);
        }
        let product: u128 = (max_token_a as u128) * (max_token_b as u128);
        if product > u64::MAX as u128 {
            return Err(AmmError::ArithmeticOverflow);
        }
        return Ok(DepositAmounts {
            amount_a: max_token_a,
            amount_b: max_token_b,
            lp_minted: product as u64,
        });
    }
    if reserve_a == 0 || reserve_b == 0 {
        return Err(AmmError::ArithmeticOverflow);
    }
    proof {
        lemma_mul_upper_bound(reserve_a as int, u64::MAX as int, reserve_b as int, u64::MAX as int);
    }
    let k: u128 = (reserve_a as u128) * (reserve_b as u128);
    proof {
        assert(1 <= (reserve_a as int) * (reserve_b as int)) by (nonlinear_arith)
            requires
                1 <= reserve_a as int,
                1 <= reserve_b as int,
        ;
    }
    let k_grown: u128 = k + (lp_requested as u128);
    proof {
        lemma_mul_gt_iff_div(k_grown as int, RATIO_SCALE as int, u128::MAX as int);
    }
    if k_grown > u128::MAX / (RATIO_SCALE as u128) {
        return Err(AmmError::ArithmeticOverflow);
    }
    let scaled: u128 = k_grown * (RATIO_SCALE as u128);
    let ratio: u128 = scaled / k;
    proof {
        lemma_deposit_ratio_bounds(reserve_a as int, reserve_b as int, lp_requested as int);
        lemma_deposit_amount_bounds(reserve_a as int, reserve_b as int, lp_requested as int);
    }
    let gross_a: u128 = ratio * (reserve_a as u128) / (RATIO_SCALE as u128);
    let gross_b: u128 = ratio * (reserve_b as u128) / (RATIO_SCALE as u128);
    let amount_a: u64 = (gross_a - (reserve_a as u128)) as u64;
    let amount_b: u64 = (gross_b - (reserve_b as u128)) as u64;
    if amount_a > max_token_a || amount_b > max_token_b {
        return Err(AmmError::SlippageExceeded);
    }
    Ok(DepositAmounts { amount_a, amount_b, lp_minted: lp_requested })
}

/// The exact input a swap owes before the fee, rounded up: the smallest
/// integer `x` with `(reserve_in + x) * (reserve_out - amount_out)` at
/// least `reserve_in * reserve_out`.
pub open spec fn spec_swap_exact_in(reserve_in: int, reserve_out: int, amount_out: int) -> int {
    ceil_div(reserve_in * amount_out, reserve_out - amount_out)
}

/// The fee-inclusive input: the exact input grossed up by the fee rate,
/// rounded up so the fee is never short-collected by truncation.
pub open spec fn spec_swap_in_with_fee(amount_in_exact: int, fee_bps: int) -> int {
    ceil_div(amount_in_exact * (FEE_DENOMINATOR + fee_bps), FEE_DENOMINATOR as int)
}

/// What the trader pays in total for taking `amount_out` of the output
/// reserve: exact input first, fee layered on top.
pub open spec fn spec_swap_amount_in(
    reserve_in: int,
    reserve_out: int,
    fee_bps: int,
    amount_out: int,
) -> int {
    spec_swap_in_with_fee(spec_swap_exact_in(reserve_in, reserve_out, amount_out), fee_bps)
}

/// The full outcome of a swap request: the fee-inclusive input amount the
/// trader owes, or the error the request is refused with.
pub open spec fn spec_swap_result(
    reserve_in: u64,
    reserve_out: u64,
    fee_bps: u16,
    amount_out: u64,
    max_amount_in: u64,
) -> Result<u64, AmmError> {
    if amount_out >= reserve_out {
        Err(AmmError::InsufficientLiquidity)
    } else {
        let amount_in = spec_swap_amount_in(
            reserve_in as int,
            reserve_out as int,
            fee_bps as int,
            amount_out as int,
        );
        if amount_in > u64::MAX {
            Err(AmmError::ArithmeticOverflow)
        } else if amount_in > max_amount_in {
            Err(AmmError::SlippageExceeded)
        } else {
            Ok(amount_in as u64)
        }
    }
}

/// Grossing up by the fee never shrinks an input amount.
pub proof fn lemma_swap_fee_keeps_input(amount_in_exact: int, fee_bps: int)
    requires
        0 <= amount_in_exact,
        0 <= fee_bps,
    ensures
        amount_in_exact <= spec_swap_in_with_fee(amount_in_exact, fee_bps),
{
    let denom = FEE_DENOMINATOR as int;
    let mult = denom + fee_bps;
    assert(amount_in_exact * denom <= amount_in_exact * mult) by {
        lemma_mul_inequality(denom, mult, amount_in_exact);
        lemma_mul_is_commutative(denom, amount_in_exact);
        lemma_mul_is_commutative(mult, amount_in_exact);
    }
    assert(0 <= amount_in_exact * denom) by {
        lemma_mul_upper_bound(0, amount_in_exact, 0, denom);
    }
    lemma_ceil_div_ordered(amount_in_exact * denom, amount_in_exact * mult, denom);
    lemma_ceil_div_exact(amount_in_exact, denom);
}

/// Swap for a given direction of trade: the caller receives `amount_out`
/// of the output reserve and owes the fee-inclusive input, computed with
/// every product carried in double width and rounded once, upward, at the
/// end. Refused if the output would drain the reserve, if the input does
/// not fit the native amount width, or if it exceeds the caller's cap.
pub fn swap_quote(
    reserve_in: u64,
    reserve_out: u64,
    fee_bps: u16,
    amount_out: u64,
    max_amount_in: u64,
) -> (r: Result<u64, AmmError>)
    ensures
        r == spec_swap_result(reserve_in, reserve_out, fee_bps, amount_out, max_amount_in),
{
    if amount_out >= reserve_out {
        return Err(AmmError::InsufficientLiquidity);
    }
    let new_out: u128 = (reserve_out - amount_out) as u128;
    proof {
        lemma_mul_upper_bound(reserve_in as int, u64::MAX as int, amount_out as int, u64::MAX as int);
    }
    let numerator: u128 = (reserve_in as u128) * (amount_out as u128);
    let exact: u128 = (numerator + new_out - 1) / new_out;
    let ghost exact_math = spec_swap_exact_in(reserve_in as int, reserve_out as int, amount_out as int);
    let ghost amount_in = spec_swap_amount_in(
        reserve_in as int,
        reserve_out as int,
        fee_bps as int,
        amount_out as int,
    );
    proof {
        assert(exact == exact_math);
        lemma_ceil_div_bounds(numerator as int, new_out as int);
        lemma_swap_fee_keeps_input(exact_math, fee_bps as int);
    }
    if exact > u64::MAX as u128 {
        return Err(AmmError::ArithmeticOverflow);
    }
    let mult: u128 = (FEE_DENOMINATOR as u128) + (fee_bps as u128);
    proof {
        lemma_mul_upper_bound(exact as int, u64::MAX as int, mult as int, 75535int);
    }
    let gross: u128 = exact * mult;
    let with_fee: u128 = (gross + (FEE_DENOMINATOR as u128) - 1) / (FEE_DENOMINATOR as u128);
    proof {
        assert(with_fee == amount_in);
    }
    if with_fee > u64::MAX as u128 {
        return Err(AmmError::ArithmeticOverflow);
    }
    let amount_in_with_fee: u64 = with_fee as u64;
    if amount_in_with_fee > max_amount_in {
        return Err(AmmError::SlippageExceeded);
    }
    Ok(amount_in_with_fee)
}

/// Swap as the operation request states it: `is_a` means the caller asks
/// for asset A and pays asset B, so B is the input reserve; otherwise the
/// roles are exchanged.
pub fn swap_amounts(
    reserve_a: u64,
    reserve_b: u64,
    fee_bps: u16,
    amount_out: u64,
    max_amount_in: u64,
    is_a: bool,
) -> (r: Result<u64, AmmError>)
    ensures
        is_a ==> r == spec_swap_result(reserve_b, reserve_a, fee_bps, amount_out, max_amount_in),
        !is_a ==> r == spec_swap_result(reserve_a, reserve_b, fee_bps, amount_out, max_amount_in),
{
    if is_a {
        swap_quote(reserve_b, reserve_a, fee_bps, amount_out, max_amount_in)
    } else {
        swap_quote(reserve_a, reserve_b, fee_bps, amount_out, max_amount_in)
    }
}

} // verus!
