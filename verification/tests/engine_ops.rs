use amm::engine::{
    deposit_amounts, swap_amounts, swap_quote, withdraw_amounts, DepositAmounts, WithdrawAmounts,
};
use amm::error::AmmError;

#[test]
fn first_deposit_seeds_pool() {
    let r = deposit_amounts(0, 0, 0, 25, 25);
    assert_eq!(
        r,
        Ok(DepositAmounts { amount_a: 25, amount_b: 25, lp_minted: 625 })
    );
}

#[test]
fn first_deposit_takes_maximums_exactly() {
    let r = deposit_amounts(0, 0, 7, 4, 9);
    assert_eq!(
        r,
        Ok(DepositAmounts { amount_a: 4, amount_b: 9, lp_minted: 36 })
    );
}

#[test]
fn first_deposit_lp_at_width_boundary() {
    let r = deposit_amounts(0, 0, 0, u64::MAX, 1);
    assert_eq!(
        r,
        Ok(DepositAmounts { amount_a: u64::MAX, amount_b: 1, lp_minted: u64::MAX })
    );
}

#[test]
fn first_deposit_overflow_is_refused() {
    let r = deposit_amounts(0, 0, 0, u64::MAX, 2);
    assert_eq!(r, Err(AmmError::ArithmeticOverflow));
}

#[test]
fn deposit_preserves_price_ratio() {
    // Doubling the reserve product of a 1000:2000 pool asks for exactly
    // one more of each reserve unit per unit held.
    let r = deposit_amounts(1000, 2000, 2_000_000, 1000, 2000);
    assert_eq!(
        r,
        Ok(DepositAmounts { amount_a: 1000, amount_b: 2000, lp_minted: 2_000_000 })
    );
    // The price before and the price after cross-multiply equally.
    assert_eq!((1000u128 + 1000) * 2000, (2000u128 + 2000) * 1000);
}

#[test]
fn deposit_slippage_cap_a_is_enforced() {
    let r = deposit_amounts(1000, 2000, 2_000_000, 999, 2000);
    assert_eq!(r, Err(AmmError::SlippageExceeded));
}

#[test]
fn deposit_slippage_cap_b_is_enforced() {
    let r = deposit_amounts(1000, 2000, 2_000_000, 1000, 1999);
    assert_eq!(r, Err(AmmError::SlippageExceeded));
}

#[test]
fn deposit_with_one_empty_reserve_is_refused() {
    assert_eq!(deposit_amounts(5, 0, 10, 10, 10), Err(AmmError::ArithmeticOverflow));
    assert_eq!(deposit_amounts(0, 5, 10, 10, 10), Err(AmmError::ArithmeticOverflow));
}

#[test]
fn deposit_near_width_maximum_overflows() {
    // The scaled ratio numerator no longer fits double width.
    let r = deposit_amounts(u64::MAX, u64::MAX, 1, u64::MAX, u64::MAX);
    assert_eq!(r, Err(AmmError::ArithmeticOverflow));
}

#[test]
fn withdraw_full_supply_drains_reserves() {
    let r = withdraw_amounts(21, 29, 625, 625, 0, 0);
    assert_eq!(r, Ok(WithdrawAmounts { amount_a: 21, amount_b: 29 }));
    let w = r.unwrap();
    assert_eq!(21 - w.amount_a, 0);
    assert_eq!(29 - w.amount_b, 0);
}

#[test]
fn withdraw_is_proportional_within_one_unit() {
    // Burning one third of the supply pays out one third of each
    // reserve, rounded down.
    let r = withdraw_amounts(1000, 2000, 300, 100, 0, 0);
    assert_eq!(r, Ok(WithdrawAmounts { amount_a: 333, amount_b: 666 }));
    let w = r.unwrap();
    // Rounded down: never more than the exact fraction.
    assert!(w.amount_a as u128 * 300 <= 1000 * 100);
    assert!(w.amount_b as u128 * 300 <= 2000 * 100);
}

#[test]
fn withdraw_zero_supply_is_refused() {
    assert_eq!(withdraw_amounts(10, 10, 0, 1, 0, 0), Err(AmmError::InsufficientLiquidity));
}

#[test]
fn withdraw_zero_shares_is_refused() {
    assert_eq!(withdraw_amounts(10, 10, 5, 0, 0, 0), Err(AmmError::InsufficientLiquidity));
}

#[test]
fn withdraw_more_than_supply_is_refused() {
    assert_eq!(withdraw_amounts(10, 10, 5, 6, 0, 0), Err(AmmError::InsufficientLiquidity));
}

#[test]
fn withdraw_slippage_floor_is_enforced() {
    assert_eq!(withdraw_amounts(21, 29, 625, 625, 22, 0), Err(AmmError::SlippageExceeded));
    assert_eq!(withdraw_amounts(21, 29, 625, 625, 0, 30), Err(AmmError::SlippageExceeded));
}

#[test]
fn swap_a_out_charges_rounded_up_input() {
    // Reserves (21 A, 29 B), no fee, one unit of A out: the exact input
    // of B solves 20 * (29 + x) = 21 * 29, so x = 1.45, charged as 2.
    let r = swap_quote(29, 21, 0, 1, 100);
    assert_eq!(r, Ok(2));
    // The reserve product does not decrease.
    assert!((29u128 + 2) * (21 - 1) >= 29 * 21);
}

#[test]
fn swap_with_fee_charges_fee_on_top() {
    // Exact input ceil(1000 * 100 / 900) = 112; with 30 bps on top,
    // ceil(112 * 10030 / 10000) = 113.
    let r = swap_quote(1000, 1000, 30, 100, 200);
    assert_eq!(r, Ok(113));
    // Fee rounding never favors the trader.
    assert!(113u128 * 10_000 >= 112u128 * 10_030);
    // With a positive fee the reserve product strictly grows.
    assert!((1000u128 + 113) * (1000 - 100) > 1000 * 1000);
}

#[test]
fn swap_slippage_cap_is_enforced() {
    assert_eq!(swap_quote(29, 21, 0, 1, 1), Err(AmmError::SlippageExceeded));
}

#[test]
fn swap_draining_the_reserve_is_refused() {
    assert_eq!(swap_quote(10, 10, 0, 10, 100), Err(AmmError::InsufficientLiquidity));
    assert_eq!(swap_quote(10, 10, 0, 11, 100), Err(AmmError::InsufficientLiquidity));
}

#[test]
fn swap_near_width_maximum_overflows() {
    // Taking all but one unit of the output reserve asks for an input
    // beyond the native width: refused, not wrapped.
    let r = swap_quote(u64::MAX, u64::MAX, 0, u64::MAX - 1, u64::MAX);
    assert_eq!(r, Err(AmmError::ArithmeticOverflow));
}

#[test]
fn swap_direction_picks_the_input_reserve() {
    // A out, B in: the input reserve is B.
    assert_eq!(swap_amounts(21, 29, 0, 1, 100, true), swap_quote(29, 21, 0, 1, 100));
    // B out, A in: exact input ceil(100 * 50 / 150) = 34.
    assert_eq!(swap_amounts(100, 200, 0, 50, 100, false), Ok(34));
}
