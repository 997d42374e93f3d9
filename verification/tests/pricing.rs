use bonding_curve::engine::removal_amounts;
use bonding_curve::engine::steady_state_shares;
use bonding_curve::engine::swap_amount_out;
use bonding_curve::errors::PoolError;
use bonding_curve::math::bootstrap_shares;

#[test]
fn bootstrap_shares_square_example() {
    assert_eq!(bootstrap_shares(100, 0, 400, 0), 200);
}

#[test]
fn bootstrap_shares_rounds_down() {
    assert_eq!(bootstrap_shares(99, 0, 1, 0), 9);
    assert_eq!(bootstrap_shares(2, 0, 2, 0), 2);
    assert_eq!(bootstrap_shares(3, 0, 1, 0), 1);
}

#[test]
fn bootstrap_shares_decimal_adjustment() {
    // (100 * 400) / 10^(1+1) = 400, and floor(sqrt(400)) = 20.
    assert_eq!(bootstrap_shares(100, 1, 400, 1), 20);
}

#[test]
fn bootstrap_shares_zero_product() {
    assert_eq!(bootstrap_shares(0, 0, 400, 0), 0);
    assert_eq!(bootstrap_shares(100, 0, 0, 0), 0);
}

#[test]
fn bootstrap_shares_extreme_decimals() {
    // The scaled product underflows to zero well before 10^400.
    assert_eq!(bootstrap_shares(u64::MAX, 200, u64::MAX, 200), 0);
}

#[test]
fn bootstrap_shares_max_amounts() {
    // floor(sqrt((2^64 - 1)^2)) = 2^64 - 1.
    assert_eq!(bootstrap_shares(u64::MAX, 0, u64::MAX, 0), u64::MAX);
}

#[test]
fn steady_state_shares_balanced() {
    assert_eq!(steady_state_shares(10, 40, 100, 400, 200), Ok(20));
}

#[test]
fn steady_state_shares_takes_minimum() {
    // Asset two alone would justify 200 shares; asset one caps it at 20.
    assert_eq!(steady_state_shares(10, 400, 100, 400, 200), Ok(20));
    // And the other way round.
    assert_eq!(steady_state_shares(100, 40, 100, 400, 200), Ok(20));
}

#[test]
fn steady_state_shares_product_overflow() {
    assert_eq!(
        steady_state_shares(u64::MAX, 1, 1, 1, 2),
        Err(PoolError::ArithmeticOverflow)
    );
}

#[test]
fn steady_state_shares_drained_reserve() {
    assert_eq!(
        steady_state_shares(10, 40, 0, 400, 200),
        Err(PoolError::ArithmeticOverflow)
    );
    assert_eq!(
        steady_state_shares(10, 40, 100, 0, 200),
        Err(PoolError::ArithmeticOverflow)
    );
}

#[test]
fn removal_amounts_proportional() {
    assert_eq!(removal_amounts(20, 110, 440, 220), Ok((10, 40)));
}

#[test]
fn removal_amounts_zero_supply() {
    assert_eq!(
        removal_amounts(20, 110, 440, 0),
        Err(PoolError::ArithmeticOverflow)
    );
}

#[test]
fn removal_amounts_product_overflow() {
    assert_eq!(
        removal_amounts(u64::MAX, 2, 1, 3),
        Err(PoolError::ArithmeticOverflow)
    );
}

#[test]
fn swap_amount_out_example() {
    // amount_inc = 0*2 + 4 + 1 = 5, multiplier = 4 / 2 = 2, out = 5 * 2 * 1.
    assert_eq!(swap_amount_out(0, 4), Ok(10));
}

#[test]
fn swap_amount_out_single_unit_is_free() {
    // floor(1 / 2) == 0, so one unit prices at zero.
    assert_eq!(swap_amount_out(5, 1), Ok(0));
    assert_eq!(swap_amount_out(0, 1), Ok(0));
}

#[test]
fn swap_amount_out_strictly_increasing() {
    let mut previous = swap_amount_out(7, 1).unwrap();
    for amount in 2..50u64 {
        let current = swap_amount_out(7, amount).unwrap();
        assert!(current > previous, "amount {} did not increase", amount);
        previous = current;
    }
}

#[test]
fn swap_amount_out_doubled_reserve_overflow() {
    assert_eq!(
        swap_amount_out(u64::MAX / 2 + 1, 1),
        Err(PoolError::ArithmeticOverflow)
    );
}

#[test]
fn swap_amount_out_sum_overflow() {
    assert_eq!(
        swap_amount_out(u64::MAX / 2, 2),
        Err(PoolError::ArithmeticOverflow)
    );
}
