use bonding_curve::asset::AssetId;
use bonding_curve::errors::PoolError;
use bonding_curve::state::initialize;
use bonding_curve::state::LiquidityPool;
use bonding_curve::state::LiquidityProvider;

fn pool_with(total_supply: u64, reserve_one: u64, reserve_two: u64) -> LiquidityPool {
    LiquidityPool {
        token_one: AssetId { bytes: vec![1u8; 32] },
        token_two: AssetId { bytes: vec![2u8; 32] },
        total_supply,
        reserve_one,
        reserve_two,
        bump: 7,
    }
}

#[test]
fn add_liquidity_empty_pool_cannot_reallocate() {
    // The first deposit computes floor(sqrt(100 * 400)) = 200 shares, but the
    // grant step funds them from the recorded supply, which is still zero, so
    // the operation fails and changes nothing.
    let mut pool = pool_with(0, 0, 0);
    let mut provider = LiquidityProvider { shares: 0 };
    let r = pool.add_liquidity(&mut provider, 0, 0, 100, 400);
    assert_eq!(r, Err(PoolError::ArithmeticOverflow));
    assert_eq!(pool.total_supply, 0);
    assert_eq!(pool.reserve_one, 0);
    assert_eq!(pool.reserve_two, 0);
    assert_eq!(provider.shares, 0);
}

#[test]
fn add_liquidity_steady_state_mints_minimum_ratio() {
    let mut pool = pool_with(200, 100, 400);
    let mut provider = LiquidityProvider { shares: 0 };
    let r = pool.add_liquidity(&mut provider, 0, 0, 10, 40);
    assert_eq!(r, Ok(20));
    assert_eq!(pool.reserve_one, 110);
    assert_eq!(pool.reserve_two, 440);
    // The grant funds the provider from the recorded supply.
    assert_eq!(pool.total_supply, 180);
    assert_eq!(provider.shares, 20);
}

#[test]
fn add_liquidity_zero_deposit_rejected() {
    let mut pool = pool_with(200, 100, 400);
    let mut provider = LiquidityProvider { shares: 0 };
    let r = pool.add_liquidity(&mut provider, 0, 0, 0, 0);
    assert_eq!(r, Err(PoolError::FailedToAddLiquidity));
    assert_eq!(pool.total_supply, 200);
}

#[test]
fn add_liquidity_provider_position_overflow() {
    let mut pool = pool_with(200, 100, 400);
    let mut provider = LiquidityProvider { shares: u64::MAX };
    let r = pool.add_liquidity(&mut provider, 0, 0, 10, 40);
    assert_eq!(r, Err(PoolError::FailedToAllocateShares));
    assert_eq!(provider.shares, u64::MAX);
    assert_eq!(pool.total_supply, 200);
    assert_eq!(pool.reserve_one, 100);
    assert_eq!(pool.reserve_two, 400);
}

#[test]
fn add_liquidity_grant_exceeding_supply_fails() {
    // The deposit would mint 100 shares, more than the recorded supply of 1.
    let mut pool = pool_with(1, 1, 1);
    let mut provider = LiquidityProvider { shares: 0 };
    let r = pool.add_liquidity(&mut provider, 0, 0, 100, 100);
    assert_eq!(r, Err(PoolError::ArithmeticOverflow));
    assert_eq!(pool.total_supply, 1);
    assert_eq!(pool.reserve_one, 1);
    assert_eq!(pool.reserve_two, 1);
    assert_eq!(provider.shares, 0);
}

#[test]
fn remove_liquidity_round_trip() {
    let mut pool = pool_with(220, 110, 440);
    let mut provider = LiquidityProvider { shares: 20 };
    let r = pool.remove_liquidity(&mut provider, 20);
    assert_eq!(r, Ok((10, 40)));
    assert_eq!(pool.reserve_one, 100);
    assert_eq!(pool.reserve_two, 400);
    assert_eq!(pool.total_supply, 200);
    assert_eq!(provider.shares, 0);
}

#[test]
fn remove_liquidity_zero_shares_rejected() {
    let mut pool = pool_with(220, 110, 440);
    let mut provider = LiquidityProvider { shares: 20 };
    let r = pool.remove_liquidity(&mut provider, 0);
    assert_eq!(r, Err(PoolError::FailedToRemoveLiquidity));
    assert_eq!(pool.total_supply, 220);
}

#[test]
fn remove_liquidity_insufficient_shares() {
    let mut pool = pool_with(220, 110, 440);
    let mut provider = LiquidityProvider { shares: 5 };
    let r = pool.remove_liquidity(&mut provider, 10);
    assert_eq!(r, Err(PoolError::InsufficientShares));
    assert_eq!(provider.shares, 5);
    assert_eq!(pool.total_supply, 220);
}

#[test]
fn remove_liquidity_dust_pays_nothing() {
    // One share of a million pays out floor(100 / 1000000) = 0 of asset one,
    // which would burn the share for nothing, so the redemption is refused.
    let mut pool = pool_with(1_000_000, 100, 400);
    let mut provider = LiquidityProvider { shares: 10 };
    let r = pool.remove_liquidity(&mut provider, 1);
    assert_eq!(r, Err(PoolError::FailedToRemoveLiquidity));
    assert_eq!(provider.shares, 10);
    assert_eq!(pool.reserve_one, 100);
}

#[test]
fn swap_pulls_in_and_pays_out() {
    let config = initialize(0);
    let mut pool = pool_with(50, 0, 100);
    let r = pool.swap(&config, 4);
    assert_eq!(r, Ok(10));
    assert_eq!(pool.reserve_one, 4);
    assert_eq!(pool.reserve_two, 90);
    assert_eq!(pool.total_supply, 50);
}

#[test]
fn swap_zero_amount_rejected() {
    let config = initialize(0);
    let mut pool = pool_with(50, 0, 100);
    let r = pool.swap(&config, 0);
    assert_eq!(r, Err(PoolError::InvalidAmount));
    assert_eq!(pool.reserve_one, 0);
    assert_eq!(pool.reserve_two, 100);
}

#[test]
fn swap_cannot_overdraw_reserve_two() {
    // The curve prices the trade at 10, more than the pool's 5 of asset two.
    let config = initialize(0);
    let mut pool = pool_with(50, 0, 5);
    let r = pool.swap(&config, 4);
    assert_eq!(r, Err(PoolError::ArithmeticOverflow));
    assert_eq!(pool.reserve_one, 0);
    assert_eq!(pool.reserve_two, 5);
}

#[test]
fn grant_shares_reallocates_supply() {
    let mut pool = pool_with(200, 100, 400);
    let mut provider = LiquidityProvider { shares: 0 };
    assert_eq!(pool.grant_shares(&mut provider, 30), Ok(()));
    assert_eq!(provider.shares, 30);
    assert_eq!(pool.total_supply, 170);
}

#[test]
fn grant_shares_overflowing_position_fails() {
    let mut pool = pool_with(200, 100, 400);
    let mut provider = LiquidityProvider { shares: u64::MAX - 5 };
    assert_eq!(
        pool.grant_shares(&mut provider, 6),
        Err(PoolError::FailedToAllocateShares)
    );
    assert_eq!(provider.shares, u64::MAX - 5);
    assert_eq!(pool.total_supply, 200);
}

#[test]
fn remove_shares_insufficient_position() {
    let mut pool = pool_with(200, 100, 400);
    let mut provider = LiquidityProvider { shares: 5 };
    assert_eq!(
        pool.remove_shares(&mut provider, 10),
        Err(PoolError::FailedToDeallocateShares)
    );
    assert_eq!(provider.shares, 5);
    assert_eq!(pool.total_supply, 200);
}

#[test]
fn remove_shares_exceeding_supply_fails() {
    let mut pool = pool_with(10, 100, 400);
    let mut provider = LiquidityProvider { shares: 50 };
    assert_eq!(
        pool.remove_shares(&mut provider, 20),
        Err(PoolError::ArithmeticOverflow)
    );
    assert_eq!(provider.shares, 50);
    assert_eq!(pool.total_supply, 10);
}

#[test]
fn update_reserves_sets_both() {
    let mut pool = pool_with(10, 100, 400);
    assert_eq!(pool.update_reserves(1, 2), Ok(()));
    assert_eq!(pool.reserve_one, 1);
    assert_eq!(pool.reserve_two, 2);
    assert_eq!(pool.total_supply, 10);
}

#[test]
fn deposits_conserve_outstanding_shares() {
    // The provider's shares plus the recorded supply never change across
    // deposits; a redemption burns its shares from both sides at once.
    let mut pool = pool_with(200, 100, 400);
    let mut provider = LiquidityProvider { shares: 0 };
    let before = pool.total_supply + provider.shares;
    pool.add_liquidity(&mut provider, 0, 0, 10, 40).unwrap();
    assert_eq!(pool.total_supply + provider.shares, before);
    pool.add_liquidity(&mut provider, 0, 0, 22, 88).unwrap();
    assert_eq!(pool.total_supply + provider.shares, before);
    let redeemed = 20u64;
    pool.remove_liquidity(&mut provider, redeemed).unwrap();
    assert_eq!(pool.total_supply + provider.shares, before - 2 * redeemed);
}

#[test]
fn multiple_providers_conserve_outstanding_shares() {
    let mut pool = pool_with(1000, 100, 400);
    let mut first = LiquidityProvider { shares: 0 };
    let mut second = LiquidityProvider { shares: 0 };
    let before = pool.total_supply + first.shares + second.shares;
    pool.add_liquidity(&mut first, 0, 0, 10, 40).unwrap();
    assert_eq!(pool.total_supply + first.shares + second.shares, before);
    pool.add_liquidity(&mut second, 0, 0, 22, 88).unwrap();
    assert_eq!(pool.total_supply + first.shares + second.shares, before);
    pool.remove_liquidity(&mut first, 50).unwrap();
    assert_eq!(
        pool.total_supply + first.shares + second.shares,
        before - 2 * 50
    );
}
