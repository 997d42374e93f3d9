use crate::errors::PoolError;
use crate::math::bootstrap_shares;
use crate::math::spec_bootstrap_shares;
use crate::state::CurveConfiguration;
use crate::state::LedgerModel;
use crate::state::LiquidityPool;
use crate::state::LiquidityProvider;
use vstd::prelude::*;

verus! {

/// The constant P of the linear bonding curve: the price of the first unit
/// of asset one, in units of asset two.
pub const INITIAL_PRICE: u64 = 1;

proof fn lemma_u64_mul_fits_u128(x: u64, y: u64)
    by (nonlinear_arith)
    ensures
        (x as nat) * (y as nat) <= u128::MAX as nat,
{
}

/// Shares minted by a deposit into a pool that already holds liquidity: the
/// smaller of the two deposit-to-reserve ratios scaled by the issued supply,
/// so issuance is capped by the more constrained asset. Overflow of either
/// product, or a drained reserve, is a hard failure.
pub open spec fn spec_steady_state_shares(a1: nat, a2: nat, r1: nat, r2: nat, t: nat) -> Result<
    nat,
    PoolError,
> {
    if a1 * t > u64::MAX {
        Err(PoolError::ArithmeticOverflow)
    } else if r1 == 0 {
        Err(PoolError::ArithmeticOverflow)
    } else if a2 * t > u64::MAX {
        Err(PoolError::ArithmeticOverflow)
    } else if r2 == 0 {
        Err(PoolError::ArithmeticOverflow)
    } else if (a1 * t) / r1 <= (a2 * t) / r2 {
        Ok((a1 * t) / r1)
    } else {
        Ok((a2 * t) / r2)
    }
}

pub fn steady_state_shares(
    amount_one: u64,
    amount_two: u64,
    reserve_one: u64,
    reserve_two: u64,
    total_supply: u64,
) -> (r: Result<u64, PoolError>)
    ensures
        match spec_steady_state_shares(
            amount_one as nat,
            amount_two as nat,
            reserve_one as nat,
            reserve_two as nat,
            total_supply as nat,
        ) {
            Ok(s) => r matches Ok(v) && v as nat == s,
            Err(e) => r == Err::<u64, PoolError>(e),
        },
{
    proof {
        lemma_u64_mul_fits_u128(amount_one, total_supply);
        lemma_u64_mul_fits_u128(amount_two, total_supply);
    }
    let prod_one: u128 = (amount_one as u128) * (total_supply as u128);
    if prod_one > u64::MAX as u128 {
        return Err(PoolError::ArithmeticOverflow);
    }
    if reserve_one == 0 {
        return Err(PoolError::ArithmeticOverflow);
    }
    let shares_one: u64 = (prod_one as u64) / reserve_one;
    let prod_two: u128 = (amount_two as u128) * (total_supply as u128);
    if prod_two > u64::MAX as u128 {
        return Err(PoolError::ArithmeticOverflow);
    }
    if reserve_two == 0 {
        return Err(PoolError::ArithmeticOverflow);
    }
    let shares_two: u64 = (prod_two as u64) / reserve_two;
    if shares_one <= shares_two {
        Ok(shares_one)
    } else {
        Ok(shares_two)
    }
}

/// Amounts paid out when `shares` are redeemed: each reserve scaled by the
/// redeemed fraction of the issued supply, rounded down. Overflow of either
/// product, or a zero issued supply, is a hard failure.
pub open spec fn spec_removal_amounts(shares: nat, r1: nat, r2: nat, t: nat) -> Result<
    (nat, nat),
    PoolError,
> {
    if shares * r1 > u64::MAX {
        Err(PoolError::ArithmeticOverflow)
    } else if t == 0 {
        Err(PoolError::ArithmeticOverflow)
    } else if shares * r2 > u64::MAX {
        Err(PoolError::ArithmeticOverflow)
    } else {
        Ok(((shares * r1) / t, (shares * r2) / t))
    }
}

pub fn removal_amounts(shares: u64, reserve_one: u64, reserve_two: u64, total_supply: u64) -> (r:
    Result<(u64, u64), PoolError>)
    ensures
        match spec_removal_amounts(
            shares as nat,
            reserve_one as nat,
            reserve_two as nat,
            total_supply as nat,
        ) {
            Ok(amounts) => r matches Ok(v) && v.0 as nat == amounts.0 && v.1 as nat == amounts.1,
            Err(e) => r == Err::<(u64, u64), PoolError>(e),
        },
{
    proof {
        lemma_u64_mul_fits_u128(shares, reserve_one);
        lemma_u64_mul_fits_u128(shares, reserve_two);
    }
    let prod_one: u128 = (shares as u128) * (reserve_one as u128);
    if prod_one > u64::MAX as u128 {
        return Err(PoolError::ArithmeticOverflow);
    }
    if total_supply == 0 {
        return Err(PoolError::ArithmeticOverflow);
    }
    let amount_out_one: u64 = (prod_one as u64) / total_supply;
    let prod_two: u128 = (shares as u128) * (reserve_two as u128);
    if prod_two > u64::MAX as u128 {
        return Err(PoolError::ArithmeticOverflow);
    }
    let amount_out_two: u64 = (prod_two as u64) / total_supply;
    Ok((amount_out_one, amount_out_two))
}

/// Cost in asset two of moving reserve one from `r1` to `r1 + amount` along
/// the linear curve: the closed-form difference of triangular sums,
/// `(2*r1 + amount + 1) * floor(amount / 2) * P`, every step checked. The
/// floor on `amount / 2` reproduces the engine's deliberate truncation.
pub open spec fn spec_swap_amount_out(r1: nat, amount: nat) -> Result<nat, PoolError> {
    if 2 * r1 > u64::MAX {
        Err(PoolError::ArithmeticOverflow)
    } else if 2 * r1 + amount > u64::MAX {
        Err(PoolError::ArithmeticOverflow)
    } else if 2 * r1 + amount + 1 > u64::MAX {
        Err(PoolError::ArithmeticOverflow)
    } else if (2 * r1 + amount + 1) * (amount / 2) > u64::MAX {
        Err(PoolError::ArithmeticOverflow)
    } else if (2 * r1 + amount + 1) * (amount / 2) * INITIAL_PRICE > u64::MAX {
        Err(PoolError::ArithmeticOverflow)
    } else {
        Ok(((2 * r1 + amount + 1) * (amount / 2) * INITIAL_PRICE) as nat)
    }
}

pub fn swap_amount_out(reserve_one: u64, amount: u64) -> (r: Result<u64, PoolError>)
    ensures
        match spec_swap_amount_out(reserve_one as nat, amount as nat) {
            Ok(out) => r matches Ok(v) && v as nat == out,
            Err(e) => r == Err::<u64, PoolError>(e),
        },
{
    if reserve_one > u64::MAX / 2 {
        return Err(PoolError::ArithmeticOverflow);
    }
    let doubled = reserve_one * 2;
    if amount > u64::MAX - doubled {
        return Err(PoolError::ArithmeticOverflow);
    }
    let with_amount = doubled + amount;
    if with_amount > u64::MAX - 1 {
        return Err(PoolError::ArithmeticOverflow);
    }
    let amount_inc = with_amount + 1;
    let multiplier = amount / 2;
    proof {
        lemma_u64_mul_fits_u128(amount_inc, multiplier);
    }
    let prod: u128 = (amount_inc as u128) * (multiplier as u128);
    if prod > u64::MAX as u128 {
        return Err(PoolError::ArithmeticOverflow);
    }
    let scaled: u128 = (prod as u64 as u128) * (INITIAL_PRICE as u128);
    if scaled > u64::MAX as u128 {
        return Err(PoolError::ArithmeticOverflow);
    }
    Ok(scaled as u64)
}

/// Outcome of reallocating `shares` from the recorded supply to a provider:
/// the provider gains exactly what the recorded total gives up, or nothing
/// moves at all.
pub open spec fn spec_grant_shares(m: LedgerModel, p: nat, shares: nat) -> Result<
    (LedgerModel, nat),
    PoolError,
> {
    if p + shares > u64::MAX {
        Err(PoolError::FailedToAllocateShares)
    } else if shares > m.total_supply {
        Err(PoolError::ArithmeticOverflow)
    } else {
        Ok(
            (
                LedgerModel {
                    total_supply: (m.total_supply - shares) as nat,
                    reserve_one: m.reserve_one,
                    reserve_two: m.reserve_two,
                },
                p + shares,
            ),
        )
    }
}

/// Outcome of burning `shares` from a provider and from the recorded supply
/// together.
pub open spec fn spec_remove_shares(m: LedgerModel, p: nat, shares: nat) -> Result<
    (LedgerModel, nat),
    PoolError,
> {
    if shares > p {
        Err(PoolError::FailedToDeallocateShares)
    } else if shares > m.total_supply {
        Err(PoolError::ArithmeticOverflow)
    } else {
        Ok(
            (
                LedgerModel {
                    total_supply: (m.total_supply - shares) as nat,
                    reserve_one: m.reserve_one,
                    reserve_two: m.reserve_two,
                },
                (p - shares) as nat,
            ),
        )
    }
}

/// Outcome of a deposit: shares minted by the bootstrap or steady-state
/// formula, reallocated to the provider, and both reserves incremented; any
/// failing step reports its error and changes nothing.
pub open spec fn spec_add_liquidity(
    m: LedgerModel,
    p: nat,
    d1: nat,
    d2: nat,
    a1: nat,
    a2: nat,
) -> Result<(LedgerModel, nat, nat), PoolError> {
    let shares_r: Result<nat, PoolError> = if m.total_supply == 0 {
        Ok(spec_bootstrap_shares(a1, d1, a2, d2))
    } else {
        spec_steady_state_shares(a1, a2, m.reserve_one, m.reserve_two, m.total_supply)
    };
    match shares_r {
        Err(e) => Err(e),
        Ok(s) => if s == 0 {
            Err(PoolError::FailedToAddLiquidity)
        } else {
            match spec_grant_shares(m, p, s) {
                Err(e) => Err(e),
                Ok((m2, p2)) => if m2.reserve_one + a1 > u64::MAX {
                    Err(PoolError::ArithmeticOverflow)
                } else if m2.reserve_two + a2 > u64::MAX {
                    Err(PoolError::ArithmeticOverflow)
                } else {
                    Ok(
                        (
                            LedgerModel {
                                total_supply: m2.total_supply,
                                reserve_one: m2.reserve_one + a1,
                                reserve_two: m2.reserve_two + a2,
                            },
                            p2,
                            s,
                        ),
                    )
                },
            }
        },
    }
}

/// Outcome of a redemption: payouts by the proportional formula, shares
/// burned from the provider and the recorded supply, both reserves
/// decremented; any failing step reports its error and changes nothing.
pub open spec fn spec_remove_liquidity(m: LedgerModel, p: nat, shares: nat) -> Result<
    (LedgerModel, nat, nat, nat),
    PoolError,
> {
    if shares == 0 {
        Err(PoolError::FailedToRemoveLiquidity)
    } else if p < shares {
        Err(PoolError::InsufficientShares)
    } else {
        match spec_removal_amounts(shares, m.reserve_one, m.reserve_two, m.total_supply) {
            Err(e) => Err(e),
            Ok(amounts) => if amounts.0 == 0 || amounts.1 == 0 {
                Err(PoolError::FailedToRemoveLiquidity)
            } else {
                match spec_remove_shares(m, p, shares) {
                    Err(e) => Err(e),
                    Ok((m2, p2)) => if amounts.0 > m2.reserve_one {
                        Err(PoolError::ArithmeticOverflow)
                    } else if amounts.1 > m2.reserve_two {
                        Err(PoolError::ArithmeticOverflow)
                    } else {
                        Ok(
                            (
                                LedgerModel {
                                    total_supply: m2.total_supply,
                                    reserve_one: (m2.reserve_one - amounts.0) as nat,
                                    reserve_two: (m2.reserve_two - amounts.1) as nat,
                                },
                                p2,
                                amounts.0,
                                amounts.1,
                            ),
                        )
                    },
                }
            },
        }
    }
}

/// Outcome of a swap: the curve prices `amount` of asset one, reserve one
/// grows by the amount pulled in, reserve two shrinks by the amount paid
/// out; paying out more than the pool holds is a hard failure.
pub open spec fn spec_swap(m: LedgerModel, amount: nat) -> Result<(LedgerModel, nat), PoolError> {
    if amount == 0 {
        Err(PoolError::InvalidAmount)
    } else {
        match spec_swap_amount_out(m.reserve_one, amount) {
            Err(e) => Err(e),
            Ok(out) => if m.reserve_one + amount > u64::MAX {
                Err(PoolError::ArithmeticOverflow)
            } else if out > m.reserve_two {
                Err(PoolError::ArithmeticOverflow)
            } else {
                Ok(
                    (
                        LedgerModel {
                            total_supply: m.total_supply,
                            reserve_one: m.reserve_one + amount,
                            reserve_two: (m.reserve_two - out) as nat,
                        },
                        out,
                    ),
                )
            },
        }
    }
}

impl LiquidityPool {
    /// Reallocates `shares` between the recorded supply and the provider's
    /// position as one atomic step: the provider gains exactly what the
    /// recorded total gives up, and a failure moves nothing.
    pub fn grant_shares(&mut self, provider: &mut LiquidityProvider, shares: u64) -> (r: Result<
        (),
        PoolError,
    >)
        ensures
            final(self).token_one == old(self).token_one,
            final(self).token_two == old(self).token_two,
            final(self).bump == old(self).bump,
            final(self).reserve_one == old(self).reserve_one,
            final(self).reserve_two == old(self).reserve_two,
            match spec_grant_shares(old(self).ledger(), old(provider).shares as nat, shares as nat) {
                Ok(next) => r == Ok::<(), PoolError>(()) && final(self).ledger() == next.0 && final(provider).shares as nat == next.1,
                Err(e) => r == Err::<(), PoolError>(e) && *final(self) == *old(self) && *final(provider) == *old(provider),
            },
    {
        if shares > u64::MAX - provider.shares {
            return Err(PoolError::FailedToAllocateShares);
        }
        if shares > self.total_supply {
            return Err(PoolError::ArithmeticOverflow);
        }
        provider.shares = provider.shares + shares;
        self.total_supply = self.total_supply - shares;
        Ok(())
    }

    /// Burns `shares` from the provider's position and from the recorded
    /// supply together, atomically.
    pub fn remove_shares(&mut self, provider: &mut LiquidityProvider, shares: u64) -> (r: Result<
        (),
        PoolError,
    >)
        ensures
            final(self).token_one == old(self).token_one,
            final(self).token_two == old(self).token_two,
            final(self).bump == old(self).bump,
            final(self).reserve_one == old(self).reserve_one,
            final(self).reserve_two == old(self).reserve_two,
            match spec_remove_shares(
                old(self).ledger(),
                old(provider).shares as nat,
                shares as nat,
            ) {
                Ok(next) => r == Ok::<(), PoolError>(()) && final(self).ledger() == next.0 && final(provider).shares as nat == next.1,
                Err(e) => r == Err::<(), PoolError>(e) && *final(self) == *old(self) && *final(provider) == *old(provider),
            },
    {
        if shares > provider.shares {
            return Err(PoolError::FailedToDeallocateShares);
        }
        if shares > self.total_supply {
            return Err(PoolError::ArithmeticOverflow);
        }
        provider.shares = provider.shares - shares;
        self.total_supply = self.total_supply - shares;
        Ok(())
    }

    /// Overwrites the two reserves; the engine's only write path to them.
    pub fn update_reserves(&mut self, reserve_one: u64, reserve_two: u64) -> (r: Result<
        (),
        PoolError,
    >)
        ensures
            r == Ok::<(), PoolError>(()),
            final(self).token_one == old(self).token_one,
            final(self).token_two == old(self).token_two,
            final(self).bump == old(self).bump,
            final(self).total_supply == old(self).total_supply,
            final(self).reserve_one == reserve_one,
            final(self).reserve_two == reserve_two,
    {
        self.reserve_one = reserve_one;
        self.reserve_two = reserve_two;
        Ok(())
    }

    /// Deposits `amount_one` and `amount_two` and mints shares for the
    /// provider: by the square-root formula on the first deposit, by the
    /// proportional minimum afterwards. On success the returned value is the
    /// number of shares minted, and the caller owes the pool both deposit
    /// amounts; on failure the ledger and the position are unchanged.
    pub fn add_liquidity(
        &mut self,
        provider: &mut LiquidityProvider,
        decimals_one: u8,
        decimals_two: u8,
        amount_one: u64,
        amount_two: u64,
    ) -> (r: Result<u64, PoolError>)
        ensures
            final(self).token_one == old(self).token_one,
            final(self).token_two == old(self).token_two,
            final(self).bump == old(self).bump,
            match spec_add_liquidity(
                old(self).ledger(),
                old(provider).shares as nat,
                decimals_one as nat,
                decimals_two as nat,
                amount_one as nat,
                amount_two as nat,
            ) {
                Ok(next) => r matches Ok(minted) && minted as nat == next.2 && final(self).ledger()
                    == next.0 && final(provider).shares as nat == next.1,
                Err(e) => r == Err::<u64, PoolError>(e) && *final(self) == *old(self) && *final(provider) == *old(provider),
            },
    {
        let shares: u64;
        if self.total_supply == 0 {
            shares = bootstrap_shares(amount_one, decimals_one, amount_two, decimals_two);
        } else {
            shares =
            match steady_state_shares(
                amount_one,
                amount_two,
                self.reserve_one,
                self.reserve_two,
                self.total_supply,
            ) {
                Ok(s) => s,
                Err(e) => {
                    return Err(e);
                },
            };
        }
        if shares == 0 {
            return Err(PoolError::FailedToAddLiquidity);
        }
        // Validate every mutation before performing any, so that a failing
        // operation leaves the ledger and the position untouched.
        if shares > u64::MAX - provider.shares {
            return Err(PoolError::FailedToAllocateShares);
        }
        if shares > self.total_supply {
            return Err(PoolError::ArithmeticOverflow);
        }
        if amount_one > u64::MAX - self.reserve_one {
            return Err(PoolError::ArithmeticOverflow);
        }
        if amount_two > u64::MAX - self.reserve_two {
            return Err(PoolError::ArithmeticOverflow);
        }
        match self.grant_shares(provider, shares) {
            Ok(()) => {},
            Err(e) => {
                return Err(e);
            },
        }
        let new_reserves_one = self.reserve_one + amount_one;
        let new_reserves_two = self.reserve_two + amount_two;
        match self.update_reserves(new_reserves_one, new_reserves_two) {
            Ok(()) => {},
            Err(e) => {
                return Err(e);
            },
        }
        Ok(shares)
    }

    /// Redeems `shares` for a proportional slice of both reserves. On
    /// success the returned pair is what the pool owes the provider; on
    /// failure the ledger and the position are unchanged.
    pub fn remove_liquidity(&mut self, provider: &mut LiquidityProvider, shares: u64) -> (r: Result<
        (u64, u64),
        PoolError,
    >)
        ensures
            final(self).token_one == old(self).token_one,
            final(self).token_two == old(self).token_two,
            final(self).bump == old(self).bump,
            match spec_remove_liquidity(
                old(self).ledger(),
                old(provider).shares as nat,
                shares as nat,
            ) {
                Ok(next) => r matches Ok(out) && out.0 as nat == next.2 && out.1 as nat == next.3
                    && final(self).ledger() == next.0 && final(provider).shares as nat == next.1,
                Err(e) => r == Err::<(u64, u64), PoolError>(e) && *final(self) == *old(self)
                    && *final(provider) == *old(provider),
            },
    {
        if shares == 0 {
            return Err(PoolError::FailedToRemoveLiquidity);
        }
        if provider.shares < shares {
            return Err(PoolError::InsufficientShares);
        }
        let amounts = match removal_amounts(
            shares,
            self.reserve_one,
            self.reserve_two,
            self.total_supply,
        ) {
            Ok(amounts) => amounts,
            Err(e) => {
                return Err(e);
            },
        };
        if amounts.0 == 0 || amounts.1 == 0 {
            return Err(PoolError::FailedToRemoveLiquidity);
        }
        // Validate every mutation before performing any.
        if shares > self.total_supply {
            return Err(PoolError::ArithmeticOverflow);
        }
        if amounts.0 > self.reserve_one {
            return Err(PoolError::ArithmeticOverflow);
        }
        if amounts.1 > self.reserve_two {
            return Err(PoolError::ArithmeticOverflow);
        }
        match self.remove_shares(provider, shares) {
            Ok(()) => {},
            Err(e) => {
                return Err(e);
            },
        }
        let new_reserves_one = self.reserve_one - amounts.0;
        let new_reserves_two = self.reserve_two - amounts.1;
        match self.update_reserves(new_reserves_one, new_reserves_two) {
            Ok(()) => {},
            Err(e) => {
                return Err(e);
            },
        }
        Ok(amounts)
    }

    /// Buys `amount` of asset one from the pool along the linear bonding
    /// curve. On success the returned value is the cost in asset two, which
    /// the pool owes the caller; reserve one grows by `amount` and reserve
    /// two shrinks by the cost. The fee held in the configuration is not
    /// applied by the curve formula. On failure the ledger is unchanged.
    pub fn swap(&mut self, _config: &CurveConfiguration, amount: u64) -> (r: Result<
        u64,
        PoolError,
    >)
        ensures
            final(self).token_one == old(self).token_one,
            final(self).token_two == old(self).token_two,
            final(self).bump == old(self).bump,
            match spec_swap(old(self).ledger(), amount as nat) {
                Ok(next) => r matches Ok(out) && out as nat == next.1 && final(self).ledger()
                    == next.0,
                Err(e) => r == Err::<u64, PoolError>(e) && *final(self) == *old(self),
            },
    {
        if amount == 0 {
            return Err(PoolError::InvalidAmount);
        }
        let amount_out = match swap_amount_out(self.reserve_one, amount) {
            Ok(out) => out,
            Err(e) => {
                return Err(e);
            },
        };
        if amount > u64::MAX - self.reserve_one {
            return Err(PoolError::ArithmeticOverflow);
        }
        if amount_out > self.reserve_two {
            return Err(PoolError::ArithmeticOverflow);
        }
        let new_reserves_one = self.reserve_one + amount;
        let new_reserves_two = self.reserve_two - amount_out;
        match self.update_reserves(new_reserves_one, new_reserves_two) {
            Ok(()) => {},
            Err(e) => {
                return Err(e);
            },
        }
        Ok(amount_out)
    }
}

} // verus!
