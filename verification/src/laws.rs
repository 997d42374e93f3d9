use crate::engine::spec_add_liquidity;
use crate::engine::spec_grant_shares;
use crate::engine::spec_remove_liquidity;
use crate::engine::spec_remove_shares;
use crate::engine::spec_swap;
use crate::engine::spec_swap_amount_out;
use crate::engine::INITIAL_PRICE;
use crate::errors::PoolError;
use crate::state::LedgerModel;
use vstd::prelude::*;

verus! {

/// The cost the linear bonding curve assigns to buying `amount` units of
/// asset one when the pool already holds `r1` of them.
pub open spec fn curve_cost(r1: int, amount: int) -> int {
    (2 * r1 + amount + 1) * (amount / 2) * INITIAL_PRICE
}

/// A successful swap pays out exactly the curve cost.
pub proof fn lemma_swap_out_is_curve_cost(r1: nat, amount: nat)
    requires
        spec_swap_amount_out(r1, amount) is Ok,
    ensures
        spec_swap_amount_out(r1, amount)->Ok_0 == curve_cost(r1 as int, amount as int),
{
}

/// Swap monotonicity: with reserve one fixed, asking for more of asset one
/// strictly increases the curve cost, for any request of at least one unit.
pub proof fn lemma_swap_monotonic(r1: int, amount_small: int, amount_large: int)
    requires
        r1 >= 0,
        1 <= amount_small < amount_large,
    ensures
        curve_cost(r1, amount_small) < curve_cost(r1, amount_large),
{
    let inc_s = 2 * r1 + amount_small + 1;
    let inc_l = 2 * r1 + amount_large + 1;
    let q_s = amount_small / 2;
    let q_l = amount_large / 2;
    assert(q_s <= q_l);
    if amount_small == 1 {
        assert(q_s == 0);
        assert(q_l >= 1);
        assert(curve_cost(r1, amount_small) == 0) by (nonlinear_arith)
            requires
                curve_cost(r1, amount_small) == inc_s * q_s * INITIAL_PRICE,
                q_s == 0,
        ;
        assert(curve_cost(r1, amount_large) > 0) by (nonlinear_arith)
            requires
                curve_cost(r1, amount_large) == inc_l * q_l * INITIAL_PRICE,
                inc_l > 0,
                q_l >= 1,
                INITIAL_PRICE == 1,
        ;
    } else {
        assert(q_s >= 1);
        assert(inc_s * q_s * INITIAL_PRICE < inc_l * q_l * INITIAL_PRICE) by (nonlinear_arith)
            requires
                0 < inc_s < inc_l,
                1 <= q_s <= q_l,
                INITIAL_PRICE == 1,
        ;
    }
}

/// The single-unit plateau: one unit prices at zero, because the closed form
/// floors `amount / 2` before multiplying.
pub proof fn lemma_swap_single_unit_free(r1: int)
    requires
        r1 >= 0,
    ensures
        curve_cost(r1, 1) == 0,
{
    assert(curve_cost(r1, 1) == (2 * r1 + 2) * 0 * INITIAL_PRICE);
    assert((2 * r1 + 2) * 0 == 0) by (nonlinear_arith);
}

/// No negative reserves: a swap whose payout exceeds what the pool holds of
/// asset two fails with ArithmeticOverflow rather than draining the reserve
/// past zero.
pub proof fn lemma_swap_cannot_overdraw(m: LedgerModel, amount: nat)
    requires
        amount > 0,
        m.reserve_one + amount <= u64::MAX,
        spec_swap_amount_out(m.reserve_one, amount) is Ok,
        spec_swap_amount_out(m.reserve_one, amount)->Ok_0 > m.reserve_two,
    ensures
        spec_swap(m, amount) == Err::<(LedgerModel, nat), PoolError>(PoolError::ArithmeticOverflow),
{
}

/// No negative supply: granting more shares than the recorded supply holds
/// fails with ArithmeticOverflow rather than driving the supply past zero.
pub proof fn lemma_grant_cannot_underflow(m: LedgerModel, p: nat, shares: nat)
    requires
        shares > m.total_supply,
        p + shares <= u64::MAX,
    ensures
        spec_grant_shares(m, p, shares) == Err::<(LedgerModel, nat), PoolError>(
            PoolError::ArithmeticOverflow,
        ),
{
}

/// No negative supply: burning more shares than the recorded supply holds
/// fails with ArithmeticOverflow, however many the provider owns.
pub proof fn lemma_burn_cannot_underflow(m: LedgerModel, p: nat, shares: nat)
    requires
        shares > m.total_supply,
        shares <= p,
    ensures
        spec_remove_shares(m, p, shares) == Err::<(LedgerModel, nat), PoolError>(
            PoolError::ArithmeticOverflow,
        ),
{
}

/// One engine action against a ledger, aimed at the provider position with
/// the given index.
pub enum LedgerAction {
    Add { provider: int, decimals_one: nat, decimals_two: nat, amount_one: nat, amount_two: nat },
    Remove { provider: int, shares: nat },
}

/// The sum of a set of provider positions.
pub open spec fn sum_shares(positions: Seq<nat>) -> nat
    decreases positions.len(),
{
    if positions.len() == 0 {
        0
    } else {
        positions[0] + sum_shares(positions.skip(1))
    }
}

proof fn lemma_sum_shares_update(positions: Seq<nat>, i: int, v: nat)
    requires
        0 <= i < positions.len(),
    ensures
        sum_shares(positions.update(i, v)) == sum_shares(positions) - positions[i] + v,
    decreases positions.len(),
{
    if i == 0 {
        assert(positions.update(0, v)[0] == v);
        assert(positions.update(0, v).skip(1) =~= positions.skip(1));
    } else {
        assert(positions.update(i, v)[0] == positions[0]);
        assert(positions.update(i, v).skip(1) =~= positions.skip(1).update(i - 1, v));
        lemma_sum_shares_update(positions.skip(1), i - 1, v);
        assert(positions.skip(1)[i - 1] == positions[i]);
    }
}

/// The shares outstanding against a ledger, counted as the grant coupling
/// keeps them: every provider's allocated shares plus the unallocated
/// recorded supply.
pub open spec fn outstanding(m: LedgerModel, positions: Seq<nat>) -> nat {
    m.total_supply + sum_shares(positions)
}

/// The state after one action; an action that fails, or that names no
/// existing position, changes nothing.
pub open spec fn apply_action(m: LedgerModel, positions: Seq<nat>, action: LedgerAction) -> (
    LedgerModel,
    Seq<nat>,
) {
    match action {
        LedgerAction::Add { provider, decimals_one, decimals_two, amount_one, amount_two } => {
            if 0 <= provider < positions.len() {
                match spec_add_liquidity(
                    m,
                    positions[provider],
                    decimals_one,
                    decimals_two,
                    amount_one,
                    amount_two,
                ) {
                    Ok(next) => (next.0, positions.update(provider, next.1)),
                    Err(_) => (m, positions),
                }
            } else {
                (m, positions)
            }
        },
        LedgerAction::Remove { provider, shares } => {
            if 0 <= provider < positions.len() {
                match spec_remove_liquidity(m, positions[provider], shares) {
                    Ok(next) => (next.0, positions.update(provider, next.1)),
                    Err(_) => (m, positions),
                }
            } else {
                (m, positions)
            }
        },
    }
}

/// The state after a sequence of actions, applied left to right.
pub open spec fn apply_actions(m: LedgerModel, positions: Seq<nat>, actions: Seq<LedgerAction>) -> (
    LedgerModel,
    Seq<nat>,
)
    decreases actions.len(),
{
    if actions.len() == 0 {
        (m, positions)
    } else {
        let next = apply_action(m, positions, actions[0]);
        apply_actions(next.0, next.1, actions.skip(1))
    }
}

/// Conservation under the grant coupling, one step: a deposit reallocates
/// the minted shares from the recorded supply to the depositing provider,
/// leaving the outstanding count unchanged; a redemption burns the redeemed
/// shares from the provider and the recorded supply at once, so the count
/// can only fall. No action creates shares.
pub proof fn lemma_action_never_creates_shares(
    m: LedgerModel,
    positions: Seq<nat>,
    action: LedgerAction,
)
    ensures
        outstanding(apply_action(m, positions, action).0, apply_action(m, positions, action).1)
            <= outstanding(m, positions),
        action is Add ==> outstanding(
            apply_action(m, positions, action).0,
            apply_action(m, positions, action).1,
        ) == outstanding(m, positions),
{
    match action {
        LedgerAction::Add { provider, decimals_one, decimals_two, amount_one, amount_two } => {
            if 0 <= provider < positions.len() {
                match spec_add_liquidity(
                    m,
                    positions[provider],
                    decimals_one,
                    decimals_two,
                    amount_one,
                    amount_two,
                ) {
                    Ok(next) => {
                        lemma_sum_shares_update(positions, provider, next.1);
                    },
                    Err(_) => {},
                }
            }
        },
        LedgerAction::Remove { provider, shares } => {
            if 0 <= provider < positions.len() {
                match spec_remove_liquidity(m, positions[provider], shares) {
                    Ok(next) => {
                        lemma_sum_shares_update(positions, provider, next.1);
                    },
                    Err(_) => {},
                }
            }
        },
    }
}

/// Conservation under the grant coupling, for every sequence of deposits and
/// redemptions against any set of provider positions: the outstanding count
/// never grows.
pub proof fn lemma_actions_never_create_shares(
    m: LedgerModel,
    positions: Seq<nat>,
    actions: Seq<LedgerAction>,
)
    ensures
        outstanding(
            apply_actions(m, positions, actions).0,
            apply_actions(m, positions, actions).1,
        ) <= outstanding(m, positions),
    decreases actions.len(),
{
    if actions.len() > 0 {
        lemma_action_never_creates_shares(m, positions, actions[0]);
        let next = apply_action(m, positions, actions[0]);
        lemma_actions_never_create_shares(next.0, next.1, actions.skip(1));
    }
}

/// Deposits alone conserve the outstanding count exactly, over any sequence
/// and any set of positions: what the providers gain is precisely what the
/// recorded supply gives up.
pub proof fn lemma_deposits_conserve_shares(
    m: LedgerModel,
    positions: Seq<nat>,
    actions: Seq<LedgerAction>,
)
    requires
        forall|i: int| 0 <= i < actions.len() ==> actions[i] is Add,
    ensures
        outstanding(
            apply_actions(m, positions, actions).0,
            apply_actions(m, positions, actions).1,
        ) == outstanding(m, positions),
    decreases actions.len(),
{
    if actions.len() > 0 {
        assert(actions[0] is Add);
        lemma_action_never_creates_shares(m, positions, actions[0]);
        let next = apply_action(m, positions, actions[0]);
        assert forall|i: int| 0 <= i < actions.skip(1).len() implies actions.skip(1)[i] is Add by {
            assert(actions.skip(1)[i] == actions[i + 1]);
        }
        lemma_deposits_conserve_shares(next.0, next.1, actions.skip(1));
    }
}

} // verus!
