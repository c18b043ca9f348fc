use vstd::prelude::*;

use crate::error::AmmError;
use crate::state::{
    EmergencyWithdraw, EmergencyWithdrawn, InitializePool, OnlyAuthority, Paused, Pool,
    PoolInitialized, Unpaused, BPS_DENOMINATOR,
};

verus! {

/// The fee rates make a consistent split.
pub open spec fn valid_fee_split(protocol_fee_bps: u16, treasury_fee_bps: u16, reward_fee_bps: u16) -> bool {
    treasury_fee_bps + reward_fee_bps <= protocol_fee_bps && protocol_fee_bps <= BPS_DENOMINATOR
}

/// Sets up a pool bound to the accounts of `ctx`, unpaused, with no deposit
/// made and no reward accrued. Fails with `InvalidFeeSplit` unless the
/// treasury and reward rates fit in the protocol rate, itself at most the
/// whole trade.
pub fn initialize_pool(
    ctx: &InitializePool,
    protocol_fee_bps: u16,
    treasury_fee_bps: u16,
    reward_fee_bps: u16,
) -> (r: Result<(Pool, PoolInitialized), AmmError>)
    ensures
        !valid_fee_split(protocol_fee_bps, treasury_fee_bps, reward_fee_bps) ==> r
            == Err::<(Pool, PoolInitialized), AmmError>(AmmError::InvalidFeeSplit),
        valid_fee_split(protocol_fee_bps, treasury_fee_bps, reward_fee_bps) ==> r == Ok::<
            (Pool, PoolInitialized),
            AmmError,
        >(
            (
                Pool {
                    authority: ctx.authority,
                    token_a_mint: ctx.token_a_mint,
                    token_b_mint: ctx.token_b_mint,
                    lp_mint: ctx.lp_mint,
                    reserve_a: ctx.reserve_a,
                    reserve_b: ctx.reserve_b,
                    protocol_fee_bps,
                    treasury: ctx.treasury,
                    treasury_fee_bps,
                    reward_fee_bps,
                    vesting_nonce: 0,
                    paused: false,
                    acc_reward_per_lp: 0,
                },
                PoolInitialized { pool: ctx.pool, authority: ctx.authority, treasury: ctx.treasury },
            ),
        ),
        r is Ok ==> r->Ok_0.0.wf(),
{
    let fits = match treasury_fee_bps.checked_add(reward_fee_bps) {
        Some(sum) => sum <= protocol_fee_bps,
        None => false,
    };
    if !fits || protocol_fee_bps > BPS_DENOMINATOR {
        return Err(AmmError::InvalidFeeSplit);
    }
    let pool = Pool {
        authority: ctx.authority,
        token_a_mint: ctx.token_a_mint,
        token_b_mint: ctx.token_b_mint,
        lp_mint: ctx.lp_mint,
        reserve_a: ctx.reserve_a,
        reserve_b: ctx.reserve_b,
        protocol_fee_bps,
        treasury: ctx.treasury,
        treasury_fee_bps,
        reward_fee_bps,
        vesting_nonce: 0,
        paused: false,
        acc_reward_per_lp: 0,
    };
    Ok((pool, PoolInitialized { pool: ctx.pool, authority: ctx.authority, treasury: ctx.treasury }))
}

/// Stops every mutating operation of the pool.
pub fn pause(pool: &mut Pool, ctx: &OnlyAuthority) -> (r: Paused)
    ensures
        *final(pool) == (Pool { paused: true, ..*old(pool) }),
        r == (Paused { pool: ctx.pool }),
{
    pool.paused = true;
    Paused { pool: ctx.pool }
}

/// Lets the pool's operations run again.
pub fn unpause(pool: &mut Pool, ctx: &OnlyAuthority) -> (r: Unpaused)
    ensures
        *final(pool) == (Pool { paused: false, ..*old(pool) }),
        r == (Unpaused { pool: ctx.pool }),
{
    pool.paused = false;
    Unpaused { pool: ctx.pool }
}

/// Sweeps both reserves, whole, to the treasury; the pool record is left as it is.
pub fn emergency_withdraw(ctx: &EmergencyWithdraw) -> (r: EmergencyWithdrawn)
    ensures
        r == (EmergencyWithdrawn { pool: ctx.pool, amount_a: ctx.reserve_a_amount, amount_b: ctx.reserve_b_amount }),
{
    EmergencyWithdrawn { pool: ctx.pool, amount_a: ctx.reserve_a_amount, amount_b: ctx.reserve_b_amount }
}

} // verus!
