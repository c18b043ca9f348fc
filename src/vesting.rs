use vstd::prelude::*;

use crate::error::AmmError;
use crate::liquidity::{calculate_lp_mint_amount, lp_mint_result};
use crate::rewards::{accrued_reward, pending_reward, pending_reward_of, reward_debt_for};
use crate::state::{
    ClaimVested, Claimed, DepositAndVest, Deposited, EarlyUnvest, EarlyUnvested, Pool, VestingStake,
    BPS_DENOMINATOR, MAX_VESTING_SECONDS, MIN_VESTING_SECONDS,
};

verus! {

/// Outcome of a deposit: the new stake and its notification, or the first
/// check that fails.
pub open spec fn deposit_result(
    pool: Pool,
    ctx: DepositAndVest,
    amount_a: u64,
    amount_b: u64,
    vesting_seconds: i64,
) -> Result<(VestingStake, Deposited), AmmError> {
    if pool.paused {
        Err(AmmError::Paused)
    } else if vesting_seconds < MIN_VESTING_SECONDS || vesting_seconds > MAX_VESTING_SECONDS {
        Err(AmmError::InvalidVestingPeriod)
    } else {
        match lp_mint_result(amount_a, amount_b, ctx.reserve_a_amount, ctx.reserve_b_amount, ctx.lp_supply) {
            Err(e) => Err(e),
            Ok(minted) => if ctx.now + vesting_seconds > i64::MAX {
                Err(AmmError::NumericOverflow)
            } else if minted * pool.acc_reward_per_lp > u128::MAX {
                Err(AmmError::NumericOverflow)
            } else if pool.vesting_nonce == u64::MAX {
                Err(AmmError::NumericOverflow)
            } else {
                let vesting_end = (ctx.now + vesting_seconds) as i64;
                Ok(
                    (
                        VestingStake {
                            pool: ctx.pool,
                            user: ctx.user,
                            amount: minted,
                            vesting_end,
                            claimed: false,
                            deposit_id: pool.vesting_nonce,
                            reward_debt: accrued_reward(minted as int, pool.acc_reward_per_lp as int) as u128,
                        },
                        Deposited { pool: ctx.pool, user: ctx.user, amount: minted, vesting_end },
                    ),
                )
            },
        }
    }
}

/// Deposits `amount_a` and `amount_b` and locks the minted share units for
/// `vesting_seconds`. The new stake takes the pool's nonce as its id, which
/// then advances, and starts with no pending reward. On failure the pool is
/// unchanged.
pub fn deposit_and_vest(
    pool: &mut Pool,
    ctx: &DepositAndVest,
    amount_a: u64,
    amount_b: u64,
    vesting_seconds: i64,
) -> (r: Result<(VestingStake, Deposited), AmmError>)
    ensures
        r == deposit_result(*old(pool), *ctx, amount_a, amount_b, vesting_seconds),
        r is Ok ==> *final(pool) == (Pool { vesting_nonce: (old(pool).vesting_nonce + 1) as u64, ..*old(pool) }),
        r is Err ==> *final(pool) == *old(pool),
        r is Ok ==> pending_reward_of(
            r->Ok_0.0.amount as int,
            old(pool).acc_reward_per_lp as int,
            r->Ok_0.0.reward_debt as int,
        ) == 0,
{
    if pool.paused {
        return Err(AmmError::Paused);
    }
    if vesting_seconds < MIN_VESTING_SECONDS || vesting_seconds > MAX_VESTING_SECONDS {
        return Err(AmmError::InvalidVestingPeriod);
    }
    let minted = calculate_lp_mint_amount(
        amount_a,
        amount_b,
        ctx.reserve_a_amount,
        ctx.reserve_b_amount,
        ctx.lp_supply,
    )?;
    let vesting_end = match ctx.now.checked_add(vesting_seconds) {
        Some(v) => v,
        None => return Err(AmmError::NumericOverflow),
    };
    let reward_debt = reward_debt_for(minted, pool.acc_reward_per_lp)?;
    let next_nonce = match pool.vesting_nonce.checked_add(1) {
        Some(v) => v,
        None => return Err(AmmError::NumericOverflow),
    };
    let stake = VestingStake {
        pool: ctx.pool,
        user: ctx.user,
        amount: minted,
        vesting_end,
        claimed: false,
        deposit_id: pool.vesting_nonce,
        reward_debt,
    };
    pool.vesting_nonce = next_nonce;
    Ok((stake, Deposited { pool: ctx.pool, user: ctx.user, amount: minted, vesting_end }))
}

/// Outcome of a claim: its notification and the settled stake, or the first
/// check that fails. The reward is skipped when the vault cannot cover it.
pub open spec fn claim_result(pool: Pool, ctx: ClaimVested, stake: VestingStake) -> Result<(Claimed, VestingStake), AmmError> {
    if pool.paused {
        Err(AmmError::Paused)
    } else if stake.claimed {
        Err(AmmError::AlreadyClaimed)
    } else if ctx.now < stake.vesting_end {
        Err(AmmError::VestingNotFinished)
    } else if stake.amount * pool.acc_reward_per_lp > u128::MAX {
        Err(AmmError::NumericOverflow)
    } else {
        let pending = pending_reward_of(stake.amount as int, pool.acc_reward_per_lp as int, stake.reward_debt as int);
        if pending > u64::MAX {
            Err(AmmError::NumericOverflow)
        } else {
            let reward: u64 = if ctx.reward_vault_amount >= pending {
                pending as u64
            } else {
                0
            };
            Ok(
                (
                    Claimed { pool: ctx.pool, user: stake.user, amount: stake.amount, reward },
                    VestingStake {
                        claimed: true,
                        reward_debt: accrued_reward(stake.amount as int, pool.acc_reward_per_lp as int) as u128,
                        ..stake
                    },
                ),
            )
        }
    }
}

/// Releases a matured stake: its whole amount goes to the owner with its
/// pending reward, and the stake is closed. On failure the stake is unchanged.
pub fn claim_vested(pool: &Pool, ctx: &ClaimVested, stake: &mut VestingStake) -> (r: Result<Claimed, AmmError>)
    ensures
        match claim_result(*pool, *ctx, *old(stake)) {
            Ok((ev, settled)) => r == Ok::<Claimed, AmmError>(ev) && *final(stake) == settled,
            Err(e) => r == Err::<Claimed, AmmError>(e) && *final(stake) == *old(stake),
        },
{
    if pool.paused {
        return Err(AmmError::Paused);
    }
    if stake.claimed {
        return Err(AmmError::AlreadyClaimed);
    }
    if ctx.now < stake.vesting_end {
        return Err(AmmError::VestingNotFinished);
    }
    let total = reward_debt_for(stake.amount, pool.acc_reward_per_lp)?;
    let pending = pending_reward(stake.amount, pool.acc_reward_per_lp, stake.reward_debt)?;
    if pending > u64::MAX as u128 {
        return Err(AmmError::NumericOverflow);
    }
    let pending_u64 = pending as u64;
    let reward: u64 = if ctx.reward_vault_amount >= pending_u64 {
        pending_u64
    } else {
        0
    };
    stake.claimed = true;
    stake.reward_debt = total;
    Ok(Claimed { pool: ctx.pool, user: stake.user, amount: stake.amount, reward })
}

/// The penalty kept from `lp_amount` at `penalty_bps`, rounded down.
pub open spec fn penalty_of(lp_amount: int, penalty_bps: int) -> int {
    lp_amount * penalty_bps / (BPS_DENOMINATOR as int)
}

/// Outcome of an early exit: its notification and the reduced stake, or the
/// first check that fails. Pending reward is not settled.
pub open spec fn early_unvest_result(
    pool: Pool,
    ctx: EarlyUnvest,
    stake: VestingStake,
    lp_amount: u64,
    penalty_bps: u16,
) -> Result<(EarlyUnvested, VestingStake), AmmError> {
    if pool.paused {
        Err(AmmError::Paused)
    } else if penalty_bps > BPS_DENOMINATOR {
        Err(AmmError::InvalidPenalty)
    } else if stake.claimed {
        Err(AmmError::AlreadyClaimed)
    } else if lp_amount > stake.amount {
        Err(AmmError::InsufficientVestedAmount)
    } else {
        let penalty = penalty_of(lp_amount as int, penalty_bps as int);
        let left = (stake.amount - lp_amount) as u64;
        Ok(
            (
                EarlyUnvested {
                    pool: ctx.pool,
                    user: stake.user,
                    amount_unvested: lp_amount,
                    penalty: penalty as u64,
                    amount_to_user: (lp_amount - penalty) as u64,
                },
                VestingStake { amount: left, claimed: left == 0, ..stake },
            ),
        )
    }
}

/// Releases `lp_amount` of a stake before it matures: `penalty_bps` of it goes
/// to the treasury and the rest to the owner. A stake emptied this way is
/// closed. On failure the stake is unchanged.
pub fn early_unvest(
    pool: &Pool,
    ctx: &EarlyUnvest,
    stake: &mut VestingStake,
    lp_amount: u64,
    penalty_bps: u16,
) -> (r: Result<EarlyUnvested, AmmError>)
    ensures
        match early_unvest_result(*pool, *ctx, *old(stake), lp_amount, penalty_bps) {
            Ok((ev, reduced)) => r == Ok::<EarlyUnvested, AmmError>(ev) && *final(stake) == reduced,
            Err(e) => r == Err::<EarlyUnvested, AmmError>(e) && *final(stake) == *old(stake),
        },
{
    if pool.paused {
        return Err(AmmError::Paused);
    }
    if penalty_bps > BPS_DENOMINATOR {
        return Err(AmmError::InvalidPenalty);
    }
    if stake.claimed {
        return Err(AmmError::AlreadyClaimed);
    }
    if lp_amount > stake.amount {
        return Err(AmmError::InsufficientVestedAmount);
    }
    proof {
        assert(lp_amount * penalty_bps / 10000 <= lp_amount) by (nonlinear_arith)
            requires
                0 <= penalty_bps <= 10000,
                lp_amount >= 0,
        ;
        assert(lp_amount * penalty_bps <= u64::MAX * 10000) by (nonlinear_arith)
            requires
                0 <= penalty_bps <= 10000,
                0 <= lp_amount <= u64::MAX,
        ;
    }
    let penalty = ((lp_amount as u128) * (penalty_bps as u128) / (BPS_DENOMINATOR as u128)) as u64;
    let amount_to_user = lp_amount - penalty;
    stake.amount = stake.amount - lp_amount;
    if stake.amount == 0 {
        stake.claimed = true;
    }
    Ok(EarlyUnvested { pool: ctx.pool, user: stake.user, amount_unvested: lp_amount, penalty, amount_to_user })
}

/// A stake cannot be claimed twice: once a claim succeeds, any later claim on
/// the settled stake fails with `AlreadyClaimed`. And an open stake claimed
/// before its end fails with `VestingNotFinished`.
pub proof fn lemma_claim_once(pool: Pool, first: ClaimVested, second: ClaimVested, stake: VestingStake)
    ensures
        claim_result(pool, first, stake) is Ok ==> claim_result(pool, second, claim_result(pool, first, stake)->Ok_0.1)
            == Err::<(Claimed, VestingStake), AmmError>(AmmError::AlreadyClaimed),
        !pool.paused && !stake.claimed && first.now < stake.vesting_end ==> claim_result(pool, first, stake)
            == Err::<(Claimed, VestingStake), AmmError>(AmmError::VestingNotFinished),
{
}

/// With no penalty the owner gets the whole amount and the treasury nothing;
/// with the full penalty the treasury gets the whole amount and the owner
/// nothing.
pub proof fn lemma_penalty_extremes(pool: Pool, ctx: EarlyUnvest, stake: VestingStake, lp_amount: u64)
    ensures
        early_unvest_result(pool, ctx, stake, lp_amount, 0) is Ok ==> {
            let ev = early_unvest_result(pool, ctx, stake, lp_amount, 0)->Ok_0.0;
            ev.amount_to_user == lp_amount && ev.penalty == 0
        },
        early_unvest_result(pool, ctx, stake, lp_amount, BPS_DENOMINATOR) is Ok ==> {
            let ev = early_unvest_result(pool, ctx, stake, lp_amount, BPS_DENOMINATOR)->Ok_0.0;
            ev.amount_to_user == 0 && ev.penalty == lp_amount
        },
{
    assert(penalty_of(lp_amount as int, 0) == 0);
    assert(penalty_of(lp_amount as int, 10000) == lp_amount) by (nonlinear_arith)
        requires
            lp_amount >= 0,
    ;
}

/// Share units are conserved by a deposit: with `others` units locked in other
/// stakes and `free` units held freely summing to `supply`, the new stake
/// locks exactly the units minted, so the sum still meets the grown supply.
pub proof fn lemma_deposit_conserves_shares(
    others: nat,
    free: nat,
    supply: nat,
    pool: Pool,
    ctx: DepositAndVest,
    amount_a: u64,
    amount_b: u64,
    vesting_seconds: i64,
)
    requires
        others + free == supply,
        deposit_result(pool, ctx, amount_a, amount_b, vesting_seconds) is Ok,
    ensures
        ({
            let (stake, ev) = deposit_result(pool, ctx, amount_a, amount_b, vesting_seconds)->Ok_0;
            others + stake.locked() + free == supply + ev.amount
        }),
{
}

/// Share units are conserved by a claim: the units that leave the stake are
/// the units that the owner receives.
pub proof fn lemma_claim_conserves_shares(
    others: nat,
    free: nat,
    supply: nat,
    pool: Pool,
    ctx: ClaimVested,
    stake: VestingStake,
)
    requires
        others + stake.locked() + free == supply,
        claim_result(pool, ctx, stake) is Ok,
    ensures
        ({
            let (ev, settled) = claim_result(pool, ctx, stake)->Ok_0;
            others + settled.locked() + (free + ev.amount) == supply
        }),
{
}

/// Share units are conserved by an early exit: the units that leave the stake
/// are the penalty to the treasury plus the amount to the owner.
pub proof fn lemma_early_unvest_conserves_shares(
    others: nat,
    free: nat,
    supply: nat,
    pool: Pool,
    ctx: EarlyUnvest,
    stake: VestingStake,
    lp_amount: u64,
    penalty_bps: u16,
)
    requires
        others + stake.locked() + free == supply,
        early_unvest_result(pool, ctx, stake, lp_amount, penalty_bps) is Ok,
    ensures
        ({
            let (ev, reduced) = early_unvest_result(pool, ctx, stake, lp_amount, penalty_bps)->Ok_0;
            others + reduced.locked() + (free + ev.penalty + ev.amount_to_user) == supply
        }),
{
    assert(lp_amount * penalty_bps / 10000 <= lp_amount) by (nonlinear_arith)
        requires
            0 <= penalty_bps <= 10000,
            lp_amount >= 0,
    ;
}

} // verus!
