use vstd::prelude::*;

use vstd::arithmetic::div_mod::lemma_fundamental_div_mod;

use crate::error::AmmError;
use crate::liquidity::at_least_one;
use crate::math::lemma_mul_u64_fits;
use crate::rewards::{accrue_result, accrue_reward};
use crate::state::{Pool, Swap, Swapped, BPS_DENOMINATOR};

verus! {

/// What remains of `amount_in` once the protocol fee is taken, rounded down.
pub open spec fn amount_after_fee(amount_in: int, fee_bps: int) -> int {
    amount_in * (BPS_DENOMINATOR - fee_bps) / (BPS_DENOMINATOR as int)
}

/// Output of a constant-product trade that adds `added` to the input reserve.
/// The output reserve left is rounded up, so the product never falls.
pub open spec fn constant_product_out(reserve_in: int, reserve_out: int, added: int) -> int {
    reserve_out - (reserve_in * reserve_out + reserve_in + added - 1) / (reserve_in + added)
}

/// Rounding the quotient of `k` by `n` up stays within `bound` and keeps at
/// least `k` once multiplied back.
pub proof fn lemma_ceil_div(k: int, n: int, bound: int)
    requires
        n > 0,
        0 < k <= n * bound,
    ensures
        1 <= (k + n - 1) / n <= bound,
        n * ((k + n - 1) / n) >= k,
{
    let q = (k + n - 1) / n;
    lemma_fundamental_div_mod(k + n - 1, n);
    let r = (k + n - 1) % n;
    assert(0 <= r < n);
    assert(n * q >= k);
    if q > bound {
        assert(n * q >= n * bound + n) by (nonlinear_arith)
            requires
                q >= bound + 1,
                n > 0,
        ;
    }
    if q < 1 {
        assert(n * q <= 0) by (nonlinear_arith)
            requires
                q <= 0,
                n > 0,
        ;
    }
}

/// The part of `total_fee` that `part_bps` of `protocol_bps` stands for.
pub open spec fn fee_part(total_fee: int, part_bps: int, protocol_bps: int) -> int {
    total_fee * part_bps / at_least_one(protocol_bps)
}

/// Outcome of a quote: the amount out and the total fee.
pub open spec fn quote_result(amount_in: u64, reserve_in: u64, reserve_out: u64, fee_bps: u16) -> Result<(u64, u64), AmmError> {
    if reserve_in == 0 || reserve_out == 0 {
        Err(AmmError::InsufficientLiquidity)
    } else if fee_bps > BPS_DENOMINATOR {
        Err(AmmError::NumericOverflow)
    } else {
        let after = amount_after_fee(amount_in as int, fee_bps as int);
        Ok((constant_product_out(reserve_in as int, reserve_out as int, after) as u64, (amount_in - after) as u64))
    }
}

/// Outcome of a fee split: the treasury part and the reward part, refused
/// when together they exceed the fee.
pub open spec fn split_result(total_fee: u64, treasury_bps: u16, reward_bps: u16, protocol_bps: u16) -> Result<(u64, u64), AmmError> {
    let t = fee_part(total_fee as int, treasury_bps as int, protocol_bps as int);
    let w = fee_part(total_fee as int, reward_bps as int, protocol_bps as int);
    if t + w > total_fee {
        Err(AmmError::NumericOverflow)
    } else {
        Ok((t as u64, w as u64))
    }
}

/// Quotes a constant-product trade of `amount_in` against the two reserves.
/// Returns the amount out and the total fee kept from the input.
pub fn quote(amount_in: u64, reserve_in: u64, reserve_out: u64, protocol_fee_bps: u16) -> (r: Result<(u64, u64), AmmError>)
    ensures
        r == quote_result(amount_in, reserve_in, reserve_out, protocol_fee_bps),
{
    if reserve_in == 0 || reserve_out == 0 {
        return Err(AmmError::InsufficientLiquidity);
    }
    if protocol_fee_bps > BPS_DENOMINATOR {
        return Err(AmmError::NumericOverflow);
    }
    let keep: u128 = (BPS_DENOMINATOR - protocol_fee_bps) as u128;
    proof {
        lemma_mul_u64_fits(amount_in, keep as u64);
        lemma_mul_u64_fits(reserve_in, reserve_out);
        assert(amount_in * keep / 10000 <= amount_in) by (nonlinear_arith)
            requires
                0 <= keep <= 10000,
                amount_in >= 0,
        ;
    }
    let after: u128 = (amount_in as u128) * keep / (BPS_DENOMINATOR as u128);
    let k: u128 = (reserve_in as u128) * (reserve_out as u128);
    let new_reserve_in: u128 = reserve_in as u128 + after;
    proof {
        assert(0 < k <= new_reserve_in * reserve_out) by (nonlinear_arith)
            requires
                k == reserve_in * reserve_out,
                new_reserve_in >= reserve_in,
                reserve_in > 0,
                reserve_out > 0,
        ;
        lemma_ceil_div(k as int, new_reserve_in as int, reserve_out as int);
    }
    let new_reserve_out: u128 = (k + (new_reserve_in - 1)) / new_reserve_in;
    let amount_out: u128 = reserve_out as u128 - new_reserve_out;
    Ok((amount_out as u64, (amount_in as u128 - after) as u64))
}

/// Splits `total_fee` into the treasury part and the reward part by their
/// rates relative to the protocol rate; what is left stays in the reserves.
pub fn split_fee(total_fee: u64, treasury_fee_bps: u16, reward_fee_bps: u16, protocol_fee_bps: u16) -> (r: Result<(u64, u64), AmmError>)
    ensures
        r == split_result(total_fee, treasury_fee_bps, reward_fee_bps, protocol_fee_bps),
{
    let denom: u128 = if protocol_fee_bps < 1 { 1 } else { protocol_fee_bps as u128 };
    proof {
        lemma_mul_u64_fits(total_fee, treasury_fee_bps as u64);
        lemma_mul_u64_fits(total_fee, reward_fee_bps as u64);
    }
    let treasury_fee: u128 = (total_fee as u128) * (treasury_fee_bps as u128) / denom;
    let reward_fee: u128 = (total_fee as u128) * (reward_fee_bps as u128) / denom;
    if treasury_fee > total_fee as u128 || reward_fee > total_fee as u128 - treasury_fee {
        Err(AmmError::NumericOverflow)
    } else {
        Ok((treasury_fee as u64, reward_fee as u64))
    }
}

/// The input and output reserves of a trade in the given direction.
pub open spec fn swap_reserves(ctx: Swap, is_a_to_b: bool) -> (u64, u64) {
    if is_a_to_b {
        (ctx.reserve_a_amount, ctx.reserve_b_amount)
    } else {
        (ctx.reserve_b_amount, ctx.reserve_a_amount)
    }
}

/// Outcome of a swap: its notification and the new accumulator, or the first
/// check that fails.
pub open spec fn swap_result(
    pool: Pool,
    ctx: Swap,
    amount_in: u64,
    minimum_amount_out: u64,
    is_a_to_b: bool,
    min_slot: Option<u64>,
) -> Result<(Swapped, u128), AmmError> {
    let (reserve_in, reserve_out) = swap_reserves(ctx, is_a_to_b);
    if pool.paused {
        Err(AmmError::Paused)
    } else if min_slot is Some && ctx.slot < min_slot->Some_0 {
        Err(AmmError::SlotTooLow)
    } else {
        match quote_result(amount_in, reserve_in, reserve_out, pool.protocol_fee_bps) {
            Err(e) => Err(e),
            Ok((amount_out, total_fee)) => match split_result(
                total_fee,
                pool.treasury_fee_bps,
                pool.reward_fee_bps,
                pool.protocol_fee_bps,
            ) {
                Err(e) => Err(e),
                Ok((treasury_fee, reward_fee)) => match accrue_result(
                    pool.acc_reward_per_lp,
                    reward_fee as u128,
                    ctx.lp_supply,
                ) {
                    Err(e) => Err(e),
                    Ok(acc) => if amount_out < minimum_amount_out {
                        Err(AmmError::SlippageExceeded)
                    } else {
                        Ok(
                            (
                                Swapped {
                                    pool: ctx.pool,
                                    user: ctx.user,
                                    amount_in,
                                    amount_out,
                                    is_a_to_b,
                                    treasury_fee,
                                },
                                acc,
                            ),
                        )
                    },
                },
            },
        }
    }
}

/// Trades `amount_in` of one asset for the other. The reward part of the fee
/// raises the pool's accumulator, spread over the share supply before the
/// trade; the treasury part leaves the input reserve. On failure the pool is
/// unchanged.
pub fn swap(
    pool: &mut Pool,
    ctx: &Swap,
    amount_in: u64,
    minimum_amount_out: u64,
    is_a_to_b: bool,
    min_slot: Option<u64>,
) -> (r: Result<Swapped, AmmError>)
    ensures
        match swap_result(*old(pool), *ctx, amount_in, minimum_amount_out, is_a_to_b, min_slot) {
            Ok((ev, acc)) => r == Ok::<Swapped, AmmError>(ev) && *final(pool) == (Pool {
                acc_reward_per_lp: acc,
                ..*old(pool)
            }),
            Err(e) => r == Err::<Swapped, AmmError>(e) && *final(pool) == *old(pool),
        },
        final(pool).acc_reward_per_lp >= old(pool).acc_reward_per_lp,
{
    if pool.paused {
        return Err(AmmError::Paused);
    }
    if let Some(ms) = min_slot {
        if ctx.slot < ms {
            return Err(AmmError::SlotTooLow);
        }
    }
    let (reserve_in, reserve_out) = if is_a_to_b {
        (ctx.reserve_a_amount, ctx.reserve_b_amount)
    } else {
        (ctx.reserve_b_amount, ctx.reserve_a_amount)
    };
    let (amount_out, total_fee) = quote(amount_in, reserve_in, reserve_out, pool.protocol_fee_bps)?;
    let (treasury_fee, reward_fee) = split_fee(
        total_fee,
        pool.treasury_fee_bps,
        pool.reward_fee_bps,
        pool.protocol_fee_bps,
    )?;
    let acc = accrue_reward(pool.acc_reward_per_lp, reward_fee as u128, ctx.lp_supply)?;
    if amount_out < minimum_amount_out {
        return Err(AmmError::SlippageExceeded);
    }
    pool.acc_reward_per_lp = acc;
    Ok(Swapped { pool: ctx.pool, user: ctx.user, amount_in, amount_out, is_a_to_b, treasury_fee })
}

/// A swap never lowers the product of the reserves, and never empties the
/// output reserve: the input reserve gains `amount_in` less the treasury fee,
/// and the output reserve loses `amount_out`.
pub proof fn lemma_swap_product(
    pool: Pool,
    ctx: Swap,
    amount_in: u64,
    minimum_amount_out: u64,
    is_a_to_b: bool,
    min_slot: Option<u64>,
)
    requires
        swap_result(pool, ctx, amount_in, minimum_amount_out, is_a_to_b, min_slot) is Ok,
    ensures
        ({
            let (reserve_in, reserve_out) = swap_reserves(ctx, is_a_to_b);
            let ev = swap_result(pool, ctx, amount_in, minimum_amount_out, is_a_to_b, min_slot)->Ok_0.0;
            let in_after = reserve_in + amount_in - ev.treasury_fee;
            let out_after = reserve_out - ev.amount_out;
            &&& out_after >= 1
            &&& in_after * out_after >= reserve_in * reserve_out
        }),
{
    let (reserve_in, reserve_out) = swap_reserves(ctx, is_a_to_b);
    let rin = reserve_in as int;
    let rout = reserve_out as int;
    let fee = pool.protocol_fee_bps as int;
    let after = amount_after_fee(amount_in as int, fee);
    let keep = BPS_DENOMINATOR - fee;
    assert(0 <= after <= amount_in) by (nonlinear_arith)
        requires
            0 <= keep <= 10000,
            amount_in >= 0,
            after == amount_in * keep / 10000,
    ;
    let n = rin + after;
    let k = rin * rout;
    assert(0 < k <= n * rout) by (nonlinear_arith)
        requires
            k == rin * rout,
            n >= rin,
            rin > 0,
            rout > 0,
    ;
    lemma_ceil_div(k, n, rout);
    let q = (k + n - 1) / n;
    assert(rin * rout + rin + after - 1 == k + n - 1);
    let total_fee = (amount_in - after) as u64;
    let t = fee_part(total_fee as int, pool.treasury_fee_bps as int, fee);
    let w = fee_part(total_fee as int, pool.reward_fee_bps as int, fee);
    assert(w >= 0) by (nonlinear_arith)
        requires
            w == total_fee * pool.reward_fee_bps / at_least_one(fee),
            at_least_one(fee) > 0,
    ;
    let in_after = rin + amount_in - t;
    assert(in_after >= n);
    assert(in_after * q >= n * q) by (nonlinear_arith)
        requires
            in_after >= n,
            q >= 0,
    ;
}

} // verus!
