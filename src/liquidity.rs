use vstd::prelude::*;

use crate::error::AmmError;
use crate::math::{floor_sqrt, integer_sqrt_u128, lemma_floor_sqrt_monotone, lemma_mul_u64_fits};
use crate::state::{Pool, Withdraw, Withdrawn};

verus! {

/// A reserve used as a divisor, raised to one when it is empty.
pub open spec fn at_least_one(x: int) -> int {
    if x < 1 {
        1
    } else {
        x
    }
}

/// Share units owed for depositing `amount_a` and `amount_b`: the floor of the
/// geometric mean for the first deposit, else the smaller of the two
/// ratio-implied counts.
pub open spec fn lp_mint_amount(amount_a: int, amount_b: int, reserve_a: int, reserve_b: int, supply: int) -> int {
    if supply == 0 {
        floor_sqrt((amount_a * amount_b) as nat) as int
    } else {
        let ma = amount_a * supply / at_least_one(reserve_a);
        let mb = amount_b * supply / at_least_one(reserve_b);
        if ma <= mb {
            ma
        } else {
            mb
        }
    }
}

/// Outcome of a share mint: nothing to mint is refused, and so is a count
/// beyond a `u64`.
pub open spec fn lp_mint_result(amount_a: u64, amount_b: u64, reserve_a: u64, reserve_b: u64, supply: u64) -> Result<u64, AmmError> {
    let m = lp_mint_amount(amount_a as int, amount_b as int, reserve_a as int, reserve_b as int, supply as int);
    if m == 0 {
        Err(AmmError::InsufficientLiquidity)
    } else if m > u64::MAX {
        Err(AmmError::NumericOverflow)
    } else {
        Ok(m as u64)
    }
}

/// Shares minted never shrink when the contributed amounts grow, the pool
/// staying the same.
pub proof fn lemma_lp_mint_monotone(
    a1: u64,
    b1: u64,
    a2: u64,
    b2: u64,
    reserve_a: u64,
    reserve_b: u64,
    supply: u64,
)
    requires
        a1 <= a2,
        b1 <= b2,
    ensures
        lp_mint_amount(a1 as int, b1 as int, reserve_a as int, reserve_b as int, supply as int)
            <= lp_mint_amount(a2 as int, b2 as int, reserve_a as int, reserve_b as int, supply as int),
        supply == 0 ==> lp_mint_amount(a1 as int, b1 as int, reserve_a as int, reserve_b as int, supply as int)
            == floor_sqrt((a1 * b1) as nat),
{
    if supply == 0 {
        assert(a1 * b1 <= a2 * b2) by (nonlinear_arith)
            requires
                0 <= a1 <= a2,
                0 <= b1 <= b2,
        ;
        lemma_mul_u64_fits(a1, b1);
        lemma_floor_sqrt_monotone((a1 * b1) as nat, (a2 * b2) as nat);
    } else {
        let s = supply as int;
        let da = at_least_one(reserve_a as int);
        let db = at_least_one(reserve_b as int);
        assert(a1 * s / da <= a2 * s / da) by (nonlinear_arith)
            requires
                0 <= a1 <= a2,
                s > 0,
                da > 0,
        {
            assert(a1 * s <= a2 * s);
            vstd::arithmetic::div_mod::lemma_div_is_ordered(a1 * s, a2 * s, da);
        }
        assert(b1 * s / db <= b2 * s / db) by (nonlinear_arith)
            requires
                0 <= b1 <= b2,
                s > 0,
                db > 0,
        {
            assert(b1 * s <= b2 * s);
            vstd::arithmetic::div_mod::lemma_div_is_ordered(b1 * s, b2 * s, db);
        }
    }
}

/// Share units to mint for a deposit of `amount_a` and `amount_b` into reserves
/// holding `reserve_a` and `reserve_b`, with `lp_supply` units outstanding.
pub fn calculate_lp_mint_amount(amount_a: u64, amount_b: u64, reserve_a: u64, reserve_b: u64, lp_supply: u64) -> (r: Result<u64, AmmError>)
    ensures
        r == lp_mint_result(amount_a, amount_b, reserve_a, reserve_b, lp_supply),
{
    proof {
        lemma_mul_u64_fits(amount_a, amount_b);
        lemma_mul_u64_fits(amount_a, lp_supply);
        lemma_mul_u64_fits(amount_b, lp_supply);
    }
    let minted: u128;
    if lp_supply == 0 {
        let prod: u128 = (amount_a as u128) * (amount_b as u128);
        minted = integer_sqrt_u128(prod);
    } else {
        let supply = lp_supply as u128;
        let div_a: u128 = if reserve_a < 1 { 1 } else { reserve_a as u128 };
        let div_b: u128 = if reserve_b < 1 { 1 } else { reserve_b as u128 };
        let ma: u128 = (amount_a as u128) * supply / div_a;
        let mb: u128 = (amount_b as u128) * supply / div_b;
        minted = if ma <= mb { ma } else { mb };
    }
    if minted == 0 {
        Err(AmmError::InsufficientLiquidity)
    } else if minted > u64::MAX as u128 {
        Err(AmmError::NumericOverflow)
    } else {
        Ok(minted as u64)
    }
}

/// Outcome of paying out `lp_amount` share units in proportion to the reserves.
pub open spec fn withdraw_result(lp_amount: u64, reserve_a: u64, reserve_b: u64, supply: u64) -> Result<(u64, u64), AmmError> {
    if supply == 0 {
        Err(AmmError::InsufficientLiquidity)
    } else {
        let out_a = reserve_a * lp_amount / (supply as int);
        let out_b = reserve_b * lp_amount / (supply as int);
        if out_a > u64::MAX || out_b > u64::MAX {
            Err(AmmError::NumericOverflow)
        } else {
            Ok((out_a as u64, out_b as u64))
        }
    }
}

/// Amounts of each asset owed for burning `lp_amount` of `total_supply` share
/// units: each reserve's proportional part, rounded down.
pub fn withdraw_amounts(lp_amount: u64, reserve_a: u64, reserve_b: u64, total_supply: u64) -> (r: Result<(u64, u64), AmmError>)
    ensures
        r == withdraw_result(lp_amount, reserve_a, reserve_b, total_supply),
{
    if total_supply == 0 {
        return Err(AmmError::InsufficientLiquidity);
    }
    proof {
        lemma_mul_u64_fits(reserve_a, lp_amount);
        lemma_mul_u64_fits(reserve_b, lp_amount);
    }
    let out_a: u128 = (reserve_a as u128) * (lp_amount as u128) / (total_supply as u128);
    let out_b: u128 = (reserve_b as u128) * (lp_amount as u128) / (total_supply as u128);
    if out_a > u64::MAX as u128 || out_b > u64::MAX as u128 {
        Err(AmmError::NumericOverflow)
    } else {
        Ok((out_a as u64, out_b as u64))
    }
}

/// Burns `lp_amount` freely held share units and pays out the proportional
/// reserves. Fails with `Paused` on a paused pool, else as `withdraw_amounts`.
pub fn withdraw_unlocked(pool: &Pool, ctx: &Withdraw, lp_amount: u64) -> (r: Result<Withdrawn, AmmError>)
    ensures
        pool.paused ==> r == Err::<Withdrawn, AmmError>(AmmError::Paused),
        !pool.paused ==> match withdraw_result(lp_amount, ctx.reserve_a_amount, ctx.reserve_b_amount, ctx.lp_supply) {
            Ok((a, b)) => r == Ok::<Withdrawn, AmmError>(
                Withdrawn { pool: ctx.pool, user: ctx.user, lp_amount, amount_a: a, amount_b: b },
            ),
            Err(e) => r == Err::<Withdrawn, AmmError>(e),
        },
{
    if pool.paused {
        return Err(AmmError::Paused);
    }
    match withdraw_amounts(lp_amount, ctx.reserve_a_amount, ctx.reserve_b_amount, ctx.lp_supply) {
        Ok((amount_a, amount_b)) => Ok(Withdrawn { pool: ctx.pool, user: ctx.user, lp_amount, amount_a, amount_b }),
        Err(e) => Err(e),
    }
}

} // verus!
