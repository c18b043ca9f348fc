use vstd::prelude::*;

use vstd::arithmetic::div_mod::{
    lemma_div_is_ordered, lemma_fundamental_div_mod, lemma_fundamental_div_mod_converse,
};

use crate::error::AmmError;
use crate::state::REWARD_SCALE;

verus! {

/// Reward earned by `amount` share units since genesis at accumulator `acc`.
pub open spec fn accrued_reward(amount: int, acc: int) -> int {
    amount * acc / (REWARD_SCALE as int)
}

/// Reward owed beyond what the debt already accounts for, never negative.
pub open spec fn pending_reward_of(amount: int, acc: int, debt: int) -> int {
    let total = accrued_reward(amount, acc);
    if total >= debt {
        total - debt
    } else {
        0
    }
}

/// The accumulator after a swap routed `reward_fee` to `supply` share units.
pub open spec fn accrue_result(acc: u128, reward_fee: u128, supply: u64) -> Result<u128, AmmError> {
    if supply == 0 || reward_fee == 0 {
        Ok(acc)
    } else if reward_fee * REWARD_SCALE > u128::MAX {
        Err(AmmError::NumericOverflow)
    } else if acc + reward_fee * REWARD_SCALE / (supply as int) > u128::MAX {
        Err(AmmError::NumericOverflow)
    } else {
        Ok((acc + reward_fee * REWARD_SCALE / (supply as int)) as u128)
    }
}

/// The reward debt of `amount` share units at accumulator `acc`.
pub fn reward_debt_for(amount: u64, acc: u128) -> (r: Result<u128, AmmError>)
    ensures
        amount * acc > u128::MAX ==> r == Err::<u128, AmmError>(AmmError::NumericOverflow),
        amount * acc <= u128::MAX ==> r == Ok::<u128, AmmError>(accrued_reward(amount as int, acc as int) as u128),
{
    match (amount as u128).checked_mul(acc) {
        Some(v) => Ok(v / REWARD_SCALE),
        None => Err(AmmError::NumericOverflow),
    }
}

/// Reward owed to `amount` share units carrying `debt`, at accumulator `acc`.
pub fn pending_reward(amount: u64, acc: u128, debt: u128) -> (r: Result<u128, AmmError>)
    ensures
        amount * acc > u128::MAX ==> r == Err::<u128, AmmError>(AmmError::NumericOverflow),
        amount * acc <= u128::MAX ==> r == Ok::<u128, AmmError>(
            pending_reward_of(amount as int, acc as int, debt as int) as u128,
        ),
{
    let total = reward_debt_for(amount, acc)?;
    match total.checked_sub(debt) {
        Some(v) => Ok(v),
        None => Ok(0),
    }
}

/// Adds the reward part of a swap's fee to the accumulator, spread over the
/// outstanding share supply; nothing changes with no supply or no reward.
pub fn accrue_reward(acc: u128, reward_fee: u128, supply: u64) -> (r: Result<u128, AmmError>)
    ensures
        r == accrue_result(acc, reward_fee, supply),
{
    if supply == 0 || reward_fee == 0 {
        return Ok(acc);
    }
    let scaled = match reward_fee.checked_mul(REWARD_SCALE) {
        Some(v) => v,
        None => return Err(AmmError::NumericOverflow),
    };
    match acc.checked_add(scaled / (supply as u128)) {
        Some(v) => Ok(v),
        None => Err(AmmError::NumericOverflow),
    }
}

/// A stake never settled since creation is owed the reward that its amount
/// earned between the accumulator at creation and now, rounded down and
/// clamped at zero. The debt and the current total are each rounded down on
/// their own, so the law holds where those two roundings lose less than one
/// scale unit together.
pub proof fn lemma_pending_since_creation(amount: u64, acc_created: u128, acc_now: u128)
    requires
        acc_created <= acc_now ==> (amount * acc_created) % (REWARD_SCALE as int)
            + (amount * (acc_now - acc_created)) % (REWARD_SCALE as int) < REWARD_SCALE,
    ensures
        pending_reward_of(amount as int, acc_now as int, accrued_reward(amount as int, acc_created as int))
            == if acc_created <= acc_now {
            amount * (acc_now - acc_created) / (REWARD_SCALE as int)
        } else {
            0
        },
{
    let s = REWARD_SCALE as int;
    let a = amount as int;
    let c = acc_created as int;
    let n = acc_now as int;
    if c <= n {
        let x = a * c;
        let y = a * (n - c);
        assert(a * n == x + y) by (nonlinear_arith)
            requires
                x == a * c,
                y == a * (n - c),
        ;
        lemma_fundamental_div_mod(x, s);
        lemma_fundamental_div_mod(y, s);
        assert(x + y == (x / s + y / s) * s + (x % s + y % s)) by (nonlinear_arith)
            requires
                x == s * (x / s) + x % s,
                y == s * (y / s) + y % s,
        ;
        lemma_fundamental_div_mod_converse(x + y, s, x / s + y / s, x % s + y % s);
        assert(y >= 0) by (nonlinear_arith)
            requires
                a >= 0,
                n - c >= 0,
                y == a * (n - c),
        ;
        assert(y / s >= 0);
    } else {
        assert(a * n <= a * c) by (nonlinear_arith)
            requires
                a >= 0,
                n < c,
        ;
        lemma_div_is_ordered(a * n, a * c, s);
    }
}

} // verus!
