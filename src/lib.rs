//! Accounting core of a two-asset constant-product pool whose liquidity shares
//! are locked under a vesting schedule and earn a share of trading fees.
//!
//! Every operation here is a pure state transition: it validates its inputs,
//! computes the amounts that the host must move, and updates the pool and stake
//! records only when it succeeds.

mod admin;
mod error;
mod liquidity;
mod math;
mod rewards;
mod state;
mod swap;
mod vesting;

pub use admin::{emergency_withdraw, initialize_pool, pause, unpause, valid_fee_split};
pub use error::AmmError;
pub use math::{
    floor_sqrt, integer_sqrt_u128, is_floor_sqrt, lemma_floor_sqrt, lemma_floor_sqrt_monotone,
    lemma_floor_sqrt_unique,
};
pub use state::{
    ClaimVested, Claimed, DepositAndVest, Deposited, EarlyUnvest, EarlyUnvested, EmergencyWithdraw,
    EmergencyWithdrawn, InitializePool, OnlyAuthority, Paused, Pool, PoolInitialized, Pubkey, Swap,
    Swapped, Unpaused, VestingStake, Withdraw, Withdrawn, BPS_DENOMINATOR, MAX_VESTING_SECONDS,
    MIN_VESTING_SECONDS, REWARD_SCALE,
};
pub use liquidity::{
    at_least_one, calculate_lp_mint_amount, lemma_lp_mint_monotone, lp_mint_amount, lp_mint_result,
    withdraw_amounts, withdraw_result, withdraw_unlocked,
};
pub use rewards::{
    accrue_result, accrue_reward, accrued_reward, lemma_pending_since_creation, pending_reward,
    pending_reward_of, reward_debt_for,
};
pub use swap::{
    amount_after_fee, constant_product_out, fee_part, lemma_ceil_div, lemma_swap_product, quote,
    quote_result, split_fee, split_result, swap, swap_reserves, swap_result,
};
pub use vesting::{
    claim_result, claim_vested, deposit_and_vest, deposit_result, early_unvest, early_unvest_result,
    lemma_claim_conserves_shares, lemma_claim_once, lemma_deposit_conserves_shares,
    lemma_early_unvest_conserves_shares, lemma_penalty_extremes, penalty_of,
};
