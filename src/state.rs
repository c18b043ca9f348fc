use vstd::prelude::*;

verus! {

/// Fixed-point scale of the reward accumulator.
pub const REWARD_SCALE: u128 = 1_000_000_000_000u128;

/// Denominator of every rate in basis points.
pub const BPS_DENOMINATOR: u16 = 10_000u16;

/// Shortest allowed lock of a deposit, in seconds.
pub const MIN_VESTING_SECONDS: i64 = 30 * 24 * 3600;

/// Longest allowed lock of a deposit, in seconds.
pub const MAX_VESTING_SECONDS: i64 = 180 * 24 * 3600;

/// The identity of an account, as its 32 raw bytes.
#[derive(Clone, Copy, Debug, PartialEq, Eq)]
pub struct Pubkey {
    pub bytes: [u8; 32],
}

/// The state of one pool of an asset pair.
#[derive(Clone, Copy, Debug, PartialEq, Eq)]
pub struct Pool {
    pub authority: Pubkey,
    pub token_a_mint: Pubkey,
    pub token_b_mint: Pubkey,
    pub lp_mint: Pubkey,
    pub reserve_a: Pubkey,
    pub reserve_b: Pubkey,
    pub protocol_fee_bps: u16,
    pub treasury: Pubkey,
    pub treasury_fee_bps: u16,
    pub reward_fee_bps: u16,
    pub vesting_nonce: u64,
    pub paused: bool,
    /// Cumulative reward per share unit, scaled by `REWARD_SCALE`.
    pub acc_reward_per_lp: u128,
}

impl Pool {
    /// The fee split is consistent: the treasury and reward parts fit in the
    /// protocol fee, which is at most the whole trade.
    pub open spec fn wf(&self) -> bool {
        self.treasury_fee_bps + self.reward_fee_bps <= self.protocol_fee_bps
            && self.protocol_fee_bps <= BPS_DENOMINATOR
    }
}

/// One locked deposit of share units.
#[derive(Clone, Copy, Debug, PartialEq, Eq)]
pub struct VestingStake {
    pub pool: Pubkey,
    pub user: Pubkey,
    /// Share units still locked.
    pub amount: u64,
    pub vesting_end: i64,
    pub claimed: bool,
    pub deposit_id: u64,
    /// Reward already accounted for, `amount * acc / REWARD_SCALE` at the last settlement.
    pub reward_debt: u128,
}

impl VestingStake {
    /// Share units that the stake still holds locked.
    pub open spec fn locked(&self) -> int {
        if self.claimed {
            0
        } else {
            self.amount as int
        }
    }
}

/// Notification that a pool was set up.
#[derive(Clone, Copy, Debug, PartialEq, Eq)]
pub struct PoolInitialized {
    pub pool: Pubkey,
    pub authority: Pubkey,
    pub treasury: Pubkey,
}

/// Notification of a deposit; `amount` share units are minted into the lock.
#[derive(Clone, Copy, Debug, PartialEq, Eq)]
pub struct Deposited {
    pub pool: Pubkey,
    pub user: Pubkey,
    pub amount: u64,
    pub vesting_end: i64,
}

/// Notification of a claim: `amount` share units and `reward` go to the owner.
#[derive(Clone, Copy, Debug, PartialEq, Eq)]
pub struct Claimed {
    pub pool: Pubkey,
    pub user: Pubkey,
    pub amount: u64,
    pub reward: u64,
}

/// Notification of an early exit: `penalty` goes to the treasury and
/// `amount_to_user` to the owner.
#[derive(Clone, Copy, Debug, PartialEq, Eq)]
pub struct EarlyUnvested {
    pub pool: Pubkey,
    pub user: Pubkey,
    pub amount_unvested: u64,
    pub penalty: u64,
    pub amount_to_user: u64,
}

/// Notification of a withdrawal of free share units against the reserves.
#[derive(Clone, Copy, Debug, PartialEq, Eq)]
pub struct Withdrawn {
    pub pool: Pubkey,
    pub user: Pubkey,
    pub lp_amount: u64,
    pub amount_a: u64,
    pub amount_b: u64,
}

/// Notification of a swap; `treasury_fee` leaves the input reserve for the treasury.
#[derive(Clone, Copy, Debug, PartialEq, Eq)]
pub struct Swapped {
    pub pool: Pubkey,
    pub user: Pubkey,
    pub amount_in: u64,
    pub amount_out: u64,
    pub is_a_to_b: bool,
    pub treasury_fee: u64,
}

/// Notification that a pool was paused.
#[derive(Clone, Copy, Debug, PartialEq, Eq)]
pub struct Paused {
    pub pool: Pubkey,
}

/// Notification that a pool was resumed.
#[derive(Clone, Copy, Debug, PartialEq, Eq)]
pub struct Unpaused {
    pub pool: Pubkey,
}

/// Notification that both reserves were swept to the treasury.
#[derive(Clone, Copy, Debug, PartialEq, Eq)]
pub struct EmergencyWithdrawn {
    pub pool: Pubkey,
    pub amount_a: u64,
    pub amount_b: u64,
}

/// The accounts that a new pool is bound to.
#[derive(Clone, Copy, Debug, PartialEq, Eq)]
pub struct InitializePool {
    pub pool: Pubkey,
    pub authority: Pubkey,
    pub token_a_mint: Pubkey,
    pub token_b_mint: Pubkey,
    pub lp_mint: Pubkey,
    pub reserve_a: Pubkey,
    pub reserve_b: Pubkey,
    pub treasury: Pubkey,
}

/// What a deposit reads: balances before the deposit, share supply and the time.
#[derive(Clone, Copy, Debug, PartialEq, Eq)]
pub struct DepositAndVest {
    pub pool: Pubkey,
    pub user: Pubkey,
    pub reserve_a_amount: u64,
    pub reserve_b_amount: u64,
    pub lp_supply: u64,
    pub now: i64,
}

/// What a claim reads: the time and the balance of the reward vault.
#[derive(Clone, Copy, Debug, PartialEq, Eq)]
pub struct ClaimVested {
    pub pool: Pubkey,
    pub now: i64,
    pub reward_vault_amount: u64,
}

/// What an early exit reads.
#[derive(Clone, Copy, Debug, PartialEq, Eq)]
pub struct EarlyUnvest {
    pub pool: Pubkey,
}

/// What a withdrawal of free share units reads.
#[derive(Clone, Copy, Debug, PartialEq, Eq)]
pub struct Withdraw {
    pub pool: Pubkey,
    pub user: Pubkey,
    pub reserve_a_amount: u64,
    pub reserve_b_amount: u64,
    pub lp_supply: u64,
}

/// What a swap reads: the reserves, the share supply and the current slot.
#[derive(Clone, Copy, Debug, PartialEq, Eq)]
pub struct Swap {
    pub pool: Pubkey,
    pub user: Pubkey,
    pub reserve_a_amount: u64,
    pub reserve_b_amount: u64,
    pub lp_supply: u64,
    pub slot: u64,
}

/// What an administrative toggle reads.
#[derive(Clone, Copy, Debug, PartialEq, Eq)]
pub struct OnlyAuthority {
    pub pool: Pubkey,
}

/// What a sweep of the reserves reads.
#[derive(Clone, Copy, Debug, PartialEq, Eq)]
pub struct EmergencyWithdraw {
    pub pool: Pubkey,
    pub reserve_a_amount: u64,
    pub reserve_b_amount: u64,
}

} // verus!
