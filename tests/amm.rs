use vesting_locked_amm::{
    accrue_reward, calculate_lp_mint_amount, claim_vested, deposit_and_vest, early_unvest,
    emergency_withdraw, initialize_pool, integer_sqrt_u128, pause, pending_reward, quote,
    reward_debt_for, split_fee, swap, unpause, withdraw_amounts, withdraw_unlocked, AmmError,
    ClaimVested, DepositAndVest, EarlyUnvest, EmergencyWithdraw, InitializePool, OnlyAuthority,
    Pool, Pubkey, Swap, VestingStake, Withdraw, MAX_VESTING_SECONDS, MIN_VESTING_SECONDS,
    REWARD_SCALE,
};

fn key(n: u8) -> Pubkey {
    Pubkey { bytes: [n; 32] }
}

fn accounts() -> InitializePool {
    InitializePool {
        pool: key(1),
        authority: key(2),
        token_a_mint: key(3),
        token_b_mint: key(4),
        lp_mint: key(5),
        reserve_a: key(6),
        reserve_b: key(7),
        treasury: key(8),
    }
}

fn new_pool(protocol: u16, treasury: u16, reward: u16) -> Pool {
    initialize_pool(&accounts(), protocol, treasury, reward).unwrap().0
}

fn deposit_ctx(reserve_a: u64, reserve_b: u64, lp_supply: u64, now: i64) -> DepositAndVest {
    DepositAndVest { pool: key(1), user: key(9), reserve_a_amount: reserve_a, reserve_b_amount: reserve_b, lp_supply, now }
}

fn swap_ctx(reserve_a: u64, reserve_b: u64, lp_supply: u64, slot: u64) -> Swap {
    Swap { pool: key(1), user: key(9), reserve_a_amount: reserve_a, reserve_b_amount: reserve_b, lp_supply, slot }
}

fn open_stake(amount: u64, vesting_end: i64, reward_debt: u128) -> VestingStake {
    VestingStake { pool: key(1), user: key(9), amount, vesting_end, claimed: false, deposit_id: 0, reward_debt }
}

#[test]
fn sqrt_small_values() {
    let expected: [u128; 18] = [0, 1, 1, 1, 2, 2, 2, 2, 2, 3, 3, 3, 3, 3, 3, 3, 4, 4];
    for (x, r) in expected.iter().enumerate() {
        assert_eq!(integer_sqrt_u128(x as u128), *r);
    }
}

#[test]
fn sqrt_large_values() {
    assert_eq!(integer_sqrt_u128(u128::MAX), u64::MAX as u128);
    assert_eq!(integer_sqrt_u128(1_000_000_000_000), 1_000_000);
    assert_eq!(integer_sqrt_u128(999_999_999_999), 999_999);
}

#[test]
fn first_deposit_mints_floor_sqrt() {
    assert_eq!(calculate_lp_mint_amount(4, 9, 0, 0, 0), Ok(6));
    assert_eq!(calculate_lp_mint_amount(10, 10, 0, 0, 0), Ok(10));
    assert_eq!(calculate_lp_mint_amount(2, 5, 0, 0, 0), Ok(3));
}

#[test]
fn first_deposit_of_nothing_is_refused() {
    assert_eq!(calculate_lp_mint_amount(0, 100, 0, 0, 0), Err(AmmError::InsufficientLiquidity));
}

#[test]
fn later_deposit_takes_the_smaller_ratio() {
    assert_eq!(calculate_lp_mint_amount(100, 300, 1000, 2000, 500), Ok(50));
    assert_eq!(calculate_lp_mint_amount(1, 1, 1000, 1000, 10), Err(AmmError::InsufficientLiquidity));
}

#[test]
fn deposit_into_empty_reserve_overflows() {
    assert_eq!(calculate_lp_mint_amount(u64::MAX, u64::MAX, 0, 0, 2), Err(AmmError::NumericOverflow));
}

#[test]
fn minted_shares_grow_with_amounts() {
    let small = calculate_lp_mint_amount(10, 10, 0, 0, 0).unwrap();
    let large = calculate_lp_mint_amount(20, 10, 0, 0, 0).unwrap();
    assert!(small <= large);
    let small = calculate_lp_mint_amount(100, 200, 1000, 1000, 1000).unwrap();
    let large = calculate_lp_mint_amount(150, 300, 1000, 1000, 1000).unwrap();
    assert_eq!((small, large), (100, 150));
}

#[test]
fn withdraw_pays_proportional_reserves() {
    assert_eq!(withdraw_amounts(50, 1000, 2000, 500), Ok((100, 200)));
    assert_eq!(withdraw_amounts(1, 10, 10, 3), Ok((3, 3)));
    assert_eq!(withdraw_amounts(5, 10, 10, 0), Err(AmmError::InsufficientLiquidity));
    assert_eq!(withdraw_amounts(u64::MAX, u64::MAX, 1, 1), Err(AmmError::NumericOverflow));
}

#[test]
fn withdraw_unlocked_checks_pause() {
    let mut pool = new_pool(30, 10, 10);
    let ctx = Withdraw { pool: key(1), user: key(9), reserve_a_amount: 1000, reserve_b_amount: 2000, lp_supply: 500 };
    let ev = withdraw_unlocked(&pool, &ctx, 50).unwrap();
    assert_eq!((ev.lp_amount, ev.amount_a, ev.amount_b), (50, 100, 200));
    pause(&mut pool, &OnlyAuthority { pool: key(1) });
    assert_eq!(withdraw_unlocked(&pool, &ctx, 50), Err(AmmError::Paused));
}

#[test]
fn quote_of_larger_trade() {
    // fee 30, after fee 9970, new input reserve 10970, output reserve 1_000_000 / 10970 = 91.16 rounded up to 92
    assert_eq!(quote(10_000, 1000, 1000, 30), Ok((908, 30)));
}

#[test]
fn quote_of_small_trade_rounds_output_reserve_up() {
    // after fee 99, new input reserve 1099, output reserve 1_000_000 / 1099 = 909.9 rounded up to 910
    assert_eq!(quote(100, 1000, 1000, 30), Ok((90, 1)));
}

#[test]
fn quote_refuses_empty_reserves_and_bad_fee() {
    assert_eq!(quote(100, 0, 1000, 30), Err(AmmError::InsufficientLiquidity));
    assert_eq!(quote(100, 1000, 0, 30), Err(AmmError::InsufficientLiquidity));
    assert_eq!(quote(100, 1000, 1000, 10_001), Err(AmmError::NumericOverflow));
}

#[test]
fn fee_split_by_rates() {
    assert_eq!(split_fee(30, 10, 10, 30), Ok((10, 10)));
    assert_eq!(split_fee(100, 10, 5, 30), Ok((33, 16)));
    assert_eq!(split_fee(0, 0, 0, 0), Ok((0, 0)));
    assert_eq!(split_fee(100, 20, 20, 30), Err(AmmError::NumericOverflow));
}

#[test]
fn accumulator_spreads_reward_over_supply() {
    assert_eq!(accrue_reward(7, 5, 0), Ok(7));
    assert_eq!(accrue_reward(7, 0, 10), Ok(7));
    assert_eq!(accrue_reward(0, 5, 10), Ok(500_000_000_000));
    assert_eq!(accrue_reward(u128::MAX, 1, 1), Err(AmmError::NumericOverflow));
    assert_eq!(accrue_reward(0, u128::MAX, 1), Err(AmmError::NumericOverflow));
}

#[test]
fn reward_debt_and_pending() {
    assert_eq!(reward_debt_for(10, 3 * REWARD_SCALE), Ok(30));
    assert_eq!(reward_debt_for(u64::MAX, u128::MAX), Err(AmmError::NumericOverflow));
    assert_eq!(pending_reward(10, 5 * REWARD_SCALE, 30), Ok(20));
    assert_eq!(pending_reward(10, 3 * REWARD_SCALE, 40), Ok(0));
    assert_eq!(pending_reward(u64::MAX, u128::MAX, 0), Err(AmmError::NumericOverflow));
}

#[test]
fn swap_a_to_b_with_fee_split() {
    let mut pool = new_pool(30, 10, 10);
    let ev = swap(&mut pool, &swap_ctx(1000, 1000, 1000, 0), 10_000, 908, true, None).unwrap();
    assert_eq!(ev.amount_out, 908);
    assert_eq!(ev.treasury_fee, 10);
    assert!(ev.is_a_to_b);
    assert_eq!(pool.acc_reward_per_lp, 10 * REWARD_SCALE / 1000);
}

#[test]
fn swap_keeps_constant_product() {
    let mut pool = new_pool(30, 10, 10);
    let ev = swap(&mut pool, &swap_ctx(1000, 1000, 1000, 0), 10_000, 0, true, None).unwrap();
    let in_after = 1000u128 + 10_000 - ev.treasury_fee as u128;
    let out_after = 1000u128 - ev.amount_out as u128;
    assert!(in_after * out_after >= 1000 * 1000);
}

#[test]
fn swap_b_to_a_uses_reserve_b_as_input() {
    let mut pool = new_pool(0, 0, 0);
    let ev = swap(&mut pool, &swap_ctx(1000, 500, 1000, 0), 500, 0, false, None).unwrap();
    assert_eq!(ev.amount_out, 500);
    assert_eq!(pool.acc_reward_per_lp, 0);
}

#[test]
fn swap_slippage_guard() {
    let mut pool = new_pool(30, 10, 10);
    let before = pool;
    assert_eq!(
        swap(&mut pool, &swap_ctx(1000, 1000, 1000, 0), 10_000, 909, true, None),
        Err(AmmError::SlippageExceeded)
    );
    assert_eq!(pool, before);
}

#[test]
fn swap_slot_guard_and_pause() {
    let mut pool = new_pool(30, 10, 10);
    assert_eq!(
        swap(&mut pool, &swap_ctx(1000, 1000, 1000, 5), 100, 0, true, Some(6)),
        Err(AmmError::SlotTooLow)
    );
    assert!(swap(&mut pool, &swap_ctx(1000, 1000, 1000, 6), 100, 0, true, Some(6)).is_ok());
    pause(&mut pool, &OnlyAuthority { pool: key(1) });
    assert_eq!(
        swap(&mut pool, &swap_ctx(1000, 1000, 1000, 6), 100, 0, true, None),
        Err(AmmError::Paused)
    );
}

#[test]
fn swap_against_empty_reserve() {
    let mut pool = new_pool(30, 10, 10);
    assert_eq!(
        swap(&mut pool, &swap_ctx(0, 1000, 1000, 0), 100, 0, true, None),
        Err(AmmError::InsufficientLiquidity)
    );
}

#[test]
fn swap_with_inconsistent_fee_rates() {
    let mut pool = new_pool(30, 10, 10);
    pool.protocol_fee_bps = 10_001;
    assert_eq!(
        swap(&mut pool, &swap_ctx(1000, 1000, 1000, 0), 100, 0, true, None),
        Err(AmmError::NumericOverflow)
    );
}

#[test]
fn deposit_creates_locked_stake() {
    let mut pool = new_pool(30, 10, 10);
    let (stake, ev) = deposit_and_vest(&mut pool, &deposit_ctx(0, 0, 0, 1000), 4, 9, MIN_VESTING_SECONDS).unwrap();
    assert_eq!(stake.amount, 6);
    assert_eq!(stake.vesting_end, 1000 + 30 * 24 * 3600);
    assert!(!stake.claimed);
    assert_eq!(stake.deposit_id, 0);
    assert_eq!(stake.reward_debt, 0);
    assert_eq!(stake.user, key(9));
    assert_eq!(ev.amount, 6);
    assert_eq!(pool.vesting_nonce, 1);
    let (second, _) = deposit_and_vest(&mut pool, &deposit_ctx(4, 9, 6, 1000), 4, 9, MAX_VESTING_SECONDS).unwrap();
    assert_eq!(second.deposit_id, 1);
    assert_eq!(second.amount, 6);
    assert_eq!(pool.vesting_nonce, 2);
}

#[test]
fn deposit_snapshots_reward_debt() {
    let mut pool = new_pool(30, 10, 10);
    pool.acc_reward_per_lp = 2 * REWARD_SCALE;
    let (stake, _) = deposit_and_vest(&mut pool, &deposit_ctx(0, 0, 0, 0), 4, 9, MIN_VESTING_SECONDS).unwrap();
    assert_eq!(stake.reward_debt, 12);
}

#[test]
fn deposit_with_short_lock_is_refused() {
    let mut pool = new_pool(30, 10, 10);
    let before = pool;
    assert_eq!(
        deposit_and_vest(&mut pool, &deposit_ctx(1000, 1000, 1000, 0), 100, 100, 24 * 3600),
        Err(AmmError::InvalidVestingPeriod)
    );
    assert_eq!(pool, before);
    assert_eq!(
        deposit_and_vest(&mut pool, &deposit_ctx(1000, 1000, 1000, 0), 100, 100, MAX_VESTING_SECONDS + 1),
        Err(AmmError::InvalidVestingPeriod)
    );
    assert_eq!(pool, before);
}

#[test]
fn deposit_refusals() {
    let mut pool = new_pool(30, 10, 10);
    assert_eq!(
        deposit_and_vest(&mut pool, &deposit_ctx(0, 0, 0, 0), 0, 9, MIN_VESTING_SECONDS),
        Err(AmmError::InsufficientLiquidity)
    );
    assert_eq!(
        deposit_and_vest(&mut pool, &deposit_ctx(0, 0, 0, i64::MAX - 10), 4, 9, MIN_VESTING_SECONDS),
        Err(AmmError::NumericOverflow)
    );
    pool.vesting_nonce = u64::MAX;
    assert_eq!(
        deposit_and_vest(&mut pool, &deposit_ctx(0, 0, 0, 0), 4, 9, MIN_VESTING_SECONDS),
        Err(AmmError::NumericOverflow)
    );
    assert_eq!(pool.vesting_nonce, u64::MAX);
    pause(&mut pool, &OnlyAuthority { pool: key(1) });
    assert_eq!(
        deposit_and_vest(&mut pool, &deposit_ctx(0, 0, 0, 0), 4, 9, MIN_VESTING_SECONDS),
        Err(AmmError::Paused)
    );
}

#[test]
fn claim_twice_and_claim_early() {
    let pool = new_pool(30, 10, 10);
    let mut stake = open_stake(100, 5000, 0);
    let early = ClaimVested { pool: key(1), now: 4999, reward_vault_amount: 0 };
    assert_eq!(claim_vested(&pool, &early, &mut stake), Err(AmmError::VestingNotFinished));
    assert!(!stake.claimed);
    let on_time = ClaimVested { pool: key(1), now: 5000, reward_vault_amount: 0 };
    let ev = claim_vested(&pool, &on_time, &mut stake).unwrap();
    assert_eq!((ev.amount, ev.reward), (100, 0));
    assert!(stake.claimed);
    assert_eq!(claim_vested(&pool, &on_time, &mut stake), Err(AmmError::AlreadyClaimed));
}

#[test]
fn claim_pays_accrued_reward() {
    let mut pool = new_pool(30, 10, 10);
    let (mut stake, _) = deposit_and_vest(&mut pool, &deposit_ctx(0, 0, 0, 0), 100, 100, MIN_VESTING_SECONDS).unwrap();
    // a swap routes a reward of 10 to 100 outstanding share units
    swap(&mut pool, &swap_ctx(1000, 1000, 100, 0), 10_000, 0, true, None).unwrap();
    assert_eq!(pool.acc_reward_per_lp, REWARD_SCALE / 10);
    assert_eq!(pending_reward(stake.amount, pool.acc_reward_per_lp, stake.reward_debt), Ok(10));
    let ctx = ClaimVested { pool: key(1), now: MIN_VESTING_SECONDS, reward_vault_amount: 10 };
    let ev = claim_vested(&pool, &ctx, &mut stake).unwrap();
    assert_eq!((ev.amount, ev.reward), (100, 10));
    assert_eq!(stake.reward_debt, 10);
}

#[test]
fn pending_reward_since_creation() {
    let mut pool = new_pool(30, 10, 10);
    pool.acc_reward_per_lp = 3 * REWARD_SCALE;
    let (stake, _) = deposit_and_vest(&mut pool, &deposit_ctx(0, 0, 0, 0), 7, 7, MIN_VESTING_SECONDS).unwrap();
    pool.acc_reward_per_lp = 5 * REWARD_SCALE;
    assert_eq!(pending_reward(stake.amount, pool.acc_reward_per_lp, stake.reward_debt), Ok(7 * 2));
}

#[test]
fn claim_skips_reward_when_vault_is_short() {
    let mut pool = new_pool(30, 10, 10);
    pool.acc_reward_per_lp = REWARD_SCALE;
    let mut stake = open_stake(100, 0, 0);
    let ctx = ClaimVested { pool: key(1), now: 0, reward_vault_amount: 99 };
    let ev = claim_vested(&pool, &ctx, &mut stake).unwrap();
    assert_eq!((ev.amount, ev.reward), (100, 0));
    assert!(stake.claimed);
}

#[test]
fn claim_refusals() {
    let mut pool = new_pool(30, 10, 10);
    pool.acc_reward_per_lp = u128::MAX;
    let mut stake = open_stake(100, 0, 0);
    let ctx = ClaimVested { pool: key(1), now: 0, reward_vault_amount: 0 };
    assert_eq!(claim_vested(&pool, &ctx, &mut stake), Err(AmmError::NumericOverflow));
    pool.acc_reward_per_lp = u128::MAX / 100;
    assert_eq!(claim_vested(&pool, &ctx, &mut stake), Err(AmmError::NumericOverflow));
    assert!(!stake.claimed);
    pause(&mut pool, &OnlyAuthority { pool: key(1) });
    assert_eq!(claim_vested(&pool, &ctx, &mut stake), Err(AmmError::Paused));
}

#[test]
fn early_exit_penalty_extremes() {
    let pool = new_pool(30, 10, 10);
    let ctx = EarlyUnvest { pool: key(1) };
    let mut stake = open_stake(100, 5000, 0);
    let ev = early_unvest(&pool, &ctx, &mut stake, 40, 0).unwrap();
    assert_eq!((ev.amount_to_user, ev.penalty), (40, 0));
    let ev = early_unvest(&pool, &ctx, &mut stake, 40, 10_000).unwrap();
    assert_eq!((ev.amount_to_user, ev.penalty), (0, 40));
    assert_eq!(stake.amount, 20);
    assert!(!stake.claimed);
}

#[test]
fn early_exit_partial_penalty_and_close() {
    let pool = new_pool(30, 10, 10);
    let ctx = EarlyUnvest { pool: key(1) };
    let mut stake = open_stake(100, 5000, 0);
    let ev = early_unvest(&pool, &ctx, &mut stake, 99, 2500).unwrap();
    assert_eq!((ev.amount_unvested, ev.penalty, ev.amount_to_user), (99, 24, 75));
    let ev = early_unvest(&pool, &ctx, &mut stake, 1, 2500).unwrap();
    assert_eq!(ev.penalty + ev.amount_to_user, 1);
    assert_eq!(stake.amount, 0);
    assert!(stake.claimed);
    assert_eq!(early_unvest(&pool, &ctx, &mut stake, 0, 0), Err(AmmError::AlreadyClaimed));
}

#[test]
fn early_exit_refusals() {
    let mut pool = new_pool(30, 10, 10);
    let ctx = EarlyUnvest { pool: key(1) };
    let mut stake = open_stake(100, 5000, 0);
    assert_eq!(early_unvest(&pool, &ctx, &mut stake, 101, 0), Err(AmmError::InsufficientVestedAmount));
    assert_eq!(early_unvest(&pool, &ctx, &mut stake, 10, 10_001), Err(AmmError::InvalidPenalty));
    assert_eq!(stake.amount, 100);
    pause(&mut pool, &OnlyAuthority { pool: key(1) });
    assert_eq!(early_unvest(&pool, &ctx, &mut stake, 10, 0), Err(AmmError::Paused));
}

#[test]
fn shares_are_conserved_through_a_stake_life() {
    let mut pool = new_pool(30, 10, 10);
    let mut supply: u64 = 0;
    let mut free: u64 = 0;
    let (mut stake, ev) = deposit_and_vest(&mut pool, &deposit_ctx(0, 0, 0, 0), 100, 100, MIN_VESTING_SECONDS).unwrap();
    supply += ev.amount;
    assert_eq!(stake.amount + free, supply);
    let ev = early_unvest(&pool, &EarlyUnvest { pool: key(1) }, &mut stake, 30, 1000).unwrap();
    free += ev.penalty + ev.amount_to_user;
    assert_eq!(stake.amount + free, supply);
    let ev = claim_vested(&pool, &ClaimVested { pool: key(1), now: MIN_VESTING_SECONDS, reward_vault_amount: 0 }, &mut stake).unwrap();
    free += ev.amount;
    assert!(stake.claimed);
    assert_eq!(free, supply);
}

#[test]
fn initialize_checks_fee_split() {
    let (pool, ev) = initialize_pool(&accounts(), 30, 10, 20).unwrap();
    assert_eq!(pool.protocol_fee_bps, 30);
    assert_eq!(pool.treasury_fee_bps, 10);
    assert_eq!(pool.reward_fee_bps, 20);
    assert_eq!(pool.vesting_nonce, 0);
    assert!(!pool.paused);
    assert_eq!(pool.acc_reward_per_lp, 0);
    assert_eq!(pool.lp_mint, key(5));
    assert_eq!((ev.pool, ev.authority, ev.treasury), (key(1), key(2), key(8)));
    assert_eq!(initialize_pool(&accounts(), 30, 20, 11), Err(AmmError::InvalidFeeSplit));
    assert_eq!(initialize_pool(&accounts(), 10_001, 0, 0), Err(AmmError::InvalidFeeSplit));
    assert_eq!(initialize_pool(&accounts(), 100, 60_000, 60_000), Err(AmmError::InvalidFeeSplit));
}

#[test]
fn pause_and_unpause_toggle() {
    let mut pool = new_pool(30, 10, 10);
    let ctx = OnlyAuthority { pool: key(1) };
    assert_eq!(pause(&mut pool, &ctx).pool, key(1));
    assert!(pool.paused);
    assert_eq!(unpause(&mut pool, &ctx).pool, key(1));
    assert!(!pool.paused);
}

#[test]
fn emergency_sweep_takes_whole_reserves() {
    let ev = emergency_withdraw(&EmergencyWithdraw { pool: key(1), reserve_a_amount: 123, reserve_b_amount: 456 });
    assert_eq!((ev.amount_a, ev.amount_b), (123, 456));
}

#[test]
fn error_messages() {
    assert_eq!(AmmError::SlotTooLow.message(), "Slot too low (anti front-run)");
    assert_eq!(AmmError::Paused.message(), "Paused");
}

#[test]
fn swap_rounding_keeps_product() {
    // with no fee the output reserve left, 9 / 4, is rounded up in the pool's favour
    let mut pool = new_pool(0, 0, 0);
    let ev = swap(&mut pool, &swap_ctx(3, 3, 0, 0), 1, 0, true, None).unwrap();
    assert_eq!(ev.amount_out, 0);
    assert!((3 + 1) * (3 - ev.amount_out) >= 9);
}

#[test]
fn swap_never_drains_output_reserve() {
    let mut pool = new_pool(0, 0, 0);
    let ev = swap(&mut pool, &swap_ctx(1, 1, 0, 0), 1, 0, true, None).unwrap();
    assert_eq!(ev.amount_out, 0);
    let ev = swap(&mut pool, &swap_ctx(1000, 1000, 0, 0), u64::MAX, 0, true, None).unwrap();
    assert_eq!(ev.amount_out, 999);
}

#[test]
fn pending_reward_rounds_debt_and_total_apart() {
    // debt floor(1 * S/2 / S) = 0, total floor(1 * S / S) = 1, while floor(1 * (S - S/2) / S) = 0
    let debt = reward_debt_for(1, REWARD_SCALE / 2).unwrap();
    assert_eq!(debt, 0);
    assert_eq!(pending_reward(1, REWARD_SCALE, debt), Ok(1));
}
