use anchor_lang::prelude::Pubkey;
use solanaswift::error::SwapError;
use solanaswift::instructions::swap::handler;
use solanaswift::instructions::Swap;
use solanaswift::state::LiquidityPool;

fn mint_a() -> Pubkey {
    Pubkey::new_from_array([2; 32])
}

fn mint_b() -> Pubkey {
    Pubkey::new_from_array([3; 32])
}

fn pool(reserve_a: u64, reserve_b: u64, fee_bps: u16) -> LiquidityPool {
    let mut pool = LiquidityPool::default();
    pool.token_a_mint = mint_a();
    pool.token_b_mint = mint_b();
    pool.reserve_a = reserve_a;
    pool.reserve_b = reserve_b;
    pool.base_fee_bps = fee_bps;
    pool.is_initialized = true;
    pool
}

fn swap_of(pool: LiquidityPool, token_in_mint: Pubkey) -> Swap {
    Swap { pool, token_in_mint, volatility: 0 }
}

#[test]
fn swap_of_a_thousand_at_thirty_bps() {
    let mut ctx = swap_of(pool(10_000, 10_000, 30), mint_a());
    assert_eq!(handler(&mut ctx, 1000, 0), Ok(906));
    assert_eq!(ctx.pool.reserve_a, 11_000);
    assert_eq!(ctx.pool.reserve_b, 9_094);
    assert_eq!(ctx.pool.total_fees_collected, 3);
    assert_eq!(ctx.pool.last_price, 826_727_272);
    assert_eq!(ctx.pool.price_history[0], 826_727_272);
    assert_eq!(ctx.pool.history_index, 1);
    assert_eq!(ctx.pool.history_len, 1);
    assert!(!ctx.pool.is_locked);
}

#[test]
fn swap_in_the_other_direction() {
    let mut ctx = swap_of(pool(10_000, 10_000, 30), mint_b());
    assert_eq!(solanaswift::swap(&mut ctx, 1000, 906), Ok(906));
    assert_eq!(ctx.pool.reserve_b, 11_000);
    assert_eq!(ctx.pool.reserve_a, 9_094);
    // Price is B per A whichever way the swap went.
    assert_eq!(ctx.pool.last_price, 1_209_588_739);
    assert_eq!(ctx.pool.total_fees_collected, 3);
}

#[test]
fn swap_leaves_the_rest_of_the_record_alone() {
    let mut ctx = swap_of(pool(10_000, 10_000, 30), mint_a());
    ctx.pool.volatility_fee_bps = 45;
    ctx.pool.last_update_slot = 77;
    ctx.pool.total_volume_usd = 9;
    ctx.pool.created_at = -5;
    ctx.pool.bump = 3;
    let before = ctx;
    assert_eq!(handler(&mut ctx, 1000, 0), Ok(906));
    assert_eq!(ctx.token_in_mint, before.token_in_mint);
    assert_eq!(ctx.volatility, before.volatility);
    assert_eq!(ctx.pool.last_update_slot, before.pool.last_update_slot);
    assert_eq!(ctx.pool.volatility_fee_bps, 45);
    assert_eq!(ctx.pool.total_volume_usd, 9);
    assert_eq!(ctx.pool.created_at, -5);
    assert_eq!(ctx.pool.bump, 3);
    assert_eq!(ctx.pool.base_fee_bps, 30);
    assert_eq!(ctx.pool.token_a_mint, mint_a());
}

#[test]
fn swap_uses_the_adaptive_fee() {
    let mut calm = swap_of(pool(10_000, 10_000, 30), mint_a());
    calm.pool.history_index = 5;
    calm.pool.history_len = 5;
    let mut turbulent = calm;
    turbulent.volatility = 1_000_000_000;
    assert_eq!(handler(&mut calm, 1000, 0), Ok(906));
    // Fee of 90 bps: 991 net in, 991 * 10000 / 10991 = 901.
    assert_eq!(handler(&mut turbulent, 1000, 0), Ok(901));
    assert_eq!(turbulent.pool.total_fees_collected, 9);
    assert_eq!(turbulent.pool.history_index, 6);
    assert_eq!(turbulent.pool.history_len, 6);
    assert_eq!(turbulent.pool.price_history[5], turbulent.pool.last_price);
}

#[test]
fn product_of_reserves_does_not_decrease() {
    let cases: [(u64, u64, u64, u16); 6] = [
        (10_000, 10_000, 1000, 30),
        (1, 1, 1, 5),
        (1, 1_000_000, 7, 100),
        (1_000_000, 1, 999_999, 30),
        (123_456_789, 987_654_321, 55_555, 5),
        (u64::MAX / 2, 1_000, u64::MAX / 2, 100),
    ];
    for (reserve_a, reserve_b, amount_in, fee) in cases {
        let mut ctx = swap_of(pool(reserve_a, reserve_b, fee), mint_a());
        let before = (reserve_a as u128) * (reserve_b as u128);
        let out = handler(&mut ctx, amount_in, 0);
        if let Ok(out) = out {
            assert!(out < reserve_b);
            let after = (ctx.pool.reserve_a as u128) * (ctx.pool.reserve_b as u128);
            assert!(after >= before);
            assert!(ctx.pool.reserve_b > 0);
        } else {
            assert_eq!(out, Err(SwapError::MathOverflow));
            assert_eq!(ctx.pool.reserve_a, reserve_a);
        }
    }
}

#[test]
fn pool_is_never_drained() {
    let mut ctx = swap_of(pool(1, 1_000, 0), mint_a());
    ctx.pool.base_fee_bps = 0;
    assert_eq!(handler(&mut ctx, u64::MAX / 4, 0), Ok(999));
    assert_eq!(ctx.pool.reserve_b, 1);
}

#[test]
fn dust_swaps_pay_nothing_but_are_taken() {
    let mut ctx = swap_of(pool(10_000, 10_000, 30), mint_a());
    assert_eq!(handler(&mut ctx, 1, 0), Ok(0));
    assert_eq!(ctx.pool.reserve_a, 10_001);
    assert_eq!(ctx.pool.reserve_b, 10_000);
    assert_eq!(ctx.pool.total_fees_collected, 1);
}

#[test]
fn uninitialized_pool_does_not_swap() {
    let mut ctx = swap_of(pool(10_000, 10_000, 30), mint_a());
    ctx.pool.is_initialized = false;
    let before = ctx;
    assert_eq!(handler(&mut ctx, 0, 0), Err(SwapError::PoolNotInitialized));
    assert_eq!(ctx, before);
}

#[test]
fn zero_input_is_refused() {
    let mut ctx = swap_of(pool(10_000, 10_000, 30), mint_a());
    let before = ctx;
    assert_eq!(handler(&mut ctx, 0, 0), Err(SwapError::InsufficientAmount));
    assert_eq!(ctx, before);
}

#[test]
fn locked_pool_refuses_a_second_swap() {
    let mut ctx = swap_of(pool(10_000, 10_000, 30), mint_a());
    ctx.pool.is_locked = true;
    let before = ctx;
    assert_eq!(handler(&mut ctx, 1000, 0), Err(SwapError::PoolLocked));
    assert_eq!(ctx, before);
    ctx.pool.unlock();
    assert_eq!(handler(&mut ctx, 1000, 0), Ok(906));
}

#[test]
fn foreign_asset_is_refused() {
    let mut ctx = swap_of(pool(10_000, 10_000, 30), Pubkey::new_from_array([9; 32]));
    let before = ctx;
    assert_eq!(handler(&mut ctx, 1000, 0), Err(SwapError::InvalidTokenMint));
    assert_eq!(ctx, before);
}

#[test]
fn empty_pool_does_not_swap() {
    for (reserve_a, reserve_b) in [(0u64, 0u64), (0, 10), (10, 0)] {
        let mut ctx = swap_of(pool(reserve_a, reserve_b, 30), mint_a());
        let before = ctx;
        assert_eq!(handler(&mut ctx, 1000, 0), Err(SwapError::InsufficientLiquidity));
        assert_eq!(ctx, before);
    }
}

#[test]
fn slippage_is_enforced() {
    let mut ctx = swap_of(pool(10_000, 10_000, 30), mint_a());
    let before = ctx;
    assert_eq!(handler(&mut ctx, 1000, 907), Err(SwapError::SlippageExceeded));
    assert_eq!(ctx, before);
    assert!(!ctx.pool.is_locked);
    assert_eq!(handler(&mut ctx, 1000, 906), Ok(906));
}

#[test]
fn reserve_overflow_is_refused() {
    let mut ctx = swap_of(pool(u64::MAX - 10, 1_000_000, 30), mint_a());
    let before = ctx;
    assert_eq!(handler(&mut ctx, 11, 0), Err(SwapError::MathOverflow));
    assert_eq!(ctx, before);
    assert_eq!(handler(&mut ctx, 10, 0), Ok(0));
    assert_eq!(ctx.pool.reserve_a, u64::MAX);
}

#[test]
fn price_that_does_not_fit_is_refused() {
    // After the swap there would be 10^11 B per A; scaled by 10^9 that is above 2^64.
    let mut ctx = swap_of(pool(10, 1_000_000_000_000, 30), mint_b());
    let before = ctx;
    assert_eq!(handler(&mut ctx, 1000, 0), Err(SwapError::MathOverflow));
    assert_eq!(ctx, before);
    // At 10^10 B per A the price still fits.
    let mut ctx = swap_of(pool(100, 1_000_000_000_000, 30), mint_b());
    assert_eq!(handler(&mut ctx, 1000, 0), Ok(0));
    assert_eq!(ctx.pool.last_price, 10_000_000_010_000_000_000);
}

#[test]
fn fee_statistic_overflow_is_refused() {
    let mut ctx = swap_of(pool(10_000, 10_000, 30), mint_a());
    ctx.pool.total_fees_collected = u64::MAX - 2;
    let before = ctx;
    assert_eq!(handler(&mut ctx, 1000, 0), Err(SwapError::MathOverflow));
    assert_eq!(ctx, before);
    ctx.pool.total_fees_collected = u64::MAX - 3;
    assert_eq!(handler(&mut ctx, 1000, 0), Ok(906));
    assert_eq!(ctx.pool.total_fees_collected, u64::MAX);
}

#[test]
fn checks_come_in_order() {
    let mut ctx = swap_of(pool(0, 0, 30), Pubkey::new_from_array([9; 32]));
    ctx.pool.is_locked = true;
    assert_eq!(handler(&mut ctx, 0, 0), Err(SwapError::InsufficientAmount));
    assert_eq!(handler(&mut ctx, 1, 0), Err(SwapError::PoolLocked));
    ctx.pool.is_locked = false;
    assert_eq!(handler(&mut ctx, 1, 0), Err(SwapError::InvalidTokenMint));
    ctx.token_in_mint = mint_a();
    assert_eq!(handler(&mut ctx, 1, 0), Err(SwapError::InsufficientLiquidity));
}

#[test]
fn swap_does_not_move_the_time_of_the_last_refresh() {
    let mut ctx = swap_of(pool(10_000, 10_000, 30), mint_a());
    ctx.pool.last_update_slot = 100;
    ctx.pool.volatility_fee_bps = 30;
    for _ in 0..7 {
        assert!(handler(&mut ctx, 100, 0).is_ok());
        assert_eq!(ctx.pool.last_update_slot, 100);
        assert_eq!(ctx.pool.volatility_fee_bps, 30);
    }
    assert_eq!(ctx.pool.history_len, 7);
}

#[test]
fn swaps_turn_the_fee_adaptive_and_keep_it_so() {
    let mut ctx = swap_of(pool(1_000_000, 1_000_000, 30), mint_a());
    ctx.volatility = 1_000_000_000;
    // Four prices recorded: the base fee of 30 bps still applies.
    for _ in 0..5 {
        assert_eq!(ctx.pool.calculate_adaptive_fee(ctx.volatility), 30);
        assert!(handler(&mut ctx, 1000, 0).is_ok());
    }
    assert_eq!(ctx.pool.history_len, 5);
    for _ in 0..60 {
        assert_eq!(ctx.pool.calculate_adaptive_fee(ctx.volatility), 90);
        let fees_before = ctx.pool.total_fees_collected;
        assert!(handler(&mut ctx, 1000, 0).is_ok());
        // 1000 * 9910 / 10000 = 991 net in: 9 taken as fee.
        assert_eq!(ctx.pool.total_fees_collected, fees_before + 9);
    }
    assert_eq!(ctx.pool.history_len, 50);
    assert_eq!(ctx.pool.history_index, 15);
}
