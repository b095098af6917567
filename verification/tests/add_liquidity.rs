use solanaswift::error::SwapError;
use solanaswift::instructions::add_liquidity::{handler, quote};
use solanaswift::instructions::AddLiquidity;
use solanaswift::state::LiquidityPool;

fn pool(reserve_a: u64, reserve_b: u64) -> LiquidityPool {
    let mut pool = LiquidityPool::default();
    pool.reserve_a = reserve_a;
    pool.reserve_b = reserve_b;
    pool.base_fee_bps = 30;
    pool.is_initialized = true;
    pool
}

fn deposit_into(pool: LiquidityPool, lp_supply: u64) -> AddLiquidity {
    AddLiquidity { pool, lp_supply }
}

#[test]
fn first_deposit_of_two_thousand_each() {
    let mut ctx = deposit_into(pool(0, 0), 0);
    assert_eq!(handler(&mut ctx, 2000, 2000, 0, 0), Ok((2000, 2000, 1000)));
    assert_eq!(ctx.pool.reserve_a, 2000);
    assert_eq!(ctx.pool.reserve_b, 2000);
    assert_eq!(ctx.lp_supply, 0);
}

#[test]
fn first_deposit_takes_the_root_of_the_product() {
    let mut ctx = deposit_into(pool(0, 0), 0);
    // sqrt(1_000 * 9_000_000) = 94_868.3...
    assert_eq!(handler(&mut ctx, 1_000, 9_000_000, 0, 0), Ok((1_000, 9_000_000, 93_868)));
    let mut ctx = deposit_into(pool(0, 0), 0);
    assert_eq!(
        solanaswift::add_liquidity(&mut ctx, u64::MAX, u64::MAX, 0, 0),
        Ok((u64::MAX, u64::MAX, u64::MAX - 1000))
    );
    assert_eq!(ctx.pool.reserve_a, u64::MAX);
}

#[test]
fn first_deposit_ignores_the_minimums() {
    let mut ctx = deposit_into(pool(0, 0), 0);
    assert_eq!(handler(&mut ctx, 2000, 2000, 5000, 5000), Ok((2000, 2000, 1000)));
}

#[test]
fn first_deposit_must_leave_something_after_the_locked_thousand() {
    for (a, b) in [(1000u64, 1000u64), (1, 1), (1, 1_002_000), (500, 2000)] {
        let mut ctx = deposit_into(pool(0, 0), 0);
        let before = ctx;
        assert_eq!(handler(&mut ctx, a, b, 0, 0), Err(SwapError::InsufficientLiquidity));
        assert_eq!(ctx, before);
    }
    let mut ctx = deposit_into(pool(0, 0), 0);
    assert_eq!(handler(&mut ctx, 1001, 1001, 0, 0), Ok((1001, 1001, 1)));
}

#[test]
fn later_deposit_takes_all_of_a_when_b_suffices() {
    let mut ctx = deposit_into(pool(10_000, 20_000), 5_000);
    assert_eq!(handler(&mut ctx, 1000, 3000, 0, 0), Ok((1000, 2000, 500)));
    assert_eq!(ctx.pool.reserve_a, 11_000);
    assert_eq!(ctx.pool.reserve_b, 22_000);
    assert_eq!(ctx.lp_supply, 5_000);
}

#[test]
fn later_deposit_takes_all_of_b_otherwise() {
    let mut ctx = deposit_into(pool(10_000, 20_000), 5_000);
    assert_eq!(handler(&mut ctx, 1000, 1000, 0, 0), Ok((500, 1000, 250)));
    assert_eq!(ctx.pool.reserve_a, 10_500);
    assert_eq!(ctx.pool.reserve_b, 21_000);
}

#[test]
fn later_deposit_mints_by_the_smaller_share() {
    // 10 of A matches 23 of B (rounded down); 10 * 5 / 3 = 16 and 23 * 5 / 7 = 16.
    let mut ctx = deposit_into(pool(3, 7), 5);
    assert_eq!(handler(&mut ctx, 10, 100, 0, 0), Ok((10, 23, 16)));
    // 7 of A matches 2 of B; 7 * 100 / 10 = 70 but 2 * 100 / 3 = 66.
    let mut ctx = deposit_into(pool(10, 3), 100);
    assert_eq!(handler(&mut ctx, 7, 5, 0, 0), Ok((7, 2, 66)));
}

#[test]
fn minimum_of_b_is_enforced() {
    let mut ctx = deposit_into(pool(10_000, 20_000), 5_000);
    let before = ctx;
    assert_eq!(handler(&mut ctx, 1000, 3000, 0, 2001), Err(SwapError::InsufficientBAmount));
    assert_eq!(ctx, before);
    assert_eq!(handler(&mut ctx, 1000, 3000, 1001, 2000), Ok((1000, 2000, 500)));
}

#[test]
fn minimum_of_a_is_enforced() {
    let mut ctx = deposit_into(pool(10_000, 20_000), 5_000);
    let before = ctx;
    assert_eq!(handler(&mut ctx, 1000, 1000, 501, 0), Err(SwapError::InsufficientAAmount));
    assert_eq!(ctx, before);
    assert_eq!(handler(&mut ctx, 1000, 1000, 500, 1001), Ok((500, 1000, 250)));
}

#[test]
fn zero_amounts_are_refused() {
    for (a, b) in [(0u64, 0u64), (0, 5), (5, 0)] {
        let mut ctx = deposit_into(pool(10_000, 20_000), 5_000);
        let before = ctx;
        assert_eq!(handler(&mut ctx, a, b, 0, 0), Err(SwapError::InsufficientAmount));
        assert_eq!(ctx, before);
    }
}

#[test]
fn uninitialized_pool_takes_no_deposit() {
    let mut ctx = deposit_into(pool(0, 0), 0);
    ctx.pool.is_initialized = false;
    let before = ctx;
    assert_eq!(handler(&mut ctx, 2000, 2000, 0, 0), Err(SwapError::PoolNotInitialized));
    assert_eq!(ctx, before);
}

#[test]
fn deposit_that_mints_nothing_is_refused() {
    let mut ctx = deposit_into(pool(10_000, 20_000), 5);
    let before = ctx;
    assert_eq!(handler(&mut ctx, 1000, 3000, 0, 0), Err(SwapError::InsufficientLiquidityBurned));
    assert_eq!(ctx, before);
    let mut ctx = deposit_into(pool(10_000, 20_000), 0);
    assert_eq!(handler(&mut ctx, 1000, 3000, 0, 0), Err(SwapError::InsufficientLiquidityBurned));
}

#[test]
fn one_sided_pool_takes_no_deposit() {
    for (a, b) in [(0u64, 10u64), (10, 0)] {
        let mut ctx = deposit_into(pool(a, b), 5);
        let before = ctx;
        assert_eq!(handler(&mut ctx, 1000, 1000, 0, 0), Err(SwapError::InsufficientLiquidity));
        assert_eq!(ctx, before);
    }
}

#[test]
fn deposit_overflowing_a_reserve_is_refused() {
    let mut ctx = deposit_into(pool(u64::MAX - 5, u64::MAX - 5), u64::MAX);
    let before = ctx;
    assert_eq!(handler(&mut ctx, 6, 6, 0, 0), Err(SwapError::MathOverflow));
    assert_eq!(ctx, before);
    assert_eq!(handler(&mut ctx, 5, 5, 0, 0), Ok((5, 5, 5)));
    assert_eq!(ctx.pool.reserve_a, u64::MAX);
    let mut ctx = deposit_into(pool(0, 0), 0);
    ctx.pool = pool(1, u64::MAX);
    ctx.lp_supply = 10;
    // The B that matches 2 of A does not fit in 64 bits.
    assert_eq!(handler(&mut ctx, 2, 5, 0, 0), Err(SwapError::MathOverflow));
}

#[test]
fn minted_amount_that_does_not_fit_is_refused() {
    let mut ctx = deposit_into(pool(1, 1), u64::MAX);
    let before = ctx;
    assert_eq!(handler(&mut ctx, 2, 2, 0, 0), Err(SwapError::MathOverflow));
    assert_eq!(ctx, before);
    assert_eq!(handler(&mut ctx, 1, 1, 0, 0), Ok((1, 1, u64::MAX)));
}

#[test]
fn deposit_does_not_look_at_the_guard() {
    let mut ctx = deposit_into(pool(10_000, 20_000), 5_000);
    ctx.pool.is_locked = true;
    assert_eq!(handler(&mut ctx, 1000, 3000, 0, 0), Ok((1000, 2000, 500)));
    assert!(ctx.pool.is_locked);
}

#[test]
fn quote_follows_the_reserves() {
    assert_eq!(quote(1000, 10_000, 20_000), Ok(2000));
    assert_eq!(quote(1000, 20_000, 10_000), Ok(500));
    assert_eq!(quote(10, 3, 7), Ok(23));
    assert_eq!(quote(1, 3, 2), Ok(0));
}

#[test]
fn quote_refusals() {
    assert_eq!(quote(0, 10, 10), Err(SwapError::InsufficientAmount));
    assert_eq!(quote(0, 0, 0), Err(SwapError::InsufficientAmount));
    assert_eq!(quote(1, 0, 10), Err(SwapError::InsufficientLiquidity));
    assert_eq!(quote(1, 10, 0), Err(SwapError::InsufficientLiquidity));
    assert_eq!(quote(2, 1, u64::MAX), Err(SwapError::MathOverflow));
    assert_eq!(quote(1, 1, u64::MAX), Ok(u64::MAX));
}
