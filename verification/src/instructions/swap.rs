//! Exchange of one asset of the pool for the other along the constant-product curve.

use crate::error::SwapError;
use crate::math::{lemma_floor_div, mul_div};
use crate::state::{Asset, LiquidityPool, PoolView};
use anchor_lang::prelude::Pubkey;
use vstd::prelude::*;

verus! {

/// Basis points in a whole.
pub const BPS_DENOMINATOR: u64 = 10_000;

/// Fixed-point unit of a price: `1_000_000_000` stands for one unit of B per unit of A.
pub const PRICE_SCALE: u64 = 1_000_000_000;

/// What a swap reads from its surroundings.
#[derive(Clone, Copy, Debug, PartialEq, Eq)]
pub struct Swap {
    pub pool: LiquidityPool,
    /// The asset that the trader pays in.
    pub token_in_mint: Pubkey,
    /// Volatility measured on the pool's price history, in units of
    /// `VOLATILITY_SCALE`.
    pub volatility: u64,
}

/// What is left of `amount_in` once the fee is taken, rounded down, so that the
/// rounding goes to the pool.
pub open spec fn amount_after_fee(amount_in: nat, fee_bps: nat) -> nat {
    if fee_bps >= BPS_DENOMINATOR {
        0
    } else {
        amount_in * ((BPS_DENOMINATOR - fee_bps) as nat) / (BPS_DENOMINATOR as nat)
    }
}

/// The constant-product output for an input net of fee, rounded down.
pub open spec fn swap_output(amount_in_after_fee: nat, reserve_in: nat, reserve_out: nat) -> nat {
    amount_in_after_fee * reserve_out / (reserve_in + amount_in_after_fee)
}

/// Units of B per unit of A in units of `PRICE_SCALE`, rounded down; zero for a
/// pool without A.
pub open spec fn spot_price(reserve_a: nat, reserve_b: nat) -> nat {
    if reserve_a > 0 {
        reserve_b * (PRICE_SCALE as nat) / reserve_a
    } else {
        0
    }
}

/// What a swap does: the pool after it and the amount paid out, or the reason for
/// which it is refused. The conditions are tested in the order written. A swap
/// changes the reserves, the price history and the fees collected, and nothing
/// else: the time of the last fee refresh stays as it was.
pub open spec fn swap_transition(
    pool: PoolView,
    token_in: Pubkey,
    amount_in: nat,
    minimum_amount_out: nat,
    volatility: nat,
) -> Result<(PoolView, nat), SwapError> {
    if !pool.is_initialized {
        Err(SwapError::PoolNotInitialized)
    } else if amount_in == 0 {
        Err(SwapError::InsufficientAmount)
    } else if pool.is_locked {
        Err(SwapError::PoolLocked)
    } else {
        match pool.asset_of(token_in) {
            None => Err(SwapError::InvalidTokenMint),
            Some(asset_in) => {
                let reserve_in = pool.reserve(asset_in);
                let reserve_out = pool.reserve(asset_in.opposite());
                if reserve_in == 0 || reserve_out == 0 {
                    Err(SwapError::InsufficientLiquidity)
                } else {
                    let net_in = amount_after_fee(amount_in, pool.effective_fee(volatility));
                    let amount_out = swap_output(net_in, reserve_in, reserve_out);
                    let traded = pool.with_reserve(asset_in, reserve_in + amount_in).with_reserve(
                        asset_in.opposite(),
                        (reserve_out - amount_out) as nat,
                    );
                    let price = spot_price(traded.reserve_a, traded.reserve_b);
                    let fees = (pool.total_fees_collected + amount_in - net_in) as nat;
                    if amount_out < minimum_amount_out {
                        Err(SwapError::SlippageExceeded)
                    } else if reserve_in + amount_in > u64::MAX || price > u64::MAX || fees
                        > u64::MAX {
                        Err(SwapError::MathOverflow)
                    } else {
                        Ok(
                            (
                                PoolView {
                                    total_fees_collected: fees,
                                    ..traded
                                }.record_price(price),
                                amount_out,
                            ),
                        )
                    }
                }
            },
        }
    }
}

/// The reserve that a swap paying in `token_in` draws on.
pub open spec fn reserve_out_of(pool: PoolView, token_in: Pubkey) -> nat {
    match pool.asset_of(token_in) {
        Some(asset_in) => pool.reserve(asset_in.opposite()),
        None => 0,
    }
}

/// The arithmetic of a swap against reserves that are both positive: the fee never
/// adds to the input, the output stays strictly below the reserve it is drawn
/// from, and the product of the reserves does not decrease.
pub proof fn lemma_swap_amounts(amount_in: nat, fee_bps: nat, reserve_in: nat, reserve_out: nat)
    requires
        reserve_in > 0,
        reserve_out > 0,
    ensures
        amount_after_fee(amount_in, fee_bps) <= amount_in,
        swap_output(amount_after_fee(amount_in, fee_bps), reserve_in, reserve_out) < reserve_out,
        (reserve_in + amount_in) * (reserve_out - swap_output(
            amount_after_fee(amount_in, fee_bps),
            reserve_in,
            reserve_out,
        )) >= reserve_in * reserve_out,
{
    let net_in = amount_after_fee(amount_in, fee_bps);
    if fee_bps < BPS_DENOMINATOR {
        let keep = (BPS_DENOMINATOR - fee_bps) as nat;
        lemma_floor_div((amount_in * keep) as int, BPS_DENOMINATOR as int);
        assert(net_in <= amount_in) by (nonlinear_arith)
            requires
                10_000 * net_in <= amount_in * keep,
                keep <= 10_000,
        ;
    }
    let out = swap_output(net_in, reserve_in, reserve_out);
    let d = reserve_in + net_in;
    lemma_floor_div((net_in * reserve_out) as int, d as int);
    assert(out < reserve_out) by (nonlinear_arith)
        requires
            d * out <= net_in * reserve_out,
            d == reserve_in + net_in,
            reserve_in > 0,
            reserve_out > 0,
    ;
    assert((reserve_in + amount_in) * (reserve_out - out) >= reserve_in * reserve_out)
        by (nonlinear_arith)
        requires
            d * out <= net_in * reserve_out,
            d == reserve_in + net_in,
            net_in <= amount_in,
            out < reserve_out,
    {
        assert((reserve_in + amount_in) * (reserve_out - out) >= d * (reserve_out - out));
        assert(d * (reserve_out - out) == d * reserve_out - d * out);
        assert(d * reserve_out == reserve_in * reserve_out + net_in * reserve_out);
    }
}

/// A swap keeps a well-formed pool well formed, unlocked, and with a product of
/// reserves that has not decreased; what it pays out is strictly less than the
/// reserve it is drawn from, and the fees collected never go down.
pub proof fn lemma_swap_transition(
    pool: PoolView,
    token_in: Pubkey,
    amount_in: nat,
    minimum_amount_out: nat,
    volatility: nat,
)
    requires
        swap_transition(pool, token_in, amount_in, minimum_amount_out, volatility) is Ok,
    ensures
        ({
            let (next, amount_out) = swap_transition(
                pool,
                token_in,
                amount_in,
                minimum_amount_out,
                volatility,
            )->Ok_0;
            &&& minimum_amount_out <= amount_out < reserve_out_of(pool, token_in)
            &&& next.reserve_a * next.reserve_b >= pool.reserve_a * pool.reserve_b
            &&& next.reserve_a > 0 && next.reserve_b > 0
            &&& next.total_fees_collected >= pool.total_fees_collected
            &&& next.last_update_slot == pool.last_update_slot
            &&& next.volatility_fee_bps == pool.volatility_fee_bps
            &&& pool.well_formed() ==> next.history_len >= pool.history_len
            &&& !next.is_locked
            &&& pool.well_formed() ==> next.well_formed()
        }),
{
    let asset_in = pool.asset_of(token_in)->Some_0;
    let reserve_in = pool.reserve(asset_in);
    let reserve_out = pool.reserve(asset_in.opposite());
    let fee = pool.effective_fee(volatility);
    lemma_swap_amounts(amount_in, fee, reserve_in, reserve_out);
    let out = swap_output(amount_after_fee(amount_in, fee), reserve_in, reserve_out);
    assert((reserve_in + amount_in) * (reserve_out - out) == (reserve_out - out) * (reserve_in
        + amount_in)) by (nonlinear_arith);
    assert(reserve_in * reserve_out == reserve_out * reserve_in) by (nonlinear_arith);
}

/// Exchanges `amount_in` of the asset `ctx.token_in_mint` for the other asset of
/// the pool and returns the amount paid out. The caller moves `amount_in` from the
/// trader to the pool and the returned amount from the pool to the trader.
///
/// The guard is taken for the duration of the swap and released on every path; a
/// refused swap leaves `ctx` as it was.
pub fn handler(ctx: &mut Swap, amount_in: u64, minimum_amount_out: u64) -> (res: Result<
    u64,
    SwapError,
>)
    ensures
        match swap_transition(
            old(ctx).pool@,
            old(ctx).token_in_mint,
            amount_in as nat,
            minimum_amount_out as nat,
            old(ctx).volatility as nat,
        ) {
            Ok((next, amount_out)) => {
                &&& res matches Ok(paid)
                &&& paid == amount_out
                &&& final(ctx).pool@ == next
            },
            Err(e) => res == Err::<u64, SwapError>(e) && *final(ctx) == *old(ctx),
        },
        *final(ctx) == (Swap { pool: final(ctx).pool, ..*old(ctx) }),
        res matches Ok(paid) ==> minimum_amount_out <= paid < reserve_out_of(
            old(ctx).pool@,
            old(ctx).token_in_mint,
        ),
        res is Ok ==> final(ctx).pool.reserve_a * final(ctx).pool.reserve_b
            >= old(ctx).pool.reserve_a * old(ctx).pool.reserve_b,
        res is Ok ==> !final(ctx).pool.is_locked,
        final(ctx).pool.last_update_slot == old(ctx).pool.last_update_slot,
        old(ctx).pool.wf() ==> final(ctx).pool.wf() && final(ctx).pool.history_len
            >= old(ctx).pool.history_len,
{
    if !ctx.pool.is_initialized {
        return Err(SwapError::PoolNotInitialized);
    }
    if amount_in == 0 {
        return Err(SwapError::InsufficientAmount);
    }
    // All work is done on a copy that is stored back at the end, so the guard is
    // released on every path and no partial update is ever visible.
    let mut next: LiquidityPool = ctx.pool;
    next.lock()?;

    let asset_in: Asset = ctx.pool.asset_of(&ctx.token_in_mint)?;
    let asset_out: Asset = asset_in.other();
    let reserve_in: u64 = ctx.pool.reserve(asset_in);
    let reserve_out: u64 = ctx.pool.reserve(asset_out);
    if reserve_in == 0 || reserve_out == 0 {
        return Err(SwapError::InsufficientLiquidity);
    }
    let fee_bps: u16 = ctx.pool.calculate_adaptive_fee(ctx.volatility);
    let keep: u64 = BPS_DENOMINATOR.saturating_sub(fee_bps as u64);
    proof {
        lemma_swap_amounts(amount_in as nat, fee_bps as nat, reserve_in as nat, reserve_out as nat);
        if fee_bps >= BPS_DENOMINATOR {
            assert(amount_in * keep == 0) by (nonlinear_arith)
                requires
                    keep == 0,
            ;
        }
    }
    let amount_in_with_fee: u64 = mul_div(amount_in, keep, BPS_DENOMINATOR as u128)?;
    let amount_out: u64 = mul_div(
        amount_in_with_fee,
        reserve_out,
        reserve_in as u128 + amount_in_with_fee as u128,
    )?;

    if amount_out < minimum_amount_out {
        return Err(SwapError::SlippageExceeded);
    }
    if amount_out >= reserve_out {
        return Err(SwapError::InsufficientLiquidity);
    }
    next.increase(asset_in, amount_in)?;
    next.decrease(asset_out, amount_out)?;
    let current_price: u64 = if next.reserve_a > 0 {
        mul_div(next.reserve_b, PRICE_SCALE, next.reserve_a as u128)?
    } else {
        0
    };
    let fee_amount: u64 = amount_in.checked_sub(amount_in_with_fee).ok_or(
        SwapError::MathOverflow,
    )?;
    next.total_fees_collected = next.total_fees_collected.checked_add(fee_amount).ok_or(
        SwapError::MathOverflow,
    )?;
    next.update_price_history(current_price);
    next.unlock();
    proof {
        lemma_swap_transition(
            ctx.pool@,
            ctx.token_in_mint,
            amount_in as nat,
            minimum_amount_out as nat,
            ctx.volatility as nat,
        );
    }
    ctx.pool = next;
    Ok(amount_out)
}

} // verus!
