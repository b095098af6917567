//! Accounting and pricing engine of a two-asset constant-product liquidity pool.
//!
//! The pool keeps two reserves, prices swaps along the constant-product curve,
//! mints and burns claim tokens in proportion to deposits and withdrawals, and
//! adapts its fee to the volatility of recent prices. Moving assets between
//! accounts is left to the caller: every operation here takes the pool and the
//! few values it reads from its surroundings, and returns the amounts to move.

pub mod error;
pub mod instructions;
pub mod math;
pub mod state;

use crate::error::SwapError;
use crate::instructions::add_liquidity::deposit_transition;
use crate::instructions::initialize_pool::create_transition;
use crate::instructions::remove_liquidity::withdrawal_transition;
use crate::instructions::swap::{reserve_out_of, swap_transition};
use crate::instructions::update_fees::refresh_transition;
use crate::instructions::{AddLiquidity, InitializePool, RemoveLiquidity, Swap, UpdateFees};
use vstd::prelude::*;

verus! {

/// Creates a pool of fee tier `fee_tier`. See `instructions::initialize_pool::handler`.
pub fn initialize_pool(ctx: &mut InitializePool, fee_tier: u16) -> (res: Result<(), SwapError>)
    ensures
        match create_transition(*old(ctx), fee_tier as nat) {
            Ok(pool) => res is Ok && final(ctx).pool@ == pool && final(ctx).pool.wf(),
            Err(e) => res == Err::<(), SwapError>(e) && *final(ctx) == *old(ctx),
        },
        *final(ctx) == (InitializePool { pool: final(ctx).pool, ..*old(ctx) }),
{
    instructions::initialize_pool::handler(ctx, fee_tier)
}

/// Swaps `amount_in` of one asset for the other. See `instructions::swap::handler`.
pub fn swap(ctx: &mut Swap, amount_in: u64, minimum_amount_out: u64) -> (res: Result<
    u64,
    SwapError,
>)
    ensures
        match swap_transition(
            old(ctx).pool@,
            old(ctx).token_in_mint,
            amount_in as nat,
            minimum_amount_out as nat,
            old(ctx).volatility as nat,
        ) {
            Ok((next, amount_out)) => {
                &&& res matches Ok(paid)
                &&& paid == amount_out
                &&& final(ctx).pool@ == next
            },
            Err(e) => res == Err::<u64, SwapError>(e) && *final(ctx) == *old(ctx),
        },
        *final(ctx) == (Swap { pool: final(ctx).pool, ..*old(ctx) }),
        res matches Ok(paid) ==> minimum_amount_out <= paid < reserve_out_of(
            old(ctx).pool@,
            old(ctx).token_in_mint,
        ),
        res is Ok ==> final(ctx).pool.reserve_a * final(ctx).pool.reserve_b
            >= old(ctx).pool.reserve_a * old(ctx).pool.reserve_b,
        res is Ok ==> !final(ctx).pool.is_locked,
        final(ctx).pool.last_update_slot == old(ctx).pool.last_update_slot,
        old(ctx).pool.wf() ==> final(ctx).pool.wf() && final(ctx).pool.history_len
            >= old(ctx).pool.history_len,
{
    instructions::swap::handler(ctx, amount_in, minimum_amount_out)
}

/// Deposits both assets. See `instructions::add_liquidity::handler`.
pub fn add_liquidity(
    ctx: &mut AddLiquidity,
    amount_a_desired: u64,
    amount_b_desired: u64,
    amount_a_min: u64,
    amount_b_min: u64,
) -> (res: Result<(u64, u64, u64), SwapError>)
    ensures
        match deposit_transition(
            old(ctx).pool@,
            old(ctx).lp_supply as nat,
            amount_a_desired as nat,
            amount_b_desired as nat,
            amount_a_min as nat,
            amount_b_min as nat,
        ) {
            Ok((next, (amount_a, amount_b, liquidity))) => {
                &&& res matches Ok(taken)
                &&& taken.0 == amount_a
                &&& taken.1 == amount_b
                &&& taken.2 == liquidity
                &&& final(ctx).pool@ == next
            },
            Err(e) => res == Err::<(u64, u64, u64), SwapError>(e) && *final(ctx) == *old(ctx),
        },
        *final(ctx) == (AddLiquidity { pool: final(ctx).pool, ..*old(ctx) }),
        final(ctx).pool.history_len == old(ctx).pool.history_len,
        final(ctx).pool.is_locked == old(ctx).pool.is_locked,
        res matches Ok(taken) ==> taken.0 <= amount_a_desired && taken.1 <= amount_b_desired
            && taken.2 > 0,
        old(ctx).pool.wf() ==> final(ctx).pool.wf(),
{
    instructions::add_liquidity::handler(
        ctx,
        amount_a_desired,
        amount_b_desired,
        amount_a_min,
        amount_b_min,
    )
}

/// Withdraws both assets. See `instructions::remove_liquidity::handler`.
pub fn remove_liquidity(
    ctx: &mut RemoveLiquidity,
    liquidity: u64,
    amount_a_min: u64,
    amount_b_min: u64,
) -> (res: Result<(u64, u64), SwapError>)
    ensures
        match withdrawal_transition(
            old(ctx).pool@,
            old(ctx).lp_supply as nat,
            old(ctx).user_lp_balance as nat,
            liquidity as nat,
            amount_a_min as nat,
            amount_b_min as nat,
        ) {
            Ok((next, (amount_a, amount_b))) => {
                &&& res matches Ok(paid)
                &&& paid.0 == amount_a
                &&& paid.1 == amount_b
                &&& final(ctx).pool@ == next
            },
            Err(e) => res == Err::<(u64, u64), SwapError>(e) && *final(ctx) == *old(ctx),
        },
        *final(ctx) == (RemoveLiquidity { pool: final(ctx).pool, ..*old(ctx) }),
        final(ctx).pool.history_len == old(ctx).pool.history_len,
        final(ctx).pool.is_locked == old(ctx).pool.is_locked,
        liquidity > old(ctx).user_lp_balance ==> res is Err && *final(ctx) == *old(ctx),
        res matches Ok(paid) ==> paid.0 <= old(ctx).pool.reserve_a
            && paid.1 <= old(ctx).pool.reserve_b,
        old(ctx).pool.wf() ==> final(ctx).pool.wf(),
{
    instructions::remove_liquidity::handler(ctx, liquidity, amount_a_min, amount_b_min)
}

/// Commits the adaptive fee. See `instructions::update_fees::handler`.
pub fn update_fees(ctx: &mut UpdateFees) -> (res: Result<Option<u16>, SwapError>)
    ensures
        match refresh_transition(old(ctx).pool@, old(ctx).slot as nat, old(ctx).volatility as nat) {
            Ok((next, committed)) => {
                &&& res matches Ok(fee)
                &&& match committed {
                    Some(bps) => fee == Some(bps as u16) && bps <= u16::MAX,
                    None => fee is None,
                }
                &&& final(ctx).pool@ == next
            },
            Err(e) => res == Err::<Option<u16>, SwapError>(e) && *final(ctx) == *old(ctx),
        },
        *final(ctx) == (UpdateFees { pool: final(ctx).pool, ..*old(ctx) }),
        final(ctx).pool.history_len == old(ctx).pool.history_len,
        final(ctx).pool.is_locked == old(ctx).pool.is_locked,
        res matches Ok(None) ==> *final(ctx) == *old(ctx),
        res matches Ok(Some(fee)) ==> final(ctx).pool.volatility_fee_bps == fee
            && final(ctx).pool.last_update_slot == old(ctx).slot,
        old(ctx).pool.wf() ==> final(ctx).pool.wf(),
{
    instructions::update_fees::handler(ctx)
}

} // verus!
