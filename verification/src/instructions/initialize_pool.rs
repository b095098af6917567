//! Creation of a pool for a pair of assets.

use crate::error::SwapError;
use crate::state::{
    same_key, LiquidityPool, PoolView, MAX_FEE_BPS, MIN_FEE_TIER_BPS, PRICE_HISTORY_LEN,
};
use anchor_lang::prelude::Pubkey;
use vstd::prelude::*;

verus! {

/// What the creation of a pool reads from its surroundings.
#[derive(Clone, Copy, Debug, PartialEq, Eq)]
pub struct InitializePool {
    /// The record that was allocated for the pool.
    pub pool: LiquidityPool,
    pub authority: Pubkey,
    pub token_a_mint: Pubkey,
    pub token_b_mint: Pubkey,
    pub token_a_vault: Pubkey,
    pub token_b_vault: Pubkey,
    pub lp_mint: Pubkey,
    /// Bump seed of the pool's address.
    pub bump: u8,
    /// The current time-step.
    pub slot: u64,
    /// The current time, in seconds.
    pub unix_timestamp: i64,
}

/// The pool as it is created: no reserves, no fee committed, no price recorded,
/// not locked.
pub open spec fn created_pool(ctx: InitializePool, fee_tier: nat) -> PoolView {
    PoolView {
        authority: ctx.authority,
        token_a_mint: ctx.token_a_mint,
        token_b_mint: ctx.token_b_mint,
        token_a_vault: ctx.token_a_vault,
        token_b_vault: ctx.token_b_vault,
        lp_mint: ctx.lp_mint,
        reserve_a: 0,
        reserve_b: 0,
        base_fee_bps: fee_tier,
        volatility_fee_bps: 0,
        last_price: 0,
        last_update_slot: ctx.slot as nat,
        price_history: Seq::new(PRICE_HISTORY_LEN as nat, |i: int| 0nat),
        history_index: 0,
        history_len: 0,
        total_volume_usd: 0,
        total_fees_collected: 0,
        created_at: ctx.unix_timestamp as int,
        is_initialized: true,
        is_locked: false,
        bump: ctx.bump as nat,
    }
}

/// What the creation of a pool does: the pool created, or the reason for which it
/// is refused. The conditions are tested in the order written.
pub open spec fn create_transition(ctx: InitializePool, fee_tier: nat) -> Result<
    PoolView,
    SwapError,
> {
    if ctx.pool.is_initialized {
        Err(SwapError::PoolAlreadyInitialized)
    } else if fee_tier < MIN_FEE_TIER_BPS || fee_tier > MAX_FEE_BPS {
        Err(SwapError::InvalidFeeTier)
    } else if ctx.token_a_mint == ctx.token_b_mint {
        Err(SwapError::IdenticalAddresses)
    } else {
        Ok(created_pool(ctx, fee_tier))
    }
}

/// Fills `ctx.pool` with a new pool of fee tier `fee_tier` for the two assets. A
/// record that holds a pool already is not created again. A refused creation
/// leaves `ctx` as it was.
pub fn handler(ctx: &mut InitializePool, fee_tier: u16) -> (res: Result<(), SwapError>)
    ensures
        match create_transition(*old(ctx), fee_tier as nat) {
            Ok(pool) => res is Ok && final(ctx).pool@ == pool && final(ctx).pool.wf(),
            Err(e) => res == Err::<(), SwapError>(e) && *final(ctx) == *old(ctx),
        },
        *final(ctx) == (InitializePool { pool: final(ctx).pool, ..*old(ctx) }),
{
    if ctx.pool.is_initialized {
        return Err(SwapError::PoolAlreadyInitialized);
    }
    if !(fee_tier >= MIN_FEE_TIER_BPS && fee_tier <= MAX_FEE_BPS) {
        return Err(SwapError::InvalidFeeTier);
    }
    if same_key(&ctx.token_a_mint, &ctx.token_b_mint) {
        return Err(SwapError::IdenticalAddresses);
    }
    let pool = LiquidityPool {
        authority: ctx.authority,
        token_a_mint: ctx.token_a_mint,
        token_b_mint: ctx.token_b_mint,
        token_a_vault: ctx.token_a_vault,
        token_b_vault: ctx.token_b_vault,
        lp_mint: ctx.lp_mint,
        reserve_a: 0,
        reserve_b: 0,
        base_fee_bps: fee_tier,
        volatility_fee_bps: 0,
        last_price: 0,
        last_update_slot: ctx.slot,
        price_history: [0; 50],
        history_index: 0,
        history_len: 0,
        total_volume_usd: 0,
        total_fees_collected: 0,
        created_at: ctx.unix_timestamp,
        is_initialized: true,
        is_locked: false,
        bump: ctx.bump,
    };
    assert(pool@.price_history =~= Seq::new(PRICE_HISTORY_LEN as nat, |i: int| 0nat));
    ctx.pool = pool;
    Ok(())
}

} // verus!
