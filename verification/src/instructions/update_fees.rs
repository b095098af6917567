//! Rate-limited commit of the adaptive fee to the pool record.

use crate::error::SwapError;
use crate::state::{lemma_adaptive_fee_bounds, LiquidityPool, PoolView};
use vstd::prelude::*;

verus! {

/// Time-steps that must have passed since the last fee refresh, or since the pool
/// was created, before a fee can be committed. Nothing else moves that time.
pub const FEE_REFRESH_INTERVAL: u64 = 100;

/// What a fee refresh reads from its surroundings.
#[derive(Clone, Copy, Debug, PartialEq, Eq)]
pub struct UpdateFees {
    pub pool: LiquidityPool,
    /// The current time-step.
    pub slot: u64,
    /// Volatility measured on the pool's price history, in units of
    /// `VOLATILITY_SCALE`.
    pub volatility: u64,
}

/// What a fee refresh does: the pool after it with the fee that was committed, if
/// one was, or the reason for which it is refused. A refresh that comes before
/// `FEE_REFRESH_INTERVAL` time-steps have passed is refused; one that finds the
/// fee unchanged commits nothing.
pub open spec fn refresh_transition(pool: PoolView, slot: nat, volatility: nat) -> Result<
    (PoolView, Option<nat>),
    SwapError,
> {
    if !pool.is_initialized {
        Err(SwapError::PoolNotInitialized)
    } else if slot < pool.last_update_slot + FEE_REFRESH_INTERVAL {
        Err(SwapError::InvalidAuthority)
    } else {
        let new_fee = pool.effective_fee(volatility);
        if new_fee != pool.volatility_fee_bps {
            Ok(
                (
                    PoolView { volatility_fee_bps: new_fee, last_update_slot: slot, ..pool },
                    Some(new_fee),
                ),
            )
        } else {
            Ok((pool, None))
        }
    }
}

/// Whether a refresh commits a fee.
pub open spec fn refresh_commits(pool: PoolView, slot: nat, volatility: nat) -> bool {
    refresh_transition(pool, slot, volatility) matches Ok((_, Some(_)))
}

/// The pool after a refresh, refused or not.
pub open spec fn pool_after_refresh(pool: PoolView, slot: nat, volatility: nat) -> PoolView {
    match refresh_transition(pool, slot, volatility) {
        Ok((next, _)) => next,
        Err(_) => pool,
    }
}

/// Of two refreshes in a row, the second one changes nothing if it comes fewer than
/// `FEE_REFRESH_INTERVAL` time-steps after the first, whatever the volatility has
/// become. This holds where the first refresh committed a fee, which is when the
/// pool takes note of its time; where it did not, the second refresh meets the
/// pool as the first one did.
pub proof fn lemma_refresh_rate_limited(
    pool: LiquidityPool,
    first_slot: u64,
    first_volatility: u64,
    second_slot: u64,
    second_volatility: u64,
)
    requires
        second_slot < first_slot + FEE_REFRESH_INTERVAL,
        refresh_commits(pool@, first_slot as nat, first_volatility as nat) || !refresh_commits(
            pool@,
            second_slot as nat,
            second_volatility as nat,
        ),
    ensures
        pool_after_refresh(
            pool_after_refresh(pool@, first_slot as nat, first_volatility as nat),
            second_slot as nat,
            second_volatility as nat,
        ) == pool_after_refresh(pool@, first_slot as nat, first_volatility as nat),
        refresh_commits(pool@, first_slot as nat, first_volatility as nat) ==> refresh_transition(
            pool_after_refresh(pool@, first_slot as nat, first_volatility as nat),
            second_slot as nat,
            second_volatility as nat,
        ) == Err::<(PoolView, Option<nat>), SwapError>(SwapError::InvalidAuthority),
{
}

/// Commits the adaptive fee to the pool record and returns it, or returns `None`
/// where the fee on record is already the adaptive fee. A refused refresh leaves
/// `ctx` as it was.
pub fn handler(ctx: &mut UpdateFees) -> (res: Result<Option<u16>, SwapError>)
    ensures
        match refresh_transition(old(ctx).pool@, old(ctx).slot as nat, old(ctx).volatility as nat) {
            Ok((next, committed)) => {
                &&& res matches Ok(fee)
                &&& match committed {
                    Some(bps) => fee == Some(bps as u16) && bps <= u16::MAX,
                    None => fee is None,
                }
                &&& final(ctx).pool@ == next
            },
            Err(e) => res == Err::<Option<u16>, SwapError>(e) && *final(ctx) == *old(ctx),
        },
        *final(ctx) == (UpdateFees { pool: final(ctx).pool, ..*old(ctx) }),
        final(ctx).pool.history_len == old(ctx).pool.history_len,
        final(ctx).pool.is_locked == old(ctx).pool.is_locked,
        res matches Ok(None) ==> *final(ctx) == *old(ctx),
        res matches Ok(Some(fee)) ==> final(ctx).pool.volatility_fee_bps == fee
            && final(ctx).pool.last_update_slot == old(ctx).slot,
        old(ctx).pool.wf() ==> final(ctx).pool.wf(),
{
    if !ctx.pool.is_initialized {
        return Err(SwapError::PoolNotInitialized);
    }
    let current_slot: u64 = ctx.slot;
    // Written as a difference, so that a late `last_update_slot` cannot overflow.
    if current_slot < ctx.pool.last_update_slot || current_slot - ctx.pool.last_update_slot
        < FEE_REFRESH_INTERVAL {
        return Err(SwapError::InvalidAuthority);
    }
    let new_fee: u16 = ctx.pool.calculate_adaptive_fee(ctx.volatility);
    if new_fee != ctx.pool.volatility_fee_bps {
        proof {
            if ctx.pool.wf() {
                lemma_adaptive_fee_bounds(
                    ctx.pool@.base_fee_bps,
                    ctx.pool@.history_len,
                    ctx.volatility as nat,
                );
            }
        }
        ctx.pool.volatility_fee_bps = new_fee;
        ctx.pool.last_update_slot = current_slot;
        Ok(Some(new_fee))
    } else {
        Ok(None)
    }
}

} // verus!
