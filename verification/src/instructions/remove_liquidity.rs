//! Withdrawal of both assets from the pool against claim tokens that are burned.

use crate::error::SwapError;
use crate::instructions::add_liquidity::{deposit_transition, lemma_deposit_transition};
use crate::math::{lemma_floor_div, lemma_floor_div_is, mul_div};
use crate::state::{Asset, LiquidityPool, PoolView};
use vstd::prelude::*;

verus! {

/// What a withdrawal reads from its surroundings.
#[derive(Clone, Copy, Debug, PartialEq, Eq)]
pub struct RemoveLiquidity {
    pub pool: LiquidityPool,
    /// Claim tokens outstanding, as the ledger reports them. The ledger burns; the
    /// withdrawal only reads.
    pub lp_supply: u64,
    /// Claim tokens that the withdrawer holds.
    pub user_lp_balance: u64,
}

/// The share of `reserve` that `liquidity` claim tokens out of `supply` stand for,
/// rounded down, so that the rounding stays with the pool.
pub open spec fn share_of(liquidity: nat, reserve: nat, supply: nat) -> nat {
    liquidity * reserve / supply
}

/// What a withdrawal does: the pool after it with the amounts of A and B paid out,
/// or the reason for which it is refused. The conditions are tested in the order
/// written.
pub open spec fn withdrawal_transition(
    pool: PoolView,
    supply: nat,
    balance: nat,
    liquidity: nat,
    amount_a_min: nat,
    amount_b_min: nat,
) -> Result<(PoolView, (nat, nat)), SwapError> {
    if !pool.is_initialized {
        Err(SwapError::PoolNotInitialized)
    } else if liquidity == 0 {
        Err(SwapError::InsufficientLiquidityBurned)
    } else if supply == 0 {
        Err(SwapError::InsufficientLiquidity)
    } else if balance < liquidity {
        Err(SwapError::InsufficientLiquidityBurned)
    } else {
        let amount_a = share_of(liquidity, pool.reserve_a, supply);
        let amount_b = share_of(liquidity, pool.reserve_b, supply);
        if amount_a > u64::MAX || amount_b > u64::MAX {
            Err(SwapError::MathOverflow)
        } else if amount_a < amount_a_min {
            Err(SwapError::InsufficientAAmount)
        } else if amount_b < amount_b_min {
            Err(SwapError::InsufficientBAmount)
        } else if amount_a > pool.reserve_a || amount_b > pool.reserve_b {
            Err(SwapError::InsufficientLiquidity)
        } else {
            Ok(
                (
                    pool.with_reserve(Asset::A, (pool.reserve_a - amount_a) as nat).with_reserve(
                        Asset::B,
                        (pool.reserve_b - amount_b) as nat,
                    ),
                    (amount_a, amount_b),
                ),
            )
        }
    }
}

/// A share of a positive reserve is all of it for the whole supply, less than it
/// for less than the supply, and no less than it for more.
pub proof fn lemma_share_of(liquidity: nat, reserve: nat, supply: nat)
    requires
        supply > 0,
    ensures
        liquidity == supply ==> share_of(liquidity, reserve, supply) == reserve,
        liquidity < supply && reserve > 0 ==> share_of(liquidity, reserve, supply) < reserve,
        liquidity >= supply ==> share_of(liquidity, reserve, supply) >= reserve,
        reserve == 0 ==> share_of(liquidity, reserve, supply) == 0,
{
    let product = liquidity * reserve;
    let share = share_of(liquidity, reserve, supply);
    lemma_floor_div(product as int, supply as int);
    if reserve == 0 {
        assert(liquidity * reserve == 0) by (nonlinear_arith)
            requires
                reserve == 0,
        ;
    }
    if liquidity == supply {
        assert(supply * reserve == liquidity * reserve);
        lemma_floor_div_is(product as int, supply as int, reserve as int);
    }
    if liquidity < supply && reserve > 0 {
        assert(share < reserve) by (nonlinear_arith)
            requires
                supply * share <= liquidity * reserve,
                liquidity < supply,
                reserve > 0,
        ;
    }
    if liquidity >= supply {
        assert(share >= reserve) by (nonlinear_arith)
            requires
                liquidity * reserve < supply * share + supply,
                liquidity >= supply,
                supply > 0,
        ;
    }
}

/// A withdrawal pays out no more than the pool holds and no more than in
/// proportion to the claim tokens burned, and keeps a well-formed pool well formed:
/// it empties both reserves or neither.
pub proof fn lemma_withdrawal_transition(
    pool: PoolView,
    supply: nat,
    balance: nat,
    liquidity: nat,
    amount_a_min: nat,
    amount_b_min: nat,
)
    requires
        withdrawal_transition(pool, supply, balance, liquidity, amount_a_min, amount_b_min) is Ok,
    ensures
        ({
            let (next, (amount_a, amount_b)) = withdrawal_transition(
                pool,
                supply,
                balance,
                liquidity,
                amount_a_min,
                amount_b_min,
            )->Ok_0;
            &&& liquidity <= balance
            &&& amount_a_min <= amount_a <= pool.reserve_a
            &&& amount_b_min <= amount_b <= pool.reserve_b
            &&& next.reserve_a + amount_a == pool.reserve_a
            &&& next.reserve_b + amount_b == pool.reserve_b
            &&& amount_a * supply <= liquidity * pool.reserve_a
            &&& amount_b * supply <= liquidity * pool.reserve_b
            &&& pool.well_formed() ==> next.well_formed()
        }),
{
    lemma_share_of(liquidity, pool.reserve_a, supply);
    lemma_share_of(liquidity, pool.reserve_b, supply);
    lemma_floor_div((liquidity * pool.reserve_a) as int, supply as int);
    lemma_floor_div((liquidity * pool.reserve_b) as int, supply as int);
    let amount_a = share_of(liquidity, pool.reserve_a, supply);
    let amount_b = share_of(liquidity, pool.reserve_b, supply);
    assert(amount_a * supply == supply * amount_a && amount_b * supply == supply * amount_b)
        by (nonlinear_arith);
}

/// Depositing and then at once withdrawing exactly the claim tokens that the
/// deposit minted gives back no more of either asset than was deposited. The
/// supply that the withdrawal sees is the supply before the deposit plus what the
/// deposit minted, and the withdrawer holds at least what was minted.
pub proof fn lemma_deposit_then_withdraw(
    pool: LiquidityPool,
    supply: u64,
    amount_a_desired: u64,
    amount_b_desired: u64,
    amount_a_min: u64,
    amount_b_min: u64,
    balance: u64,
)
    requires
        deposit_transition(
            pool@,
            supply as nat,
            amount_a_desired as nat,
            amount_b_desired as nat,
            amount_a_min as nat,
            amount_b_min as nat,
        ) is Ok,
        balance >= deposit_transition(
            pool@,
            supply as nat,
            amount_a_desired as nat,
            amount_b_desired as nat,
            amount_a_min as nat,
            amount_b_min as nat,
        )->Ok_0.1.2,
    ensures
        ({
            let (after_deposit, (amount_a, amount_b, liquidity)) = deposit_transition(
                pool@,
                supply as nat,
                amount_a_desired as nat,
                amount_b_desired as nat,
                amount_a_min as nat,
                amount_b_min as nat,
            )->Ok_0;
            let back = withdrawal_transition(
                after_deposit,
                (supply + liquidity) as nat,
                balance as nat,
                liquidity,
                0,
                0,
            );
            &&& back is Ok
            &&& back->Ok_0.1.0 <= amount_a
            &&& back->Ok_0.1.1 <= amount_b
        }),
{
    let (after_deposit, (amount_a, amount_b, liquidity)) = deposit_transition(
        pool@,
        supply as nat,
        amount_a_desired as nat,
        amount_b_desired as nat,
        amount_a_min as nat,
        amount_b_min as nat,
    )->Ok_0;
    let reserve_a = pool@.reserve_a;
    let reserve_b = pool@.reserve_b;
    let before = supply as nat;
    if reserve_a == 0 && reserve_b == 0 {
        assert(liquidity * 0 <= amount_a * before && liquidity * 0 <= amount_b * before)
            by (nonlinear_arith);
    } else {
        lemma_deposit_transition(
            pool@,
            before,
            amount_a_desired as nat,
            amount_b_desired as nat,
            amount_a_min as nat,
            amount_b_min as nat,
        );
    }
    lemma_round_trip_share(liquidity, reserve_a, amount_a, before);
    lemma_round_trip_share(liquidity, reserve_b, amount_b, before);
}

/// If `liquidity` is worth no more than `amount` of a reserve at the old supply,
/// then its share of the reserve grown by `amount`, at the supply grown by
/// `liquidity`, is no more than `amount`.
proof fn lemma_round_trip_share(liquidity: nat, reserve: nat, amount: nat, supply: nat)
    requires
        liquidity > 0,
        liquidity * reserve <= amount * supply,
    ensures
        share_of(liquidity, reserve + amount, supply + liquidity) <= amount,
{
    let total = supply + liquidity;
    let share = share_of(liquidity, reserve + amount, total);
    lemma_floor_div((liquidity * (reserve + amount)) as int, total as int);
    assert(share <= amount) by (nonlinear_arith)
        requires
            total * share <= liquidity * (reserve + amount),
            liquidity * reserve <= amount * supply,
            total == supply + liquidity,
            liquidity > 0,
    {
        assert(liquidity * (reserve + amount) == liquidity * reserve + liquidity * amount);
        assert(total * amount == supply * amount + liquidity * amount);
        assert(total * share <= total * amount);
    }
}

/// Burns `liquidity` claim tokens of the withdrawer and returns the amounts of A
/// and B paid out for them, in this order. The caller burns the claim tokens and
/// moves the two amounts from the pool to the withdrawer.
///
/// The swap guard is neither tested nor taken here: withdrawals are not serialized
/// against a swap in flight. A refused withdrawal leaves `ctx` as it was; one that
/// asks for more claim tokens than the withdrawer holds is always refused.
pub fn handler(
    ctx: &mut RemoveLiquidity,
    liquidity: u64,
    amount_a_min: u64,
    amount_b_min: u64,
) -> (res: Result<(u64, u64), SwapError>)
    ensures
        match withdrawal_transition(
            old(ctx).pool@,
            old(ctx).lp_supply as nat,
            old(ctx).user_lp_balance as nat,
            liquidity as nat,
            amount_a_min as nat,
            amount_b_min as nat,
        ) {
            Ok((next, (amount_a, amount_b))) => {
                &&& res matches Ok(paid)
                &&& paid.0 == amount_a
                &&& paid.1 == amount_b
                &&& final(ctx).pool@ == next
            },
            Err(e) => res == Err::<(u64, u64), SwapError>(e) && *final(ctx) == *old(ctx),
        },
        *final(ctx) == (RemoveLiquidity { pool: final(ctx).pool, ..*old(ctx) }),
        final(ctx).pool.history_len == old(ctx).pool.history_len,
        final(ctx).pool.is_locked == old(ctx).pool.is_locked,
        liquidity > old(ctx).user_lp_balance ==> res is Err && *final(ctx) == *old(ctx),
        res matches Ok(paid) ==> paid.0 <= old(ctx).pool.reserve_a
            && paid.1 <= old(ctx).pool.reserve_b,
        old(ctx).pool.wf() ==> final(ctx).pool.wf(),
{
    if !ctx.pool.is_initialized {
        return Err(SwapError::PoolNotInitialized);
    }
    if liquidity == 0 {
        return Err(SwapError::InsufficientLiquidityBurned);
    }
    let total_supply: u64 = ctx.lp_supply;
    if total_supply == 0 {
        return Err(SwapError::InsufficientLiquidity);
    }
    if ctx.user_lp_balance < liquidity {
        return Err(SwapError::InsufficientLiquidityBurned);
    }
    let amount_a: u64 = mul_div(liquidity, ctx.pool.reserve_a, total_supply as u128)?;
    let amount_b: u64 = mul_div(liquidity, ctx.pool.reserve_b, total_supply as u128)?;
    if amount_a < amount_a_min {
        return Err(SwapError::InsufficientAAmount);
    }
    if amount_b < amount_b_min {
        return Err(SwapError::InsufficientBAmount);
    }
    if !(amount_a <= ctx.pool.reserve_a && amount_b <= ctx.pool.reserve_b) {
        return Err(SwapError::InsufficientLiquidity);
    }
    // Both reserves are lowered on a copy and stored back together.
    let mut next: LiquidityPool = ctx.pool;
    next.decrease(Asset::A, amount_a)?;
    next.decrease(Asset::B, amount_b)?;
    proof {
        lemma_withdrawal_transition(
            ctx.pool@,
            ctx.lp_supply as nat,
            ctx.user_lp_balance as nat,
            liquidity as nat,
            amount_a_min as nat,
            amount_b_min as nat,
        );
    }
    ctx.pool = next;
    Ok((amount_a, amount_b))
}

} // verus!
