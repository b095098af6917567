//! Deposit of both assets into the pool against newly minted claim tokens.

use crate::error::SwapError;
use crate::math::{
    floor_sqrt, integer_sqrt, lemma_floor_div, lemma_product_fits, mul_div, narrow, wide_mul_div,
};
use crate::state::{Asset, LiquidityPool, PoolView};
use vstd::prelude::*;

verus! {

/// Claim tokens withheld from the first deposit and never credited to anyone.
pub const MINIMUM_LIQUIDITY: u64 = 1000;

/// What a deposit reads from its surroundings.
#[derive(Clone, Copy, Debug, PartialEq, Eq)]
pub struct AddLiquidity {
    pub pool: LiquidityPool,
    /// Claim tokens outstanding, as the ledger reports them. The ledger mints; the
    /// deposit only reads.
    pub lp_supply: u64,
}

/// The amount of the other asset that matches `amount` at the price the reserves
/// stand at, rounded down.
pub open spec fn quoted(amount: nat, reserve: nat, other_reserve: nat) -> Result<nat, SwapError> {
    if amount == 0 {
        Err(SwapError::InsufficientAmount)
    } else if reserve == 0 || other_reserve == 0 {
        Err(SwapError::InsufficientLiquidity)
    } else if amount * other_reserve / reserve > u64::MAX {
        Err(SwapError::MathOverflow)
    } else {
        Ok(amount * other_reserve / reserve)
    }
}

/// Claim tokens for the first deposit into an empty pool: the rounded-down square
/// root of the product of the two amounts, less `MINIMUM_LIQUIDITY`. What is left
/// must be positive.
pub open spec fn first_liquidity(amount_a: nat, amount_b: nat) -> Result<nat, SwapError> {
    let root = floor_sqrt(amount_a * amount_b);
    if root <= MINIMUM_LIQUIDITY {
        Err(SwapError::InsufficientLiquidity)
    } else {
        Ok((root - MINIMUM_LIQUIDITY) as nat)
    }
}

/// The amounts taken by a deposit into a pool that is not empty. All of A is taken
/// if the B that matches it is within what was offered; else all of B is taken with
/// the A that matches it.
pub open spec fn balanced_amounts(
    reserve_a: nat,
    reserve_b: nat,
    amount_a_desired: nat,
    amount_b_desired: nat,
    amount_a_min: nat,
    amount_b_min: nat,
) -> Result<(nat, nat), SwapError> {
    match quoted(amount_a_desired, reserve_a, reserve_b) {
        Err(e) => Err(e),
        Ok(amount_b_optimal) => if amount_b_optimal <= amount_b_desired {
            if amount_b_optimal < amount_b_min {
                Err(SwapError::InsufficientBAmount)
            } else {
                Ok((amount_a_desired, amount_b_optimal))
            }
        } else {
            match quoted(amount_b_desired, reserve_b, reserve_a) {
                Err(e) => Err(e),
                Ok(amount_a_optimal) => if amount_a_optimal > amount_a_desired {
                    Err(SwapError::InsufficientAmount)
                } else if amount_a_optimal < amount_a_min {
                    Err(SwapError::InsufficientAAmount)
                } else {
                    Ok((amount_a_optimal, amount_b_desired))
                },
            }
        },
    }
}

/// Claim tokens for a deposit into a pool that is not empty: the smaller of the
/// two shares that the amounts are of the reserves, applied to the supply and
/// rounded down. It must be positive.
pub open spec fn minted_liquidity(
    amount_a: nat,
    amount_b: nat,
    reserve_a: nat,
    reserve_b: nat,
    supply: nat,
) -> Result<nat, SwapError> {
    let by_a = amount_a * supply / reserve_a;
    let by_b = amount_b * supply / reserve_b;
    let liquidity = if by_a <= by_b { by_a } else { by_b };
    if liquidity > u64::MAX {
        Err(SwapError::MathOverflow)
    } else if liquidity == 0 {
        Err(SwapError::InsufficientLiquidityBurned)
    } else {
        Ok(liquidity)
    }
}

/// The amounts of A and B that a deposit takes and the claim tokens it mints.
pub open spec fn deposit_amounts(
    reserve_a: nat,
    reserve_b: nat,
    supply: nat,
    amount_a_desired: nat,
    amount_b_desired: nat,
    amount_a_min: nat,
    amount_b_min: nat,
) -> Result<(nat, nat, nat), SwapError> {
    if reserve_a == 0 && reserve_b == 0 {
        match first_liquidity(amount_a_desired, amount_b_desired) {
            Err(e) => Err(e),
            Ok(liquidity) => Ok((amount_a_desired, amount_b_desired, liquidity)),
        }
    } else {
        match balanced_amounts(
            reserve_a,
            reserve_b,
            amount_a_desired,
            amount_b_desired,
            amount_a_min,
            amount_b_min,
        ) {
            Err(e) => Err(e),
            Ok((amount_a, amount_b)) => match minted_liquidity(
                amount_a,
                amount_b,
                reserve_a,
                reserve_b,
                supply,
            ) {
                Err(e) => Err(e),
                Ok(liquidity) => Ok((amount_a, amount_b, liquidity)),
            },
        }
    }
}

/// What a deposit does: the pool after it with the amounts taken and the claim
/// tokens minted, or the reason for which it is refused. The conditions are tested
/// in the order written.
pub open spec fn deposit_transition(
    pool: PoolView,
    supply: nat,
    amount_a_desired: nat,
    amount_b_desired: nat,
    amount_a_min: nat,
    amount_b_min: nat,
) -> Result<(PoolView, (nat, nat, nat)), SwapError> {
    if !pool.is_initialized {
        Err(SwapError::PoolNotInitialized)
    } else if amount_a_desired == 0 || amount_b_desired == 0 {
        Err(SwapError::InsufficientAmount)
    } else {
        match deposit_amounts(
            pool.reserve_a,
            pool.reserve_b,
            supply,
            amount_a_desired,
            amount_b_desired,
            amount_a_min,
            amount_b_min,
        ) {
            Err(e) => Err(e),
            Ok((amount_a, amount_b, liquidity)) => if pool.reserve_a + amount_a > u64::MAX
                || pool.reserve_b + amount_b > u64::MAX {
                Err(SwapError::MathOverflow)
            } else {
                Ok(
                    (
                        pool.with_reserve(Asset::A, pool.reserve_a + amount_a).with_reserve(
                            Asset::B,
                            pool.reserve_b + amount_b,
                        ),
                        (amount_a, amount_b, liquidity),
                    ),
                )
            },
        }
    }
}

/// A deposit takes no more than was offered, mints a positive amount that is no
/// more than in proportion to either amount taken, and keeps a well-formed pool
/// well formed.
pub proof fn lemma_deposit_transition(
    pool: PoolView,
    supply: nat,
    amount_a_desired: nat,
    amount_b_desired: nat,
    amount_a_min: nat,
    amount_b_min: nat,
)
    requires
        deposit_transition(
            pool,
            supply,
            amount_a_desired,
            amount_b_desired,
            amount_a_min,
            amount_b_min,
        ) is Ok,
    ensures
        ({
            let (next, (amount_a, amount_b, liquidity)) = deposit_transition(
                pool,
                supply,
                amount_a_desired,
                amount_b_desired,
                amount_a_min,
                amount_b_min,
            )->Ok_0;
            &&& amount_a <= amount_a_desired
            &&& amount_b <= amount_b_desired
            &&& liquidity > 0
            &&& next.reserve_a == pool.reserve_a + amount_a
            &&& next.reserve_b == pool.reserve_b + amount_b
            &&& pool.reserve_a > 0 || pool.reserve_b > 0 ==> {
                &&& liquidity * pool.reserve_a <= amount_a * supply
                &&& liquidity * pool.reserve_b <= amount_b * supply
            }
            &&& pool.well_formed() ==> next.well_formed() && next.reserve_a > 0
        }),
{
    let (_, (amount_a, amount_b, liquidity)) = deposit_transition(
        pool,
        supply,
        amount_a_desired,
        amount_b_desired,
        amount_a_min,
        amount_b_min,
    )->Ok_0;
    if pool.reserve_a > 0 || pool.reserve_b > 0 {
        let by_a = amount_a * supply / pool.reserve_a;
        let by_b = amount_b * supply / pool.reserve_b;
        lemma_floor_div((amount_a * supply) as int, pool.reserve_a as int);
        lemma_floor_div((amount_b * supply) as int, pool.reserve_b as int);
        assert(liquidity * pool.reserve_a <= amount_a * supply) by (nonlinear_arith)
            requires
                pool.reserve_a * by_a <= amount_a * supply,
                liquidity <= by_a,
                pool.reserve_a > 0,
        ;
        assert(liquidity * pool.reserve_b <= amount_b * supply) by (nonlinear_arith)
            requires
                pool.reserve_b * by_b <= amount_b * supply,
                liquidity <= by_b,
                pool.reserve_b > 0,
        ;
    }
}

/// The amount of the other asset that matches `amount_a` at the price the reserves
/// stand at.
pub fn quote(amount_a: u64, reserve_a: u64, reserve_b: u64) -> (res: Result<u64, SwapError>)
    ensures
        match quoted(amount_a as nat, reserve_a as nat, reserve_b as nat) {
            Ok(amount_b) => res == Ok::<u64, SwapError>(amount_b as u64),
            Err(e) => res == Err::<u64, SwapError>(e),
        },
{
    if amount_a == 0 {
        return Err(SwapError::InsufficientAmount);
    }
    if !(reserve_a > 0 && reserve_b > 0) {
        return Err(SwapError::InsufficientLiquidity);
    }
    mul_div(amount_a, reserve_b, reserve_a as u128)
}

/// Deposits up to the desired amounts of A and B and returns the amounts taken and
/// the claim tokens to mint, in this order. The caller moves the two amounts from
/// the depositor to the pool and mints the claim tokens to the depositor.
///
/// The swap guard is neither tested nor taken here: deposits are not serialized
/// against a swap in flight. A refused deposit leaves `ctx` as it was.
pub fn handler(
    ctx: &mut AddLiquidity,
    amount_a_desired: u64,
    amount_b_desired: u64,
    amount_a_min: u64,
    amount_b_min: u64,
) -> (res: Result<(u64, u64, u64), SwapError>)
    ensures
        match deposit_transition(
            old(ctx).pool@,
            old(ctx).lp_supply as nat,
            amount_a_desired as nat,
            amount_b_desired as nat,
            amount_a_min as nat,
            amount_b_min as nat,
        ) {
            Ok((next, (amount_a, amount_b, liquidity))) => {
                &&& res matches Ok(taken)
                &&& taken.0 == amount_a
                &&& taken.1 == amount_b
                &&& taken.2 == liquidity
                &&& final(ctx).pool@ == next
            },
            Err(e) => res == Err::<(u64, u64, u64), SwapError>(e) && *final(ctx) == *old(ctx),
        },
        *final(ctx) == (AddLiquidity { pool: final(ctx).pool, ..*old(ctx) }),
        final(ctx).pool.history_len == old(ctx).pool.history_len,
        final(ctx).pool.is_locked == old(ctx).pool.is_locked,
        res matches Ok(taken) ==> taken.0 <= amount_a_desired && taken.1 <= amount_b_desired
            && taken.2 > 0,
        old(ctx).pool.wf() ==> final(ctx).pool.wf(),
{
    if !ctx.pool.is_initialized {
        return Err(SwapError::PoolNotInitialized);
    }
    if !(amount_a_desired > 0 && amount_b_desired > 0) {
        return Err(SwapError::InsufficientAmount);
    }
    let reserve_a: u64 = ctx.pool.reserve_a;
    let reserve_b: u64 = ctx.pool.reserve_b;

    let (amount_a, amount_b, liquidity): (u64, u64, u64) = if reserve_a == 0 && reserve_b == 0 {
        // First deposit: the amounts are taken as given.
        proof {
            lemma_product_fits(amount_a_desired, amount_b_desired);
        }
        let product: u128 = (amount_a_desired as u128).checked_mul(amount_b_desired as u128).ok_or(
            SwapError::MathOverflow,
        )?;
        let sqrt_product: u64 = integer_sqrt(product);
        if sqrt_product <= MINIMUM_LIQUIDITY {
            return Err(SwapError::InsufficientLiquidity);
        }
        (amount_a_desired, amount_b_desired, sqrt_product - MINIMUM_LIQUIDITY)
    } else {
        let amount_b_optimal: u64 = quote(amount_a_desired, reserve_a, reserve_b)?;
        let (amount_a_final, amount_b_final): (u64, u64) = if amount_b_optimal
            <= amount_b_desired {
            if amount_b_optimal < amount_b_min {
                return Err(SwapError::InsufficientBAmount);
            }
            (amount_a_desired, amount_b_optimal)
        } else {
            let amount_a_optimal: u64 = quote(amount_b_desired, reserve_b, reserve_a)?;
            if amount_a_optimal > amount_a_desired {
                return Err(SwapError::InsufficientAmount);
            }
            if amount_a_optimal < amount_a_min {
                return Err(SwapError::InsufficientAAmount);
            }
            (amount_a_optimal, amount_b_desired)
        };
        let total_supply: u64 = ctx.lp_supply;
        let liquidity_a: u128 = wide_mul_div(amount_a_final, total_supply, reserve_a as u128)?;
        let liquidity_b: u128 = wide_mul_div(amount_b_final, total_supply, reserve_b as u128)?;
        let smaller: u128 = if liquidity_a <= liquidity_b { liquidity_a } else { liquidity_b };
        let liquidity_to_mint: u64 = narrow(smaller)?;
        if liquidity_to_mint == 0 {
            return Err(SwapError::InsufficientLiquidityBurned);
        }
        (amount_a_final, amount_b_final, liquidity_to_mint)
    };

    // Both reserves are raised on a copy, so that an overflow of the second leaves
    // the first as it was.
    let mut next: LiquidityPool = ctx.pool;
    next.increase(Asset::A, amount_a)?;
    next.increase(Asset::B, amount_b)?;
    proof {
        lemma_deposit_transition(
            ctx.pool@,
            ctx.lp_supply as nat,
            amount_a_desired as nat,
            amount_b_desired as nat,
            amount_a_min as nat,
            amount_b_min as nat,
        );
    }
    ctx.pool = next;
    Ok((amount_a, amount_b, liquidity))
}

} // verus!
