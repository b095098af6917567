//! The outcomes with which a pool operation can be refused.

use vstd::prelude::*;

verus! {

/// Why a pool operation was refused. Every refusal leaves the pool unchanged.
#[derive(Clone, Copy, Debug, PartialEq, Eq, Structural)]
pub enum SwapError {
    PoolNotInitialized,
    InsufficientLiquidity,
    SlippageExceeded,
    InvalidTokenMint,
    InsufficientAmount,
    MathOverflow,
    IdenticalAddresses,
    InsufficientAAmount,
    InsufficientBAmount,
    InsufficientLiquidityBurned,
    InvalidAuthority,
    PoolAlreadyInitialized,
    InvalidFeeTier,
    /// A swap was started while another one held the pool.
    PoolLocked,
}

} // verus!
