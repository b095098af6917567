//! Integer arithmetic of the pool: products taken in 128 bits, quotients rounded
//! down, and an integer square root.

use crate::error::SwapError;
use vstd::prelude::*;

verus! {

/// `r` is the square root of `n`, rounded down.
pub open spec fn is_floor_sqrt(n: nat, r: nat) -> bool {
    r * r <= n < (r + 1) * (r + 1)
}

/// The square root of `n`, rounded down.
pub open spec fn floor_sqrt(n: nat) -> nat {
    choose|r: nat| is_floor_sqrt(n, r)
}

/// A number has at most one rounded-down square root.
pub proof fn lemma_floor_sqrt_unique(n: nat, r1: nat, r2: nat)
    requires
        is_floor_sqrt(n, r1),
        is_floor_sqrt(n, r2),
    ensures
        r1 == r2,
{
    assert(r1 == r2) by (nonlinear_arith)
        requires
            r1 * r1 <= n,
            n < (r1 + 1) * (r1 + 1),
            r2 * r2 <= n,
            n < (r2 + 1) * (r2 + 1),
    ;
}

/// Whatever satisfies `is_floor_sqrt` is `floor_sqrt`.
pub proof fn lemma_floor_sqrt_is(n: nat, r: nat)
    requires
        is_floor_sqrt(n, r),
    ensures
        floor_sqrt(n) == r,
{
    lemma_floor_sqrt_unique(n, r, floor_sqrt(n));
}

/// A quotient rounded down: `d * (x / d) <= x < d * (x / d) + d`.
pub proof fn lemma_floor_div(x: int, d: int)
    requires
        0 <= x,
        0 < d,
    ensures
        0 <= x / d,
        d * (x / d) <= x,
        x < d * (x / d) + d,
{
    assert(0 <= x / d && d * (x / d) <= x && x < d * (x / d) + d) by (nonlinear_arith)
        requires
            0 <= x,
            0 < d,
    ;
}

/// `x / d` is the only `q` with `d * q <= x < d * q + d`.
pub proof fn lemma_floor_div_is(x: int, d: int, q: int)
    requires
        0 < d,
        d * q <= x,
        x < d * q + d,
    ensures
        x / d == q,
{
    assert(d * q == q * d) by (nonlinear_arith);
    vstd::arithmetic::div_mod::lemma_fundamental_div_mod_converse_div(x, d, q, x - q * d);
}

/// The product of two 64-bit numbers fits in 128 bits.
pub proof fn lemma_product_fits(a: u64, b: u64)
    ensures
        0 <= a * b <= 0xffff_ffff_ffff_fffe_0000_0000_0000_0001,
        a * b <= u128::MAX,
{
    assert(0 <= a * b <= 0xffff_ffff_ffff_fffe_0000_0000_0000_0001) by (nonlinear_arith)
        requires
            0 <= a <= 0xffff_ffff_ffff_ffff,
            0 <= b <= 0xffff_ffff_ffff_ffff,
    ;
}

/// `a * b / d`, rounded down, in 128 bits: the product is exact and the quotient
/// always fits. Only a zero divisor fails.
pub fn wide_mul_div(a: u64, b: u64, d: u128) -> (res: Result<u128, SwapError>)
    ensures
        match res {
            Ok(q) => d > 0 && q == a * b / (d as int),
            Err(e) => e == SwapError::MathOverflow && d == 0,
        },
{
    proof {
        lemma_product_fits(a, b);
    }
    let product: u128 = (a as u128).checked_mul(b as u128).ok_or(SwapError::MathOverflow)?;
    product.checked_div(d).ok_or(SwapError::MathOverflow)
}

/// Narrows a 128-bit quantity to 64 bits; one that does not fit is an overflow.
pub fn narrow(x: u128) -> (res: Result<u64, SwapError>)
    ensures
        match res {
            Ok(v) => v == x,
            Err(e) => e == SwapError::MathOverflow && x > u64::MAX,
        },
{
    if x > u64::MAX as u128 {
        return Err(SwapError::MathOverflow);
    }
    Ok(x as u64)
}

/// `a * b / d`, rounded down, as a 64-bit quantity. A quotient that does not fit in
/// 64 bits is an overflow, and so is a zero divisor.
pub fn mul_div(a: u64, b: u64, d: u128) -> (res: Result<u64, SwapError>)
    ensures
        match res {
            Ok(q) => d > 0 && q == a * b / (d as int),
            Err(e) => e == SwapError::MathOverflow && (d == 0 || a * b / (d as int) > u64::MAX),
        },
{
    narrow(wide_mul_div(a, b, d)?)
}

/// One step of Newton's iteration from any positive `x` lands on or above the root.
proof fn lemma_newton_step(n: nat, x: nat, y: nat)
    requires
        x >= 1,
        y == (x + n / x) / 2,
    ensures
        n < (y + 1) * (y + 1),
{
    let q = n / x;
    lemma_floor_div(n as int, x as int);
    assert(n < (y + 1) * (y + 1)) by (nonlinear_arith)
        requires
            x >= 1,
            q >= 0,
            n < x * q + x,
            2 * (y + 1) >= x + q + 1,
    {
        assert(4 * (x * (q + 1)) <= (x + q + 1) * (x + q + 1)) by {
            assert((x + q + 1) * (x + q + 1) - 4 * (x * (q + 1)) == (x - (q + 1)) * (x - (q + 1)));
            assert((x - (q + 1)) * (x - (q + 1)) >= 0);
        }
        assert((x + q + 1) * (x + q + 1) <= (2 * (y + 1)) * (2 * (y + 1)));
        assert(x * q + x == x * (q + 1));
    }
}

/// Where the iteration stops, `x` is on or below the root.
proof fn lemma_newton_stop(n: nat, x: nat)
    requires
        x >= 1,
        (x + n / x) / 2 >= x,
    ensures
        x * x <= n,
{
    let q = n / x;
    lemma_floor_div(n as int, x as int);
    assert(x * x <= n) by (nonlinear_arith)
        requires
            x >= 1,
            q >= x,
            x * q <= n,
    ;
}

/// Between `1` and `n`, `y + n / y` stays within `n + 1`.
proof fn lemma_newton_sum_bound(n: nat, y: nat)
    requires
        1 <= y <= n,
    ensures
        y + n / y <= n + 1,
{
    let q = n / y;
    lemma_floor_div(n as int, y as int);
    assert(y + q <= n + 1) by (nonlinear_arith)
        requires
            1 <= y <= n,
            y * q <= n,
            q >= 0,
    {
        if q >= 1 {
            assert((y - 1) * (q - 1) >= 0);
            assert((y - 1) * (q - 1) == y * q - y - q + 1);
        }
    }
}

/// A root of a 128-bit number fits in 64 bits.
proof fn lemma_root_fits(n: nat, x: nat)
    requires
        x * x <= n,
        n <= u128::MAX,
    ensures
        x <= u64::MAX,
{
    assert(x <= 0xffff_ffff_ffff_ffff) by (nonlinear_arith)
        requires
            x * x <= n,
            n <= 0xffff_ffff_ffff_ffff_ffff_ffff_ffff_ffff,
    ;
}

/// The square root of `n`, rounded down, by Newton's iteration from above.
pub fn integer_sqrt(n: u128) -> (root: u64)
    ensures
        is_floor_sqrt(n as nat, root as nat),
        root == floor_sqrt(n as nat),
{
    if n == 0 {
        proof {
            assert(is_floor_sqrt(0, 0)) by (nonlinear_arith);
            lemma_floor_sqrt_is(0, 0);
        }
        return 0;
    }
    if n == u128::MAX {
        // The first step of the iteration below would need `n + 1`.
        proof {
            assert(is_floor_sqrt(
                0xffff_ffff_ffff_ffff_ffff_ffff_ffff_ffff,
                0xffff_ffff_ffff_ffff,
            )) by (nonlinear_arith);
            lemma_floor_sqrt_is(n as nat, u64::MAX as nat);
        }
        return u64::MAX;
    }
    let mut x: u128 = n;
    let mut y: u128 = (n + 1) / 2;
    proof {
        assert(n / n == 1) by {
            lemma_floor_div_is(n as int, n as int, 1);
        }
        assert((n as nat) < (n as nat + 1) * (n as nat + 1)) by (nonlinear_arith)
            requires
                n >= 1,
        ;
    }
    while y < x
        invariant
            1 <= x <= n,
            n < u128::MAX,
            (n as nat) < (x as nat + 1) * (x as nat + 1),
            y == (x + n / x) / 2,
        decreases x,
    {
        proof {
            lemma_newton_step(n as nat, x as nat, y as nat);
            if y == 0 {
                assert((0nat + 1) * (0nat + 1) == 1) by (nonlinear_arith);
            }
            lemma_newton_sum_bound(n as nat, y as nat);
        }
        x = y;
        y = (y + n / y) / 2;
    }
    proof {
        lemma_newton_stop(n as nat, x as nat);
        lemma_root_fits(n as nat, x as nat);
        lemma_floor_sqrt_is(n as nat, x as nat);
    }
    x as u64
}

} // verus!
