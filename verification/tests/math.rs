use solanaswift::error::SwapError;
use solanaswift::math::{integer_sqrt, mul_div, narrow, wide_mul_div};

#[test]
fn integer_sqrt_rounds_down() {
    assert_eq!(integer_sqrt(0), 0);
    assert_eq!(integer_sqrt(1), 1);
    assert_eq!(integer_sqrt(2), 1);
    assert_eq!(integer_sqrt(3), 1);
    assert_eq!(integer_sqrt(4), 2);
    assert_eq!(integer_sqrt(99), 9);
    assert_eq!(integer_sqrt(100), 10);
    assert_eq!(integer_sqrt(4_000_000), 2000);
    assert_eq!(integer_sqrt(3_999_999), 1999);
}

#[test]
fn integer_sqrt_at_the_top_of_the_range() {
    assert_eq!(integer_sqrt(u128::MAX), u64::MAX);
    assert_eq!(integer_sqrt(u128::MAX - 1), u64::MAX);
    let largest_product = (u64::MAX as u128) * (u64::MAX as u128);
    assert_eq!(integer_sqrt(largest_product), u64::MAX);
    assert_eq!(integer_sqrt(largest_product - 1), u64::MAX - 1);
}

#[test]
fn integer_sqrt_squares_bracket_the_argument() {
    let samples: [u128; 6] = [5, 17, 1_000_003, 18_446_744_073_709_551_616, 1 << 100, 12_345_678_987_654_321];
    for n in samples {
        let r = integer_sqrt(n) as u128;
        assert!(r * r <= n);
        assert!((r + 1) * (r + 1) > n);
    }
}

#[test]
fn mul_div_rounds_down() {
    assert_eq!(mul_div(1000, 9970, 10_000), Ok(997));
    assert_eq!(mul_div(997, 10_000, 10_997), Ok(906));
    assert_eq!(mul_div(7, 3, 2), Ok(10));
    assert_eq!(mul_div(0, 3, 2), Ok(0));
}

#[test]
fn mul_div_takes_the_product_in_128_bits() {
    assert_eq!(mul_div(u64::MAX, u64::MAX, u64::MAX as u128), Ok(u64::MAX));
    assert_eq!(mul_div(u64::MAX, 2, 2), Ok(u64::MAX));
    assert_eq!(mul_div(u64::MAX, u64::MAX, u128::MAX), Ok(0));
}

#[test]
fn mul_div_refuses_what_does_not_fit() {
    assert_eq!(mul_div(u64::MAX, 2, 1), Err(SwapError::MathOverflow));
    assert_eq!(mul_div(u64::MAX, u64::MAX, 1), Err(SwapError::MathOverflow));
}

#[test]
fn mul_div_refuses_a_zero_divisor() {
    assert_eq!(mul_div(1, 1, 0), Err(SwapError::MathOverflow));
    assert_eq!(wide_mul_div(0, 0, 0), Err(SwapError::MathOverflow));
}

#[test]
fn wide_mul_div_keeps_wide_quotients() {
    assert_eq!(wide_mul_div(u64::MAX, 2, 1), Ok(2 * (u64::MAX as u128)));
    assert_eq!(wide_mul_div(10, 10, 3), Ok(33));
}

#[test]
fn narrow_checks_the_width() {
    assert_eq!(narrow(0), Ok(0));
    assert_eq!(narrow(u64::MAX as u128), Ok(u64::MAX));
    assert_eq!(narrow(u64::MAX as u128 + 1), Err(SwapError::MathOverflow));
}
