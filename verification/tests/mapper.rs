use mandel_kernel::fixed::{fix_mul, mix};

// Raw fixed-point unit: 2^32.
const ONE: i64 = 4294967296;

#[test]
fn mix_hits_the_endpoints() {
    assert_eq!(mix(-2 * ONE, ONE, 0, 256), -2 * ONE);
    assert_eq!(mix(-2 * ONE, ONE, 256, 256), ONE);
}

#[test]
fn mix_clamps_positions_past_the_far_edge() {
    // A grid index on or past the image boundary maps to the interval's
    // upper end instead of overshooting it.
    assert_eq!(mix(-2 * ONE, ONE, 257, 256), ONE);
    assert_eq!(mix(-2 * ONE, ONE, u32::MAX, 256), ONE);
}

#[test]
fn mix_interpolates_exact_rationals() {
    // Midpoint of [-2, 1] is -0.5.
    assert_eq!(mix(-2 * ONE, ONE, 128, 256), -ONE / 2);
    // Column 50 of the classic 256-pixel view: -2 + 3 * 50/256 = -1.4140625.
    assert_eq!(mix(-2 * ONE, ONE, 50, 256), -6073352192);
    // Row 128 of the classic view maps to the real axis exactly.
    assert_eq!(mix(-3 * ONE / 2, 3 * ONE / 2, 128, 256), 0);
}

#[test]
fn fix_mul_squares_small_values_exactly() {
    assert_eq!(fix_mul(ONE, ONE), ONE);
    assert_eq!(fix_mul(ONE / 2, ONE / 2), ONE / 4);
    assert_eq!(fix_mul(2 * ONE, 2 * ONE), 4 * ONE);
    assert_eq!(fix_mul(-ONE / 2, ONE / 2), -ONE / 4);
    assert_eq!(fix_mul(-ONE, -ONE), ONE);
}

#[test]
fn fix_mul_truncates_toward_zero() {
    // 3 * 1 raw units is far below one raw quantum, so the product
    // truncates to zero from both sides instead of flooring to -1.
    assert_eq!(fix_mul(3, ONE / 4294967296), 0);
    assert_eq!(fix_mul(-3, ONE / 4294967296), 0);
}
