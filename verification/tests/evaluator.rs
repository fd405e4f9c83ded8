use mandel_kernel::escape::{mandelbrot, Complex};

// Raw fixed-point unit: 2^32.
const ONE: i64 = 4294967296;

#[test]
fn origin_is_inside_at_every_cap() {
    let origin = Complex { re: 0, im: 0 };
    assert_eq!(mandelbrot(origin, 1), 0);
    assert_eq!(mandelbrot(origin, 2), 0);
    assert_eq!(mandelbrot(origin, 100), 0);
    assert_eq!(mandelbrot(origin, 255), 0);
}

#[test]
fn three_escapes_at_the_first_check() {
    let c = Complex { re: 3 * ONE, im: 0 };
    assert_eq!(mandelbrot(c, 2), 1);
    assert_eq!(mandelbrot(c, 3), 1);
    assert_eq!(mandelbrot(c, 100), 1);
}

#[test]
fn cap_one_stops_before_the_first_escape_check() {
    // With a cap of 1 only z_0 = 0 is checked, so even a fast-escaping
    // point is reported with the inside sentinel.
    let c = Complex { re: 3 * ONE, im: 0 };
    assert_eq!(mandelbrot(c, 1), 0);
}

#[test]
fn two_sits_on_the_threshold() {
    // For c = (2, 0), |z_1|^2 == 4 exactly, which is not > 4; the orbit
    // escapes only at the check after the second step.
    let c = Complex { re: 2 * ONE, im: 0 };
    assert_eq!(mandelbrot(c, 2), 0);
    assert_eq!(mandelbrot(c, 3), 2);
    assert_eq!(mandelbrot(c, 50), 2);
}

#[test]
fn one_plus_i_escapes_at_two() {
    // z_1 = 1 + i with |z_1|^2 = 2; z_2 = 1 + 3i with |z_2|^2 = 10 > 4.
    let c = Complex { re: ONE, im: ONE };
    assert_eq!(mandelbrot(c, 2), 0);
    assert_eq!(mandelbrot(c, 3), 2);
    assert_eq!(mandelbrot(c, 1000), 2);
}

#[test]
fn growing_the_cap_keeps_nonzero_counts() {
    let points = [
        Complex { re: ONE, im: ONE },
        Complex { re: 2 * ONE, im: 0 },
        Complex { re: -2 * ONE - ONE / 2048, im: ONE / 2048 },
        Complex { re: ONE / 2, im: ONE / 2 },
    ];
    for c in points {
        let mut last: u32 = 0;
        for cap in 1..40u32 {
            let r = mandelbrot(c, cap);
            if last != 0 {
                assert_eq!(r, last);
            }
            if r == 0 {
                assert_eq!(last, 0);
            }
            last = r;
        }
    }
}

#[test]
fn zero_cap_returns_the_ambiguous_sentinel() {
    // No iteration is run, and the untested point is reported as inside.
    let c = Complex { re: 3 * ONE, im: 3 * ONE };
    assert_eq!(mandelbrot(c, 0), 0);
}
