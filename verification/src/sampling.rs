//! The 16-sample anti-aliasing aggregator.
//!
//! A pixel is classified by evaluating the escape-time test at the 16 points
//! of a fixed 4x4 sub-pixel grid around its centre, with offsets of 1/8 and
//! 3/8 of one pixel width in each axis, and averaging the 16 counts with a
//! truncating division by 16. Boundary pixels partially inside and outside
//! the set thereby receive intermediate counts instead of a hard threshold.

use vstd::prelude::*;
use vstd::arithmetic::div_mod::{lemma_div_is_ordered, lemma_div_multiples_vanish};
use crate::escape::{escape_time, mandelbrot, Complex};
use crate::fixed::COORD_LIMIT;

verus! {

/// Raw fine sub-pixel offset: 1/8 of one pixel, `(2^32 / 8) / size` truncated.
pub open spec fn dpx1_spec(size: int) -> int {
    536870912int / size
}

/// Raw coarse sub-pixel offset: 3/8 of one pixel, `(3 * 2^32 / 8) / size`
/// truncated.
pub open spec fn dpx2_spec(size: int) -> int {
    1610612736int / size
}

/// The sum of the 16 escape times on the sub-pixel grid around `(cre, cim)`,
/// row by row from the lowest imaginary offset to the highest.
pub open spec fn msaa_sum(cre: int, cim: int, cap: nat, size: int) -> int {
    let d1 = dpx1_spec(size);
    let d2 = dpx2_spec(size);
    escape_time(cre - d2, cim - d2, cap) + escape_time(cre - d1, cim - d2, cap) + escape_time(
        cre + d1,
        cim - d2,
        cap,
    ) + escape_time(cre + d2, cim - d2, cap) + escape_time(cre - d2, cim - d1, cap) + escape_time(
        cre - d1,
        cim - d1,
        cap,
    ) + escape_time(cre + d1, cim - d1, cap) + escape_time(cre + d2, cim - d1, cap) + escape_time(
        cre - d2,
        cim + d1,
        cap,
    ) + escape_time(cre - d1, cim + d1, cap) + escape_time(cre + d1, cim + d1, cap) + escape_time(
        cre + d2,
        cim + d1,
        cap,
    ) + escape_time(cre - d2, cim + d2, cap) + escape_time(cre - d1, cim + d2, cap) + escape_time(
        cre + d1,
        cim + d2,
        cap,
    ) + escape_time(cre + d2, cim + d2, cap) as int
}

/// The supersampling aggregator: evaluates the escape-time test at the 16
/// fixed sub-pixel offsets around `c` and returns the truncated average,
/// `floor(sum_of_16_evaluations / 16)`. The sum is accumulated at 64 bits,
/// wide enough that it cannot overflow, so the result does not depend on
/// any evaluation order.
pub fn mandelmsaax16(c: Complex, max_iter: u32, img_size: u32) -> (r: u32)
    requires
        img_size >= 1,
        -COORD_LIMIT <= c.re <= COORD_LIMIT,
        -COORD_LIMIT <= c.im <= COORD_LIMIT,
    ensures
        r as int == msaa_sum(c.re as int, c.im as int, max_iter as nat, img_size as int) / 16,
        r == 0 || r < max_iter,
{
    let d1: i64 = (536870912u64 / (img_size as u64)) as i64;
    let d2: i64 = (1610612736u64 / (img_size as u64)) as i64;
    let s00: u32 = mandelbrot(Complex { re: c.re - d2, im: c.im - d2 }, max_iter);
    let s01: u32 = mandelbrot(Complex { re: c.re - d1, im: c.im - d2 }, max_iter);
    let s02: u32 = mandelbrot(Complex { re: c.re + d1, im: c.im - d2 }, max_iter);
    let s03: u32 = mandelbrot(Complex { re: c.re + d2, im: c.im - d2 }, max_iter);
    let s10: u32 = mandelbrot(Complex { re: c.re - d2, im: c.im - d1 }, max_iter);
    let s11: u32 = mandelbrot(Complex { re: c.re - d1, im: c.im - d1 }, max_iter);
    let s12: u32 = mandelbrot(Complex { re: c.re + d1, im: c.im - d1 }, max_iter);
    let s13: u32 = mandelbrot(Complex { re: c.re + d2, im: c.im - d1 }, max_iter);
    let s20: u32 = mandelbrot(Complex { re: c.re - d2, im: c.im + d1 }, max_iter);
    let s21: u32 = mandelbrot(Complex { re: c.re - d1, im: c.im + d1 }, max_iter);
    let s22: u32 = mandelbrot(Complex { re: c.re + d1, im: c.im + d1 }, max_iter);
    let s23: u32 = mandelbrot(Complex { re: c.re + d2, im: c.im + d1 }, max_iter);
    let s30: u32 = mandelbrot(Complex { re: c.re - d2, im: c.im + d2 }, max_iter);
    let s31: u32 = mandelbrot(Complex { re: c.re - d1, im: c.im + d2 }, max_iter);
    let s32: u32 = mandelbrot(Complex { re: c.re + d1, im: c.im + d2 }, max_iter);
    let s33: u32 = mandelbrot(Complex { re: c.re + d2, im: c.im + d2 }, max_iter);
    let sum: u64 = s00 as u64 + s01 as u64 + s02 as u64 + s03 as u64 + s10 as u64 + s11 as u64
        + s12 as u64 + s13 as u64 + s20 as u64 + s21 as u64 + s22 as u64 + s23 as u64 + s30 as u64
        + s31 as u64 + s32 as u64 + s33 as u64;
    let avg: u64 = sum / 16;
    proof {
        if max_iter >= 1 {
            lemma_div_is_ordered(sum as int, 16 * (max_iter - 1), 16);
            lemma_div_multiples_vanish(max_iter - 1, 16);
        }
    }
    avg as u32
}

} // verus!
