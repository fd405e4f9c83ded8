//! Kernel entries: one invocation of the per-pixel pipeline, in the narrow
//! (one byte per pixel) or wide (one word per four pixels) output layout.
//!
//! An invocation maps its grid index through the coordinate mapper, runs the
//! supersampled escape-time pipeline, and writes one element of the linear
//! output buffer. Row-major indices of distinct invocations are distinct and
//! together cover the whole buffer, which the two coverage laws at the end
//! of this module state; a dispatch may therefore run invocations in any
//! order, or in parallel, without write conflicts.

use vstd::prelude::*;
use vstd::pervasive::VecAdditionalExecFns;
use vstd::arithmetic::div_mod::{
    lemma_div_pos_is_pos,
    lemma_fundamental_div_mod,
    lemma_fundamental_div_mod_converse,
    lemma_mod_division_less_than_divisor,
};
use crate::escape::Complex;
use crate::fixed::{mix, mix_spec, COORD_LIMIT};
use crate::intensity::{intensity_spec, mandelproc};
use crate::packing::{pack_pixels, packed_word};
use crate::sampling::msaa_sum;

verus! {

/// The rectangle of the complex plane mapped onto the image, in Q32.32
/// fixed point: `x` spans `[x_min, x_max]`, `y` spans `[y_min, y_max]`.
#[derive(Clone, Copy, PartialEq, Eq, Structural, Debug)]
pub struct DrawBounds {
    pub x_min: i64,
    pub x_max: i64,
    pub y_min: i64,
    pub y_max: i64,
}

/// The read-only parameter record shared by all invocations of a dispatch:
/// the drawn rectangle, the square image's side in pixels, and the
/// escape-time iteration cap.
#[derive(Clone, Copy, PartialEq, Eq, Structural, Debug)]
pub struct InputParameters {
    pub draw_bounds: DrawBounds,
    pub img_size_px: u32,
    pub max_iter: u32,
}

impl InputParameters {
    /// Non-degenerate bounds within the fixed-point coordinate range, and an
    /// image side small enough that the squared pixel count fits the 32-bit
    /// index arithmetic.
    pub open spec fn wf(self) -> bool {
        &&& -COORD_LIMIT <= self.draw_bounds.x_min < self.draw_bounds.x_max <= COORD_LIMIT
        &&& -COORD_LIMIT <= self.draw_bounds.y_min < self.draw_bounds.y_max <= COORD_LIMIT
        &&& 1 <= self.img_size_px <= 65536
    }
}

/// The real coordinate of pixel column `x`.
pub open spec fn pixel_re(p: InputParameters, x: int) -> int {
    mix_spec(p.draw_bounds.x_min as int, p.draw_bounds.x_max as int, x, p.img_size_px as int)
}

/// The imaginary coordinate of pixel row `y`.
pub open spec fn pixel_im(p: InputParameters, y: int) -> int {
    mix_spec(p.draw_bounds.y_min as int, p.draw_bounds.y_max as int, y, p.img_size_px as int)
}

/// The intensity of the pixel at column `x`, row `y`, classified with
/// iteration cap `cap`.
pub open spec fn pixel_intensity(p: InputParameters, x: int, y: int, cap: nat) -> int {
    intensity_spec(
        msaa_sum(pixel_re(p, x), pixel_im(p, y), cap, p.img_size_px as int) / 16,
        cap as int,
    )
}

/// The linear output index of the cell at column `x`, row `y` of a
/// row-major grid of width `w`.
pub open spec fn grid_index(x: int, y: int, w: int) -> int {
    y * w + x
}

/// The narrow-layout intensity of one pixel. This variant stores the
/// iteration cap as an 8-bit quantity, so only the low byte of the record's
/// `max_iter` is used, trading iteration depth for output compactness.
pub fn narrow_pixel(p: &InputParameters, x: u32, y: u32) -> (r: u8)
    requires
        p.wf(),
    ensures
        r as int == pixel_intensity(*p, x as int, y as int, (p.max_iter % 256) as nat),
{
    let cap8: u32 = p.max_iter % 256;
    let cre: i64 = mix(p.draw_bounds.x_min, p.draw_bounds.x_max, x, p.img_size_px);
    let cim: i64 = mix(p.draw_bounds.y_min, p.draw_bounds.y_max, y, p.img_size_px);
    mandelproc(Complex { re: cre, im: cim }, cap8, p.img_size_px)
}

/// The output index a narrow invocation owns: one byte per pixel,
/// row-major.
pub fn narrow_index(p: &InputParameters, x: u32, y: u32) -> (idx: u32)
    requires
        p.wf(),
        x < p.img_size_px,
        y < p.img_size_px,
    ensures
        idx as int == grid_index(x as int, y as int, p.img_size_px as int),
        idx < p.img_size_px * p.img_size_px,
{
    proof {
        let s = p.img_size_px as int;
        assert((y as int) * s + (x as int) < s * s && s * s <= 4294967296) by (nonlinear_arith)
            requires
                0 <= (x as int) < s,
                0 <= (y as int) < s,
                s <= 65536,
        ;
    }
    y * p.img_size_px + x
}

/// One narrow-layout invocation: computes the pixel's intensity and writes
/// it at the pixel's own output index, leaving every other byte unchanged.
pub fn narrow_kernel(p: &InputParameters, x: u32, y: u32, pixels: &mut Vec<u8>)
    requires
        p.wf(),
        x < p.img_size_px,
        y < p.img_size_px,
        old(pixels).len() == p.img_size_px * p.img_size_px,
    ensures
        final(pixels)@.len() == old(pixels)@.len(),
        final(pixels)@[grid_index(x as int, y as int, p.img_size_px as int)] as int == pixel_intensity(
            *p,
            x as int,
            y as int,
            (p.max_iter % 256) as nat,
        ),
        forall|k: int|
            0 <= k < final(pixels)@.len() && k != grid_index(
                x as int,
                y as int,
                p.img_size_px as int,
            ) ==> final(pixels)@[k] == old(pixels)@[k],
{
    let v: u8 = narrow_pixel(p, x, y);
    let idx: u32 = narrow_index(p, x, y);
    pixels.set(idx as usize, v);
}

/// The wide-layout word of one invocation: the intensities of the four
/// horizontally adjacent pixels at columns `4*gx .. 4*gx + 3` of row `y`,
/// packed with the leftmost pixel in the least-significant byte. This
/// variant runs the pipeline at the record's full 32-bit iteration cap.
pub fn wide_group(p: &InputParameters, gx: u32, y: u32) -> (w: u32)
    requires
        p.wf(),
        p.img_size_px % 4 == 0,
        gx < p.img_size_px / 4,
    ensures
        w as int == packed_word(
            pixel_intensity(*p, 4 * gx as int, y as int, p.max_iter as nat),
            pixel_intensity(*p, 4 * gx as int + 1, y as int, p.max_iter as nat),
            pixel_intensity(*p, 4 * gx as int + 2, y as int, p.max_iter as nat),
            pixel_intensity(*p, 4 * gx as int + 3, y as int, p.max_iter as nat),
        ),
{
    let x0: u32 = 4 * gx;
    let cim: i64 = mix(p.draw_bounds.y_min, p.draw_bounds.y_max, y, p.img_size_px);
    let re0: i64 = mix(p.draw_bounds.x_min, p.draw_bounds.x_max, x0, p.img_size_px);
    let re1: i64 = mix(p.draw_bounds.x_min, p.draw_bounds.x_max, x0 + 1, p.img_size_px);
    let re2: i64 = mix(p.draw_bounds.x_min, p.draw_bounds.x_max, x0 + 2, p.img_size_px);
    let re3: i64 = mix(p.draw_bounds.x_min, p.draw_bounds.x_max, x0 + 3, p.img_size_px);
    let i0: u8 = mandelproc(Complex { re: re0, im: cim }, p.max_iter, p.img_size_px);
    let i1: u8 = mandelproc(Complex { re: re1, im: cim }, p.max_iter, p.img_size_px);
    let i2: u8 = mandelproc(Complex { re: re2, im: cim }, p.max_iter, p.img_size_px);
    let i3: u8 = mandelproc(Complex { re: re3, im: cim }, p.max_iter, p.img_size_px);
    pack_pixels(i0, i1, i2, i3)
}

/// The output index a wide invocation owns: one word per group of four
/// pixels, row-major over a grid of width `img_size_px / 4`.
pub fn wide_index(p: &InputParameters, gx: u32, y: u32) -> (idx: u32)
    requires
        p.wf(),
        p.img_size_px % 4 == 0,
        gx < p.img_size_px / 4,
        y < p.img_size_px,
    ensures
        idx as int == grid_index(gx as int, y as int, (p.img_size_px / 4) as int),
        idx < (p.img_size_px / 4) * p.img_size_px,
{
    let quarter: u32 = p.img_size_px / 4;
    proof {
        let q = quarter as int;
        let s = p.img_size_px as int;
        assert((y as int) * q + (gx as int) < q * s && q * s <= 4294967296) by (nonlinear_arith)
            requires
                0 <= (gx as int) < q,
                0 <= (y as int) < s,
                s <= 65536,
                q <= 16384,
        ;
    }
    y * quarter + gx
}

/// One wide-layout invocation: packs the group's four intensities and
/// writes the word at the group's own output index, leaving every other
/// word unchanged.
pub fn wide_kernel(p: &InputParameters, gx: u32, y: u32, words: &mut Vec<u32>)
    requires
        p.wf(),
        p.img_size_px % 4 == 0,
        gx < p.img_size_px / 4,
        y < p.img_size_px,
        old(words).len() == (p.img_size_px / 4) * p.img_size_px,
    ensures
        final(words)@.len() == old(words)@.len(),
        final(words)@[grid_index(gx as int, y as int, (p.img_size_px / 4) as int)] as int == packed_word(
            pixel_intensity(*p, 4 * gx as int, y as int, p.max_iter as nat),
            pixel_intensity(*p, 4 * gx as int + 1, y as int, p.max_iter as nat),
            pixel_intensity(*p, 4 * gx as int + 2, y as int, p.max_iter as nat),
            pixel_intensity(*p, 4 * gx as int + 3, y as int, p.max_iter as nat),
        ),
        forall|k: int|
            0 <= k < final(words)@.len() && k != grid_index(
                gx as int,
                y as int,
                (p.img_size_px / 4) as int,
            ) ==> final(words)@[k] == old(words)@[k],
{
    let w: u32 = wide_group(p, gx, y);
    let idx: u32 = wide_index(p, gx, y);
    words.set(idx as usize, w);
}

/// Law (disjoint coverage, one half): two distinct cells of a row-major
/// grid never share an output index, so no two invocations of a dispatch
/// write the same buffer element and no write ordering is needed.
pub proof fn lemma_grid_index_injective(w: int, x1: int, y1: int, x2: int, y2: int)
    requires
        w >= 1,
        0 <= x1 < w,
        0 <= x2 < w,
        0 <= y1,
        0 <= y2,
        grid_index(x1, y1, w) == grid_index(x2, y2, w),
    ensures
        x1 == x2,
        y1 == y2,
{
    lemma_fundamental_div_mod_converse(grid_index(x1, y1, w), w, y1, x1);
    lemma_fundamental_div_mod_converse(grid_index(x2, y2, w), w, y2, x2);
}

/// Law (disjoint coverage, other half): every output index below `w * h`
/// belongs to a cell of the `w`-wide, `h`-high grid — column `k % w` of row
/// `k / w` — so a full dispatch writes every buffer element exactly once.
pub proof fn lemma_grid_index_covers(w: int, h: int, k: int)
    requires
        w >= 1,
        h >= 1,
        0 <= k < w * h,
    ensures
        0 <= k % w < w,
        0 <= k / w < h,
        grid_index(k % w, k / w, w) == k,
{
    lemma_mod_division_less_than_divisor(k, w);
    lemma_div_pos_is_pos(k, w);
    lemma_fundamental_div_mod(k, w);
    assert(k / w < h && (k / w) * w + k % w == k) by (nonlinear_arith)
        requires
            w >= 1,
            h >= 1,
            0 <= k < w * h,
            k == w * (k / w) + k % w,
            0 <= k % w < w,
    ;
}

} // verus!
