//! The intensity normalizer, and the per-sample pipeline around it.
//!
//! An averaged iteration count is mapped to an 8-bit intensity with the
//! fixed gain 1.5: `clamp((avg / cap) * 1.5 * 255, 0, 255)`, truncated. In
//! exact arithmetic that is `min(255, (765 * avg) / (2 * cap))`, so averages
//! above two thirds of the cap saturate to white.

use vstd::prelude::*;
use vstd::arithmetic::div_mod::lemma_fundamental_div_mod_converse;
use crate::escape::Complex;
use crate::fixed::COORD_LIMIT;
use crate::sampling::{mandelmsaax16, msaa_sum};

verus! {

/// The normalized intensity for average `avg` at iteration cap `cap`.
///
/// A cap of zero admits no division; the only average an aggregator can
/// produce for it is zero, which maps to black, and any other value
/// saturates, mirroring how a quotient of zero blows up downstream.
pub open spec fn intensity_spec(avg: int, cap: int) -> int {
    if cap == 0 {
        if avg == 0 {
            0
        } else {
            255
        }
    } else {
        let scaled = (765 * avg) / (2 * cap);
        if scaled > 255 {
            255
        } else {
            scaled
        }
    }
}

/// The intensity normalizer: `min(255, (765 * avg) / (2 * max_iter))`,
/// i.e. `(avg / max_iter) * 1.5 * 255` truncated and clamped to a byte.
pub fn normalize_intensity(avg: u32, max_iter: u32) -> (r: u8)
    ensures
        r as int == intensity_spec(avg as int, max_iter as int),
{
    if max_iter == 0 {
        if avg == 0 {
            0
        } else {
            255
        }
    } else {
        let scaled: u64 = ((avg as u64) * 765) / (2 * (max_iter as u64));
        if scaled > 255 {
            255
        } else {
            scaled as u8
        }
    }
}

/// One full sample-point classification: aggregate the 16 sub-pixel
/// escape times around `c`, then normalize the truncated average.
pub fn mandelproc(c: Complex, max_iter: u32, img_size: u32) -> (r: u8)
    requires
        img_size >= 1,
        -COORD_LIMIT <= c.re <= COORD_LIMIT,
        -COORD_LIMIT <= c.im <= COORD_LIMIT,
    ensures
        r as int == intensity_spec(
            msaa_sum(c.re as int, c.im as int, max_iter as nat, img_size as int) / 16,
            max_iter as int,
        ),
{
    let avg: u32 = mandelmsaax16(c, max_iter, img_size);
    normalize_intensity(avg, max_iter)
}

/// Law: the normalizer saturates and vanishes at the extremes. An average
/// equal to the cap maps to full white, 255, and an average of zero maps to
/// black, 0, at every positive cap.
pub proof fn lemma_normalizer_saturation(cap: int)
    requires
        cap >= 1,
    ensures
        intensity_spec(cap, cap) == 255,
        intensity_spec(0, cap) == 0,
{
    lemma_fundamental_div_mod_converse(765 * cap, 2 * cap, 382, cap);
    lemma_fundamental_div_mod_converse(0, 2 * cap, 0, 0);
}

} // verus!
