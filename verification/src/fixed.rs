//! Q32.32 fixed-point scalars.
//!
//! A plane coordinate `v` is represented by the integer `raw` with
//! `v == raw / 2^32`; `ONE_RAW` is the representation of `1`. Products are
//! truncated toward zero, mirroring the one rounding step of a hardware
//! multiply. The coordinate mapper [`mix`] interpolates between two
//! fixed-point endpoints with an exact rational interpolation parameter.

use vstd::prelude::*;
use vstd::arithmetic::div_mod::{lemma_div_is_ordered, lemma_div_multiples_vanish};
use vstd::arithmetic::mul::lemma_mul_upper_bound;

verus! {

/// Raw representation of the fixed-point value `1` (2^32).
pub const ONE_RAW: i64 = 4294967296;

/// Largest raw magnitude accepted for a draw-bounds coordinate (2^40,
/// i.e. plane values up to 256 in either direction).
pub const COORD_LIMIT: i64 = 1099511627776;

/// Largest raw magnitude accepted for a sample point handed to the
/// escape-time evaluator (2^41); a mapped coordinate plus any sub-pixel
/// offset stays within this bound.
pub const SAMPLE_LIMIT: i64 = 2199023255552;

/// The product of two raw values within `|raw| <= 2^33`, rescaled to Q32.32
/// and truncated toward zero.
pub open spec fn fix_mul_spec(a: int, b: int) -> int {
    if a * b >= 0 {
        (a * b) / (ONE_RAW as int)
    } else {
        -((-(a * b)) / (ONE_RAW as int))
    }
}

/// Fixed-point multiplication, truncating toward zero.
///
/// The argument bound (2^33, i.e. values of magnitude at most 2) is what the
/// escape-time iteration needs: a component of a non-escaped point has
/// magnitude at most 2.
pub fn fix_mul(a: i64, b: i64) -> (r: i64)
    requires
        -8589934592 <= a <= 8589934592,
        -8589934592 <= b <= 8589934592,
    ensures
        r as int == fix_mul_spec(a as int, b as int),
        -17179869184 <= r <= 17179869184,
{
    let neg: bool = (a < 0) != (b < 0);
    let ua: u64 = if a < 0 { (-a) as u64 } else { a as u64 };
    let ub: u64 = if b < 0 { (-b) as u64 } else { b as u64 };
    proof {
        lemma_mul_upper_bound(ua as int, 8589934592, ub as int, 8589934592);
    }
    let prod: u128 = (ua as u128) * (ub as u128);
    let q: u128 = prod / 4294967296u128;
    proof {
        let ia = a as int;
        let ib = b as int;
        assert((ua as int) * (ub as int) == if ia * ib >= 0 {
            ia * ib
        } else {
            -(ia * ib)
        }) by (nonlinear_arith)
            requires
                ua as int == (if ia < 0 { -ia } else { ia }),
                ub as int == (if ib < 0 { -ib } else { ib }),
        ;
        assert(ia * ib > 0 ==> !neg) by (nonlinear_arith)
            requires
                neg == ((ia < 0) != (ib < 0)),
        ;
        assert(ia * ib < 0 ==> neg) by (nonlinear_arith)
            requires
                neg == ((ia < 0) != (ib < 0)),
        ;
        assert(prod <= 73786976294838206464);
    }
    let qi: i64 = q as i64;
    if neg {
        -qi
    } else {
        qi
    }
}

/// Linear interpolation between `lo` and `hi` at parameter
/// `clamp(num / den, 0, 1)`, truncated toward zero: the coordinate mapper.
pub open spec fn mix_spec(lo: int, hi: int, num: int, den: int) -> int {
    let t = if num <= den {
        num
    } else {
        den
    };
    lo + ((hi - lo) * t) / den
}

/// Maps the grid position `num / den` into the interval `[lo, hi]`: the
/// result is `lo + (hi - lo) * clamp(num / den, 0, 1)`, with the single
/// division truncated toward zero. The parameter is clamped, never rejected,
/// so an index on the image boundary still maps to a point of the interval.
pub fn mix(lo: i64, hi: i64, num: u32, den: u32) -> (r: i64)
    requires
        den >= 1,
        -COORD_LIMIT <= lo <= hi <= COORD_LIMIT,
    ensures
        r as int == mix_spec(lo as int, hi as int, num as int, den as int),
        lo <= r <= hi,
{
    let nc: u64 = if num <= den {
        num as u64
    } else {
        den as u64
    };
    let span: u64 = (hi - lo) as u64;
    proof {
        lemma_mul_upper_bound(span as int, 2199023255552, nc as int, 4294967296);
    }
    let prod: u128 = (span as u128) * (nc as u128);
    let q: u128 = prod / (den as u128);
    proof {
        lemma_mul_upper_bound(span as int, span as int, nc as int, den as int);
        assert((span as int) * (den as int) == (den as int) * (span as int)) by (nonlinear_arith);
        lemma_div_is_ordered(prod as int, (span as int) * (den as int), den as int);
        lemma_div_multiples_vanish(span as int, den as int);
    }
    let qi: i64 = q as i64;
    lo + qi
}

} // verus!
