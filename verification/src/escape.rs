//! The escape-time membership test.
//!
//! Starting from `z = 0`, the quadratic recurrence `z <- z^2 + c` is applied
//! up to `max_iter` times; before each application the squared magnitude of
//! `z` is tested against the escape threshold `4`. The first index whose
//! test exceeds the threshold is returned; a point that never escapes within
//! the cap yields the inside-the-set sentinel `0`. The sentinel is ambiguous
//! by design: a cap of `0` also yields `0` although nothing was tested, and
//! this module keeps that behaviour rather than silently changing it.

use vstd::prelude::*;
use crate::fixed::{fix_mul, fix_mul_spec, ONE_RAW, SAMPLE_LIMIT};

verus! {

/// A point of the complex plane in Q32.32 fixed point.
#[derive(Clone, Copy, PartialEq, Eq, Structural, Debug)]
pub struct Complex {
    pub re: i64,
    pub im: i64,
}

impl Complex {
    /// Both components lie within the sample bound, so the iteration's
    /// intermediate values fit their machine words.
    pub open spec fn wf(self) -> bool {
        &&& -SAMPLE_LIMIT <= self.re <= SAMPLE_LIMIT
        &&& -SAMPLE_LIMIT <= self.im <= SAMPLE_LIMIT
    }
}

/// The escape threshold `4` in raw-squared units: `4 * 2^64`.
pub const ESCAPE_RAW_SQ: i128 = 73786976294838206464;

/// Squared magnitude of `(zr, zi)` in raw-squared units.
pub open spec fn dist_sq(zr: int, zi: int) -> int {
    zr * zr + zi * zi
}

/// Real part of one recurrence step `z^2 + c`.
pub open spec fn step_re(zr: int, zi: int, cre: int) -> int {
    fix_mul_spec(zr, zr) - fix_mul_spec(zi, zi) + cre
}

/// Imaginary part of one recurrence step `z^2 + c`, written as the two
/// symmetric cross products the evaluator computes.
pub open spec fn step_im(zr: int, zi: int, cim: int) -> int {
    fix_mul_spec(zr, zi) + fix_mul_spec(zi, zr) + cim
}

/// The orbit of `0` under `z <- z^2 + c`: raw components of `z_n`.
pub open spec fn orbit(cre: int, cim: int, n: nat) -> (int, int)
    decreases n,
{
    if n == 0 {
        (0int, 0int)
    } else {
        let z = orbit(cre, cim, (n - 1) as nat);
        (step_re(z.0, z.1, cre), step_im(z.0, z.1, cim))
    }
}

/// The check made before iteration `i`: has `z_i` left the radius-2 disk?
pub open spec fn escaped_at(cre: int, cim: int, i: nat) -> bool {
    dist_sq(orbit(cre, cim, i).0, orbit(cre, cim, i).1) > ESCAPE_RAW_SQ as int
}

/// First escaped index in `[i, cap)`, or `0` if none exists there.
pub open spec fn escape_time_from(cre: int, cim: int, i: nat, cap: nat) -> nat
    decreases cap - i,
{
    if i >= cap {
        0
    } else if escaped_at(cre, cim, i) {
        i
    } else {
        escape_time_from(cre, cim, (i + 1) as nat, cap)
    }
}

/// What the evaluator returns: the first escaped index below `cap`, or the
/// sentinel `0` when the point survives every checked iteration.
pub open spec fn escape_time(cre: int, cim: int, cap: nat) -> nat {
    escape_time_from(cre, cim, 0, cap)
}

proof fn lemma_first_escape(cre: int, cim: int, i: nat, k: nat, cap: nat)
    requires
        i <= k < cap,
        escaped_at(cre, cim, k),
        forall|j: nat| i <= j < k ==> !escaped_at(cre, cim, j),
    ensures
        escape_time_from(cre, cim, i, cap) == k,
    decreases k - i,
{
    if i < k {
        assert(!escaped_at(cre, cim, i));
        lemma_first_escape(cre, cim, (i + 1) as nat, k, cap);
    }
}

proof fn lemma_no_escape(cre: int, cim: int, i: nat, cap: nat)
    requires
        forall|j: nat| i <= j < cap ==> !escaped_at(cre, cim, j),
    ensures
        escape_time_from(cre, cim, i, cap) == 0,
    decreases cap - i,
{
    if i < cap {
        assert(!escaped_at(cre, cim, i));
        lemma_no_escape(cre, cim, (i + 1) as nat, cap);
    }
}

/// The escape-time evaluator: returns the 0-indexed iteration at which `c`'s
/// orbit is first seen outside the radius-2 disk (the check precedes the
/// step), or `0` if no check fails within `max_iter` iterations.
pub fn mandelbrot(c: Complex, max_iter: u32) -> (r: u32)
    requires
        c.wf(),
    ensures
        r as nat == escape_time(c.re as int, c.im as int, max_iter as nat),
        r == 0 || r < max_iter,
{
    let mut zr: i64 = 0;
    let mut zi: i64 = 0;
    let mut i: u32 = 0;
    while i < max_iter
        invariant
            c.wf(),
            i <= max_iter,
            zr as int == orbit(c.re as int, c.im as int, i as nat).0,
            zi as int == orbit(c.re as int, c.im as int, i as nat).1,
            forall|j: nat| j < i as nat ==> !escaped_at(c.re as int, c.im as int, j),
            -4398046511104 <= zr <= 4398046511104,
            -4398046511104 <= zi <= 4398046511104,
        decreases max_iter - i,
    {
        proof {
            assert(0 <= (zr as int) * (zr as int) <= 19342813113834066795298816)
                by (nonlinear_arith)
                requires
                    -4398046511104 <= zr as int <= 4398046511104,
            ;
            assert(0 <= (zi as int) * (zi as int) <= 19342813113834066795298816)
                by (nonlinear_arith)
                requires
                    -4398046511104 <= zi as int <= 4398046511104,
            ;
        }
        let a: i128 = (zr as i128) * (zr as i128);
        let b: i128 = (zi as i128) * (zi as i128);
        if a + b > ESCAPE_RAW_SQ {
            proof {
                assert(escaped_at(c.re as int, c.im as int, i as nat));
                lemma_first_escape(c.re as int, c.im as int, 0, i as nat, max_iter as nat);
            }
            return i;
        }
        proof {
            assert(!escaped_at(c.re as int, c.im as int, i as nat));
            assert(-8589934592 <= zr as int <= 8589934592 && -8589934592 <= zi as int
                <= 8589934592) by (nonlinear_arith)
                requires
                    (zr as int) * (zr as int) + (zi as int) * (zi as int)
                        <= 73786976294838206464,
            ;
        }
        let m_rr: i64 = fix_mul(zr, zr);
        let m_ii: i64 = fix_mul(zi, zi);
        let m_ri: i64 = fix_mul(zr, zi);
        let m_ir: i64 = fix_mul(zi, zr);
        zr = m_rr - m_ii + c.re;
        zi = m_ri + m_ir + c.im;
        i = i + 1;
    }
    proof {
        lemma_no_escape(c.re as int, c.im as int, 0, max_iter as nat);
    }
    0
}

/// Law: the origin's orbit never moves, so the evaluator returns the inside
/// sentinel `0` for `c = (0, 0)` at every iteration cap.
pub proof fn lemma_origin_inside(cap: nat)
    ensures
        escape_time(0, 0, cap) == 0,
{
    assert forall|j: nat| j < cap implies !escaped_at(0, 0, j) by {
        lemma_origin_orbit(j);
    }
    lemma_no_escape(0, 0, 0, cap);
}

proof fn lemma_origin_orbit(n: nat)
    ensures
        orbit(0, 0, n) == (0int, 0int),
    decreases n,
{
    if n > 0 {
        lemma_origin_orbit((n - 1) as nat);
    }
}

/// Law: `c = (3, 0)` is seen outside the disk at the first checked index,
/// so the evaluator returns `1` whenever the cap admits that check. A cap
/// of exactly `1` stops before the check at index 1 and returns the inside
/// sentinel `0` instead, which is why `cap >= 2` is required here.
pub proof fn lemma_fast_escape(cap: nat)
    requires
        cap >= 2,
    ensures
        escape_time(3 * (ONE_RAW as int), 0, cap) == 1,
{
    let cre = 3 * (ONE_RAW as int);
    assert(fix_mul_spec(0, 0) == 0);
    assert(orbit(cre, 0, 0) == (0int, 0int));
    assert(orbit(cre, 0, 1) == (step_re(0, 0, cre), step_im(0, 0, 0)));
    assert(orbit(cre, 0, 1) == (cre, 0int));
    assert(cre * cre + 0 * 0 > ESCAPE_RAW_SQ as int) by (nonlinear_arith)
        requires
            cre == 12884901888,
    ;
    assert(escaped_at(cre, 0, 1));
    assert(!escaped_at(cre, 0, 0));
    lemma_first_escape(cre, 0, 0, 1, cap);
}

/// Law: growing the iteration cap only refines the classification. A
/// non-zero escape count reported at a smaller cap is reported unchanged at
/// any larger cap, and a point reported inside at the larger cap was also
/// reported inside at the smaller one.
pub proof fn lemma_monotonic_cap(cre: int, cim: int, cap1: nat, cap2: nat)
    requires
        cap1 <= cap2,
    ensures
        escape_time(cre, cim, cap1) != 0 ==> escape_time(cre, cim, cap2) == escape_time(
            cre,
            cim,
            cap1,
        ),
        escape_time(cre, cim, cap2) == 0 ==> escape_time(cre, cim, cap1) == 0,
{
    lemma_monotonic_from(cre, cim, 0, cap1, cap2);
}

proof fn lemma_monotonic_from(cre: int, cim: int, i: nat, cap1: nat, cap2: nat)
    requires
        cap1 <= cap2,
    ensures
        escape_time_from(cre, cim, i, cap1) != 0 ==> escape_time_from(cre, cim, i, cap2)
            == escape_time_from(cre, cim, i, cap1),
        escape_time_from(cre, cim, i, cap2) == 0 ==> escape_time_from(cre, cim, i, cap1) == 0,
    decreases cap1 - i,
{
    if i < cap1 && !escaped_at(cre, cim, i) {
        lemma_monotonic_from(cre, cim, (i + 1) as nat, cap1, cap2);
    }
}

} // verus!
