//! The wide output layout: four 8-bit intensities in one 32-bit word.
//!
//! Pixel 0 of a horizontal group of four occupies the least-significant
//! byte, pixel 3 the most-significant one.

use vstd::prelude::*;
use vstd::arithmetic::div_mod::lemma_fundamental_div_mod_converse;

verus! {

/// The packed word as a number: pixel `k` contributes `p_k * 256^k`.
pub open spec fn packed_word(p0: int, p1: int, p2: int, p3: int) -> int {
    p0 + 256 * p1 + 65536 * p2 + 16777216 * p3
}

/// Packs four intensities into one word, pixel 0 in bits 0-7 up to pixel 3
/// in bits 24-31.
pub fn pack_pixels(p0: u8, p1: u8, p2: u8, p3: u8) -> (w: u32)
    ensures
        w as int == packed_word(p0 as int, p1 as int, p2 as int, p3 as int),
{
    let b0: u32 = p0 as u32;
    let b1: u32 = p1 as u32;
    let b2: u32 = p2 as u32;
    let b3: u32 = p3 as u32;
    proof {
        assert((b0 < 256 && b1 < 256 && b2 < 256 && b3 < 256) ==> (b0 | (b1 << 8) | (b2 << 16) | (
        b3 << 24)) == b0 + 256 * b1 + 65536 * b2 + 16777216 * b3) by (bit_vector);
    }
    b0 | (b1 << 8) | (b2 << 16) | (b3 << 24)
}

/// Recovers the four byte intensities of a packed word, least-significant
/// byte first.
pub fn unpack_pixels(w: u32) -> (p: (u8, u8, u8, u8))
    ensures
        p.0 as int == (w as int) % 256,
        p.1 as int == ((w as int) / 256) % 256,
        p.2 as int == ((w as int) / 65536) % 256,
        p.3 as int == ((w as int) / 16777216) % 256,
{
    ((w % 256) as u8, ((w / 256) % 256) as u8, ((w / 65536) % 256) as u8, (w / 16777216) as u8)
}

/// Law: packing four byte intensities and reading the word back byte by
/// byte recovers the tuple exactly, and the word fits 32 bits.
pub proof fn lemma_pack_round_trip(p0: int, p1: int, p2: int, p3: int)
    requires
        0 <= p0 < 256,
        0 <= p1 < 256,
        0 <= p2 < 256,
        0 <= p3 < 256,
    ensures
        packed_word(p0, p1, p2, p3) % 256 == p0,
        (packed_word(p0, p1, p2, p3) / 256) % 256 == p1,
        (packed_word(p0, p1, p2, p3) / 65536) % 256 == p2,
        (packed_word(p0, p1, p2, p3) / 16777216) % 256 == p3,
        0 <= packed_word(p0, p1, p2, p3) < 4294967296,
{
    let w = packed_word(p0, p1, p2, p3);
    lemma_fundamental_div_mod_converse(w, 256, p1 + 256 * p2 + 65536 * p3, p0);
    lemma_fundamental_div_mod_converse(p1 + 256 * p2 + 65536 * p3, 256, p2 + 256 * p3, p1);
    lemma_fundamental_div_mod_converse(w, 65536, p2 + 256 * p3, p0 + 256 * p1);
    lemma_fundamental_div_mod_converse(p2 + 256 * p3, 256, p3, p2);
    lemma_fundamental_div_mod_converse(w, 16777216, p3, p0 + 256 * p1 + 65536 * p2);
    lemma_fundamental_div_mod_converse(p3, 256, 0, p3);
}

} // verus!
