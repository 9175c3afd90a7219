//! Bit-field primitives: get and set of an inclusive bit range `[lo, hi]`
//! within a 32-bit word, and the width check used before a field is placed.

use vstd::prelude::*;

verus! {

/// Mask with the low `width` bits set; all 32 bits for `width >= 32`.
pub open spec fn width_mask(width: u32) -> u32 {
    if width >= 32 {
        0xffff_ffffu32
    } else {
        ((1u32 << width) - 1) as u32
    }
}

/// The bits of `word` in the inclusive range `[lo, hi]`, shifted down to bit 0.
pub open spec fn spec_get_bits(word: u32, hi: u32, lo: u32) -> u32
    recommends
        lo <= hi < 32,
{
    (word >> lo) & width_mask((hi - lo + 1) as u32)
}

/// `word` with `value` (masked to the range's width) OR-ed into the
/// inclusive bit range `[lo, hi]`.
pub open spec fn spec_set_bits(word: u32, hi: u32, lo: u32, value: u32) -> u32
    recommends
        lo <= hi < 32,
{
    word | ((value & width_mask((hi - lo + 1) as u32)) << lo)
}

/// Whether `value` fits in a field `width` bits wide. A width of 31 or more
/// is treated as the full unsigned range.
pub open spec fn spec_fits_in_bits(value: usize, width: u8) -> bool {
    width >= 31 || value <= (1usize << width as usize) - 1
}

/// Extract the inclusive bit range `[lo, hi]` of `word`.
pub fn get_bits(word: u32, hi: u8, lo: u8) -> (r: u32)
    requires
        lo <= hi < 32,
    ensures
        r == spec_get_bits(word, hi as u32, lo as u32),
{
    let width: u32 = (hi - lo + 1) as u32;
    let mask: u32 = if width == 32 {
        u32::MAX
    } else {
        proof {
            assert(width < 32 ==> 1u32 << width >= 1) by (bit_vector);
        }
        (1u32 << width) - 1
    };
    (word >> (lo as u32)) & mask
}

/// OR `value` (masked to the range's width) into the inclusive bit range
/// `[lo, hi]` of `word`.
pub fn set_bits(word: &mut u32, hi: u8, lo: u8, value: u32)
    requires
        lo <= hi < 32,
    ensures
        *final(word) == spec_set_bits(*old(word), hi as u32, lo as u32, value),
{
    let width: u32 = (hi - lo + 1) as u32;
    let mask: u32 = if width == 32 {
        u32::MAX
    } else {
        proof {
            assert(width < 32 ==> 1u32 << width >= 1) by (bit_vector);
        }
        (1u32 << width) - 1
    };
    let shift: u32 = lo as u32;
    *word = *word | ((value & mask) << shift);
}

/// Whether `value` fits in a field `width` bits wide.
pub fn fits_in_bits(value: usize, width: u8) -> (r: bool)
    ensures
        r == spec_fits_in_bits(value, width),
{
    if width >= 31 {
        return true;
    }
    proof {
        assert(width < 31 ==> 1usize << (width as usize) >= 1) by (bit_vector);
    }
    value <= (1usize << (width as usize)) - 1
}

/// Bit isolation: writing one field never disturbs a disjoint field.
pub proof fn lemma_set_bits_preserves_disjoint(
    w: u32,
    hi1: u32,
    lo1: u32,
    v: u32,
    hi2: u32,
    lo2: u32,
)
    requires
        lo1 <= hi1 < 32,
        lo2 <= hi2 < 32,
        hi2 < lo1 || hi1 < lo2,
    ensures
        spec_get_bits(spec_set_bits(w, hi1, lo1, v), hi2, lo2) == spec_get_bits(w, hi2, lo2),
{
    assert(spec_get_bits(spec_set_bits(w, hi1, lo1, v), hi2, lo2) == spec_get_bits(w, hi2, lo2))
        by (bit_vector)
        requires
            lo1 <= hi1 < 32,
            lo2 <= hi2 < 32,
            hi2 < lo1 || hi1 < lo2,
    ;
}

} // verus!
