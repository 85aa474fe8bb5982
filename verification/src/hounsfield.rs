use vstd::prelude::*;

use crate::volume::Volume;

verus! {

/// Canonical intensity normalization: clamp a raw 12-bit-range sample to
/// `[0, 4095]`, then scale to `[0, 255]` with division that rounds toward
/// zero. The scale is 255 (not 256), so the result never leaves `[0, 255]`.
pub open spec fn hu_to_byte(value: int) -> int {
    let clamped = if value > 4095 {
        4095int
    } else {
        value
    };
    clamped * 255 / 4095
}

/// The normalized intensity always fits in a byte.
pub proof fn lemma_hu_to_byte_in_range(value: int)
    requires
        value >= 0,
    ensures
        0 <= hu_to_byte(value) <= 255,
{
    let clamped = if value > 4095 {
        4095int
    } else {
        value
    };
    assert(0 <= clamped * 255 <= 4095 * 255) by (nonlinear_arith)
        requires
            0 <= clamped <= 4095,
    ;
}

impl Volume {
    /// Maps one raw sample to its display intensity byte.
    pub fn normalize_hounsfield_units(value: u16) -> (r: u8)
        ensures
            r == hu_to_byte(value as int),
    {
        let clamped: u32 = if value > 4095 {
            4095
        } else {
            value as u32
        };
        proof {
            lemma_hu_to_byte_in_range(value as int);
        }
        ((clamped * 255) / 4095) as u8
    }
}

} // verus!
