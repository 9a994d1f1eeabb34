//! Bit-field extraction.
use vstd::prelude::*;
use vstd::std_specs::bits::{axiom_u32_trailing_zeros, u32_trailing_zeros};

verus! {

/// The bits of `i` that `mask` selects, shifted down so that the lowest bit of the
/// mask lands at bit 0. A zero mask would shift by the full width, which Rust
/// refuses, so `requires` leaves it out.
pub fn get_segment(i: u32, mask: u32) -> (r: u32)
    requires
        mask != 0,
    ensures
        r == (i & mask) >> u32_trailing_zeros(mask),
{
    proof {
        axiom_u32_trailing_zeros(mask);
    }
    (i & mask) >> mask.trailing_zeros()
}

/// Extracting a segment loses nothing: shifting it back up by the mask's trailing
/// zeros gives exactly the masked bits of `i`.
pub proof fn lemma_segment_shift_back(i: u32, mask: u32)
    requires
        mask != 0,
    ensures
        ((i & mask) >> u32_trailing_zeros(mask)) << u32_trailing_zeros(mask) == i & mask,
{
    axiom_u32_trailing_zeros(mask);
    let t = u32_trailing_zeros(mask);
    assert(t < 32 && mask << ((32 - t) as u32) == 0 ==> ((i & mask) >> t) << t == i & mask)
        by (bit_vector);
}

} // verus!
