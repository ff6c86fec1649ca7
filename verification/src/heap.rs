//! A bump heap over one fixed window of addresses.
//!
//! The simplest allocator that can back early boot: a cursor walks
//! forward through the window, each allocation rounds it up to the
//! requested alignment, and the whole window is recycled only once
//! every allocation has been returned.

use vstd::prelude::*;

pub mod bump;

verus! {

/// `addr` rounded up to the next multiple of the power-of-two
/// `align`.
pub open spec fn spec_align_to(addr: int, align: int) -> int {
    addr + ((align - addr % align) % align)
}

/// Round `addr` up to the next multiple of the power-of-two
/// `alignment`.
pub fn align(addr: usize, alignment: usize) -> (r: usize)
    requires
        alignment > 0,
        addr + alignment <= usize::MAX,
    ensures
        r == spec_align_to(addr as int, alignment as int),
        r % alignment == 0,
        addr <= r < addr + alignment,
{
    proof {
        let a = addr as int;
        let g = alignment as int;
        assert(0 <= (g - a % g) % g < g) by (nonlinear_arith)
            requires
                g > 0,
                a >= 0,
        ;
        assert((a + ((g - a % g) % g)) % g == 0) by (nonlinear_arith)
            requires
                g > 0,
                a >= 0,
        ;
        assert((g - a % g) % g == if a % g == 0 {
            0int
        } else {
            g - a % g
        }) by (nonlinear_arith)
            requires
                g > 0,
                a >= 0,
        ;
    }
    if addr % alignment == 0 {
        addr
    } else {
        addr + (alignment - addr % alignment)
    }
}

} // verus!
