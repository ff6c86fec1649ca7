//! Page identifiers.
//!
//! A page id is a physical address shifted right by the 64 KiB granule
//! width; it is the bit position the allocator's bitmap uses for that
//! page.

use vstd::prelude::*;

use crate::mem::Phys;

verus! {

/// Width of the page granule in bits: pages are 64 KiB.
pub const GRANULE_BITS: u64 = 16;

/// Size of one page in bytes.
pub const GRANULE: u64 = 0x1_0000;

/// The index of one physical page.
#[derive(Clone, Copy, Debug, PartialEq, Eq, Structural)]
pub struct Id {
    index: u64,
}

impl View for Id {
    type V = u64;

    closed spec fn view(&self) -> u64 {
        self.index
    }
}

impl Id {
    /// Wrap a raw page index.
    pub fn from_usize(index: usize) -> (r: Self)
        ensures
            r@ == index,
    {
        Id { index: index as u64 }
    }

    /// The raw page index.
    pub fn into_usize(self) -> (r: usize)
        requires
            self@ <= usize::MAX,
        ensures
            r == self@,
    {
        self.index as usize
    }

    /// The id of the page holding the given physical address.
    pub fn from_phys(phys: Phys) -> (r: Self)
        ensures
            r@ == phys@ >> GRANULE_BITS,
    {
        Id { index: phys.value() >> GRANULE_BITS }
    }

    /// The physical address where this page begins.
    pub fn base(self) -> (r: Phys)
        requires
            self@ < 0x1_0000,
        ensures
            r@ == self@ * GRANULE,
            r.wf(),
    {
        let x = self.index;
        let address = x << GRANULE_BITS;
        assert(x < 0x1_0000 ==> (x << 16u64) == x * 0x1_0000 && (x << 16u64) < 0x1_0000_0000)
            by (bit_vector);
        Phys::new(address)
    }
}

} // verus!
