//! Memory quantities in units of a power-of-two byte width.
//!
//! A `Mem` counts units of `2^shift` bytes: shift zero counts bytes,
//! shift two counts 4-byte cells. Converting to a coarser unit drops
//! the remainder, like the address arithmetic it stands for.

use vstd::prelude::*;

verus! {

/// A quantity of memory in units of `2^shift` bytes.
#[derive(Clone, Copy, Debug, PartialEq, Eq, Structural)]
pub struct Mem {
    value: usize,
    shift: usize,
}

/// A quantity of memory counted in single bytes.
pub type Byte = Mem;

impl Mem {
    /// The stored count of units.
    pub closed spec fn spec_value(self) -> usize {
        self.value
    }

    /// The width of one unit, as a power-of-two exponent.
    pub closed spec fn spec_shift(self) -> usize {
        self.shift
    }

    /// Wrap a count of units of `2^shift` bytes.
    pub fn new(len: usize, shift: usize) -> (r: Self)
        requires
            shift < 32,
        ensures
            r.spec_value() == len,
            r.spec_shift() == shift,
    {
        Mem { value: len, shift }
    }

    /// The same quantity counted in units of `2^target` bytes;
    /// converting to a coarser unit drops the remainder.
    pub fn convert(&self, target: usize) -> (r: usize)
        requires
            self.spec_shift() < 32,
            target < 32,
        ensures
            target >= self.spec_shift() ==> r == self.spec_value() >> ((target
                - self.spec_shift()) as usize),
            target < self.spec_shift() ==> r == (self.spec_value() << ((self.spec_shift()
                - target) as usize)) as usize,
    {
        if target >= self.shift {
            self.value >> (target - self.shift)
        } else {
            self.value << (self.shift - target)
        }
    }

    /// The stored count of units.
    pub fn value(&self) -> (r: usize)
        ensures
            r == self.spec_value(),
    {
        self.value
    }
}

} // verus!
