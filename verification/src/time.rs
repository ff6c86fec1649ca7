//! Points and distances on the CPU's cycle counter.
//!
//! The hardware counter itself is read outside this crate; here a
//! cycle count is a plain value the rest of the loader can do
//! arithmetic on.

use vstd::prelude::*;

verus! {

/// A number of counter cycles.
#[derive(Clone, Copy, Debug, PartialEq, Eq, Structural)]
pub struct Cycle {
    count: u64,
}

impl Cycle {
    /// The stored cycle count.
    pub closed spec fn spec_value(self) -> u64 {
        self.count
    }

    /// Wrap a cycle count.
    pub fn new(count: u64) -> (r: Self)
        ensures
            r.spec_value() == count,
    {
        Cycle { count }
    }

    /// The stored cycle count.
    pub fn value(self) -> (r: u64)
        ensures
            r == self.spec_value(),
    {
        self.count
    }

    /// The count `delta` cycles later.
    pub fn add(self, delta: Cycle) -> (r: Cycle)
        requires
            self.spec_value() + delta.spec_value() <= u64::MAX,
        ensures
            r.spec_value() == self.spec_value() + delta.spec_value(),
    {
        Cycle { count: self.count + delta.count }
    }
}

/// A point in time: the counter's value at one instant. The read of
/// the hardware counter happens outside this crate; the value is
/// carried here.
#[derive(Clone, Copy, Debug, PartialEq, Eq, Structural)]
pub struct Instant {
    cycle: Cycle,
}

impl Instant {
    /// The counter value at this instant.
    pub closed spec fn spec_cycle(self) -> Cycle {
        self.cycle
    }

    /// Wrap a counter reading.
    pub fn new(cycle: Cycle) -> (r: Self)
        ensures
            r.spec_cycle() == cycle,
    {
        Instant { cycle }
    }

    /// The counter value at this instant.
    pub fn cycle(self) -> (r: Cycle)
        ensures
            r == self.spec_cycle(),
    {
        self.cycle
    }

    /// The instant `delta` cycles later.
    pub fn add(self, delta: Cycle) -> (r: Instant)
        requires
            self.spec_cycle().spec_value() + delta.spec_value() <= u64::MAX,
        ensures
            r.spec_cycle().spec_value() == self.spec_cycle().spec_value() + delta.spec_value(),
    {
        Instant { cycle: self.cycle.add(delta) }
    }
}

} // verus!
