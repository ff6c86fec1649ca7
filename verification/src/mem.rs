//! Typed physical and virtual addresses.
//!
//! Physical addresses on this target fit in 32 bits. Virtual addresses
//! carry an address-space tag: `Kernel` addresses live in the high
//! half and are unrestricted, `User` addresses must lie below the
//! kernel offset. The tag keeps a low identity address from being
//! installed into the high table and vice versa.

use core::marker::PhantomData;
use vstd::prelude::*;

pub mod allocator;
pub mod page;

verus! {

/// Where the high-half (kernel) address window begins.
pub const OFFSET: u64 = 0xFFFF_FFFF_0000_0000;

/// An address-space tag: a range rule for virtual addresses.
pub trait AddressSpace: Sized {
    /// The range rule of this address space.
    spec fn spec_valid(address: u64) -> bool;

    /// Decide the range rule at run time.
    fn validate(address: u64) -> (r: bool)
        ensures
            r == Self::spec_valid(address),
    ;
}

/// Tag of the high-half address space the loaded image runs in.
#[derive(Clone, Copy, Debug, PartialEq, Eq, Structural)]
pub struct Kernel;

/// Tag of the low identity-mapped address space used only to bridge
/// the instant of the translation switch.
#[derive(Clone, Copy, Debug, PartialEq, Eq, Structural)]
pub struct User;

impl AddressSpace for Kernel {
    open spec fn spec_valid(address: u64) -> bool {
        true
    }

    fn validate(address: u64) -> bool {
        true
    }
}

impl AddressSpace for User {
    open spec fn spec_valid(address: u64) -> bool {
        address < OFFSET
    }

    fn validate(address: u64) -> bool {
        address < OFFSET
    }
}

/// A physical address, validated to fit the 32-bit physical window.
#[derive(Clone, Copy, Debug, PartialEq, Eq, Structural)]
pub struct Phys {
    address: u64,
}

impl View for Phys {
    type V = u64;

    closed spec fn view(&self) -> u64 {
        self.address
    }
}

impl Phys {
    /// True when the address fits the physical window.
    pub open spec fn wf(self) -> bool {
        self@ < 0x1_0000_0000
    }

    /// Wrap a physical address. Addresses outside the 32-bit window
    /// are a loader bug and are ruled out up front.
    pub fn new(address: u64) -> (r: Self)
        requires
            address < 0x1_0000_0000,
        ensures
            r@ == address,
            r.wf(),
    {
        Phys { address }
    }

    /// The numeric address.
    pub fn value(self) -> (r: u64)
        ensures
            r == self@,
    {
        self.address
    }
}

/// A virtual address in the address space tagged by `S`.
pub struct Virt<S> {
    address: u64,
    _space: PhantomData<S>,
}

impl<S> Clone for Virt<S> {
    fn clone(&self) -> (r: Self)
        ensures
            r@ == self@,
    {
        Virt { address: self.address, _space: PhantomData }
    }
}

impl<S> Copy for Virt<S> {

}

impl<S> View for Virt<S> {
    type V = u64;

    closed spec fn view(&self) -> u64 {
        self.address
    }
}

impl<S: AddressSpace> Virt<S> {
    /// True when the address obeys the range rule of `S`.
    pub open spec fn wf(self) -> bool {
        S::spec_valid(self@)
    }

    /// Wrap a virtual address. An address outside the range of `S`
    /// is a loader bug and is ruled out up front.
    pub fn new(address: u64) -> (r: Self)
        requires
            S::spec_valid(address),
        ensures
            r@ == address,
            r.wf(),
    {
        Virt { address, _space: PhantomData }
    }

    /// The numeric address.
    pub fn value(self) -> (r: u64)
        ensures
            r == self@,
    {
        self.address
    }
}

} // verus!
