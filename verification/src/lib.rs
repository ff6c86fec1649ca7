//! Core logic of a two-stage boot loader for an embedded ARM64 target.
//!
//! The loader receives a kernel image over a serial link, parses the
//! flattened device-tree blob describing the hardware, plans a physical
//! memory layout, builds the address-translation tables the next stage
//! runs under, and tracks free physical pages in a bitmap allocator.
//! This crate holds the parsing, planning and table-building logic;
//! the raw device drivers and the final control transfer live outside.

use vstd::prelude::*;

pub mod bitset;
pub mod boot;
pub mod codec;
pub mod elf;
pub mod fdt;
pub mod heap;
pub mod mem;
pub mod mmu;
pub mod proto;
pub mod time;
pub mod unit;

verus! {

/// What can go wrong while decoding one of the consumed binary formats
/// or while planning the boot. Every variant is fatal to the boot:
/// the caller prints a diagnostic and halts.
#[derive(Clone, Copy, Debug, PartialEq, Eq, Structural)]
pub enum Error {
    /// A structure extends past the end of the available bytes.
    Truncated,
    /// The leading identification bytes of a blob are wrong.
    BadMagic,
    /// The structure block holds a token kind that the format does not define.
    UnknownToken,
    /// A name or string entry is not NUL-terminated valid UTF-8.
    BadString,
    /// A property value or table entry has a size its interpretation
    /// does not allow.
    BadPropSize,
    /// The image has no loadable segment to derive a layout from.
    NoLoadSegment,
    /// A loadable segment the loader cannot place: out of bounds,
    /// unreadable, overlapping another, or past the physical window.
    BadSegment,
}

} // verus!
