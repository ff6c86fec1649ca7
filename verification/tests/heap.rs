//! The bump heap, memory units and cycle counts.

use rosin::heap::align;
use rosin::heap::bump::Allocator;
use rosin::time::Cycle;
use rosin::time::Instant;
use rosin::unit::Mem;

#[test]
fn addresses_round_up() {
    assert_eq!(align(0x1000, 8), 0x1000);
    assert_eq!(align(0x1001, 8), 0x1008);
    assert_eq!(align(0x1007, 16), 0x1010);
    assert_eq!(align(5, 1), 5);
}

#[test]
fn bump_allocation_walks_forward() {
    let mut heap = Allocator::new();
    heap.init(0x1000, 0x100);
    assert_eq!(heap.allocate(0x10, 8), Some(0x1000));
    assert_eq!(heap.allocate(0x01, 8), Some(0x1010));
    // The cursor rounds up to the requested alignment.
    assert_eq!(heap.allocate(0x10, 0x10), Some(0x1020));
}

#[test]
fn bump_exhaustion_returns_none() {
    let mut heap = Allocator::new();
    heap.init(0x1000, 0x20);
    assert_eq!(heap.allocate(0x20, 8), Some(0x1000));
    assert_eq!(heap.allocate(0x1, 8), None);
}

#[test]
fn bump_recycles_after_last_return() {
    let mut heap = Allocator::new();
    heap.init(0x1000, 0x100);
    heap.allocate(0x10, 8).unwrap();
    heap.allocate(0x10, 8).unwrap();
    heap.deallocate();
    // One allocation is still out: the cursor stays.
    assert_eq!(heap.allocate(0x10, 8), Some(0x1020));
    heap.deallocate();
    heap.deallocate();
    // All returned: the window is recycled.
    assert_eq!(heap.allocate(0x10, 8), Some(0x1000));
}

#[test]
fn units_convert_between_widths() {
    // Eight bytes are two 4-byte cells.
    let bytes = Mem::new(8, 0);
    assert_eq!(bytes.convert(2), 2);
    // Two 4-byte cells are eight bytes.
    let cells = Mem::new(2, 2);
    assert_eq!(cells.convert(0), 8);
    assert_eq!(cells.value(), 2);
    // Converting to a coarser unit drops the remainder.
    assert_eq!(Mem::new(9, 0).convert(2), 2);
}

#[test]
fn cycles_accumulate() {
    let start = Instant::new(Cycle::new(100));
    let later = start.add(Cycle::new(50));
    assert_eq!(later.cycle().value(), 150);
    assert_eq!(Cycle::new(1).add(Cycle::new(2)).value(), 3);
}
