//! The physical-page bitmap allocator.

use rosin::mem::allocator::Page;
use rosin::mem::allocator::CAPACITY;
use rosin::mem::page::Id;

#[test]
fn allocation_is_lowest_first() {
    let mut pages = Page::new();
    pages.clear();
    assert_eq!(pages.allocate().unwrap().into_usize(), 0);
    assert_eq!(pages.allocate().unwrap().into_usize(), 1);
    assert_eq!(pages.allocate().unwrap().into_usize(), 2);
    assert_eq!(pages.len(), 3);
}

#[test]
fn reserve_removes_pages_idempotently() {
    let mut pages = Page::new();
    pages.clear();
    pages.reserve(Id::from_usize(0));
    pages.reserve(Id::from_usize(1));
    pages.reserve(Id::from_usize(1));
    assert!(pages.is_used(0));
    assert!(pages.is_used(1));
    assert!(!pages.is_used(2));
    assert_eq!(pages.len(), 2);
    // Allocation never hands out a page already in use.
    assert_eq!(pages.allocate().unwrap().into_usize(), 2);
}

#[test]
fn deallocate_frees_the_page() {
    let mut pages = Page::new();
    pages.clear();
    let a = pages.allocate().unwrap();
    let b = pages.allocate().unwrap();
    assert_eq!(a.into_usize(), 0);
    assert_eq!(b.into_usize(), 1);
    pages.deallocate(a);
    assert!(!pages.is_used(0));
    // The freed page is the lowest free one again.
    assert_eq!(pages.allocate().unwrap().into_usize(), 0);
}

#[test]
fn exhaustion_returns_none_exactly_when_full() {
    let mut pages = Page::new();
    pages.clear();
    for i in 0..CAPACITY {
        let id = pages.allocate().expect("pages should remain");
        assert_eq!(id.into_usize(), i);
    }
    assert_eq!(pages.len(), CAPACITY);
    assert!(pages.allocate().is_none());
    pages.deallocate(Id::from_usize(77));
    assert_eq!(pages.allocate().unwrap().into_usize(), 77);
    assert!(pages.allocate().is_none());
}

#[test]
fn clear_frees_everything() {
    let mut pages = Page::new();
    pages.reserve(Id::from_usize(5));
    pages.clear();
    assert!(!pages.is_used(5));
    assert!(pages.is_empty());
    assert_eq!(Page::size_of(), CAPACITY / 8);
}
