//! Page-table construction and descriptor encoding.

use rosin::mem::Kernel;
use rosin::mem::Phys;
use rosin::mem::User;
use rosin::mem::Virt;
use rosin::mmu::Attr;
use rosin::mmu::PageTable;
use rosin::mmu::MMIO_BASE;

const KERNEL_OFFSET: u64 = 0xFFFF_FFFF_0000_0000;

fn desc_address(desc: u64) -> u64 {
    ((desc >> 16) & 0xFFFF_FFFF) << 16
}

fn desc_valid(desc: u64) -> bool {
    desc & 1 == 1
}

fn desc_pxn(desc: u64) -> bool {
    (desc >> 53) & 1 == 1
}

fn desc_writable(desc: u64) -> bool {
    (desc >> 6) & 0x3 == 0
}

#[test]
fn map_installs_an_executable_descriptor() {
    let mut table: PageTable<Kernel> = PageTable::new(Phys::new(0x9_0000));
    let virt = Virt::<Kernel>::new(0x8_0000 + KERNEL_OFFSET);
    table.map(virt, Phys::new(0x8_0000), Attr::Normal { read: true, write: false, execute: true });
    let desc = table.lookup(virt);
    assert!(desc_valid(desc));
    // The decoded physical field is the page-aligned physical address,
    // and the execute-deny bit is clear.
    assert_eq!(desc_address(desc), 0x8_0000);
    assert!(!desc_pxn(desc));
    assert!(!desc_writable(desc));
}

#[test]
fn map_rejects_unreadable_attributes() {
    // A mapping that cannot be read has no hardware encoding and is
    // rejected up front.
    let attr = Attr::Normal { read: false, write: true, execute: false };
    assert!(!attr.is_valid());
    assert!(Attr::Device.is_valid());
    assert!((Attr::Normal { read: true, write: true, execute: false }).is_valid());
}

#[test]
fn writable_descriptor_differs() {
    let mut table: PageTable<Kernel> = PageTable::new(Phys::new(0x9_0000));
    let virt = Virt::<Kernel>::new(0x8_0000 + KERNEL_OFFSET);
    table.map(virt, Phys::new(0x8_0000), Attr::Normal { read: true, write: true, execute: false });
    let desc = table.lookup(virt);
    assert!(desc_valid(desc));
    assert!(desc_pxn(desc));
    assert!(desc_writable(desc));
}

#[test]
fn init_links_tables_and_maps_devices() {
    let mut table: PageTable<User> = PageTable::new(Phys::new(0x10_0000));
    table.init(0);
    // Each top-level descriptor links one leaf array of the table's
    // own backing pages.
    for i in 0..8u64 {
        let entry = table.l2_entry(i as usize);
        assert_eq!(entry & 0x3, 0x3);
        assert_eq!((entry >> 16) << 16, 0x10_0000 + i * 0x1_0000);
    }
    // The identity table maps the MMIO window at its own addresses.
    let virt = Virt::<User>::new(MMIO_BASE);
    let desc = table.lookup(virt);
    assert!(desc_valid(desc));
    assert_eq!(desc_address(desc), MMIO_BASE);
    // Device mappings deny execution at both privilege levels and
    // carry the device memory-attribute index (zero).
    assert_eq!((desc >> 53) & 1, 1);
    assert_eq!((desc >> 54) & 1, 1);
    assert_eq!((desc >> 2) & 0x7, 0);
}

#[test]
fn translated_table_maps_itself() {
    let mut table: PageTable<Kernel> = PageTable::new(Phys::new(0x9_0000));
    table.init(KERNEL_OFFSET);
    // The table's own nine pages are reachable after the switch.
    for k in 0..9u64 {
        let phys = 0x9_0000 + k * 0x1_0000;
        let virt = Virt::<Kernel>::new(phys + KERNEL_OFFSET);
        let desc = table.lookup(virt);
        assert!(desc_valid(desc));
        assert_eq!(desc_address(desc), phys);
        assert!(desc_writable(desc));
        assert!(desc_pxn(desc));
    }
    // An untouched slot holds no mapping.
    let hole = Virt::<Kernel>::new(0x2000_0000 + KERNEL_OFFSET);
    assert_eq!(table.lookup(hole), 0);
}
