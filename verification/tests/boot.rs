//! The whole boot sequence against a modeled physical memory.

use rosin::boot::load;
use rosin::boot::plan;
use rosin::boot::segment_attr;
use rosin::elf::Phdr;
use rosin::elf::PF_R;
use rosin::elf::PF_W;
use rosin::elf::PF_X;
use rosin::elf::PT_LOAD;
use rosin::mem::Kernel;
use rosin::mem::Virt;
use rosin::mmu::Attr;
use rosin::Error;

const KERNEL_OFFSET: u64 = 0xFFFF_FFFF_0000_0000;

fn write_le64(image: &mut [u8], off: usize, value: u64) {
    image[off..off + 8].copy_from_slice(&value.to_le_bytes());
}

fn write_le32(image: &mut [u8], off: usize, value: u32) {
    image[off..off + 4].copy_from_slice(&value.to_le_bytes());
}

fn write_le16(image: &mut [u8], off: usize, value: u16) {
    image[off..off + 2].copy_from_slice(&value.to_le_bytes());
}

/// One readable and executable segment: physical `0x80000`, virtual
/// `0x80000` plus the kernel offset, `0x100` file bytes, `0x200`
/// memory bytes.
fn sample_image() -> Vec<u8> {
    let mut image = vec![0u8; 0x1100];
    image[0..6].copy_from_slice(&[0x7F, 0x45, 0x4C, 0x46, 2, 1]);
    write_le64(&mut image, 24, 0x8_0000 + KERNEL_OFFSET);
    write_le64(&mut image, 32, 64);
    write_le16(&mut image, 54, 56);
    write_le16(&mut image, 56, 1);
    write_le32(&mut image, 64, PT_LOAD);
    write_le32(&mut image, 68, PF_R | PF_X);
    write_le64(&mut image, 72, 0x1000);
    write_le64(&mut image, 80, 0x8_0000 + KERNEL_OFFSET);
    write_le64(&mut image, 88, 0x8_0000);
    write_le64(&mut image, 96, 0x100);
    write_le64(&mut image, 104, 0x200);
    for i in 0..0x100 {
        image[0x1000 + i] = (i % 251) as u8;
    }
    image
}

#[test]
fn end_to_end_single_segment() {
    let image = sample_image();
    let dtb: Vec<u8> = (0..32u8).collect();
    let mut mem = vec![0xAAu8; 0x14_0000];
    let boot = load(&image, &dtb, &mut mem).expect("the image should load");

    // The layout: heap above the segment end, blocks in order.
    assert_eq!(boot.layout.heap_base, 0x9_0000);
    assert_eq!(boot.layout.offset, KERNEL_OFFSET);
    assert_eq!(boot.layout.table_kernel, 0x9_0000);
    assert_eq!(boot.layout.allocator_base, 0x12_0000);
    assert_eq!(boot.layout.dtb_dst, 0x13_0000);
    assert_eq!(boot.layout.table_identity, 0x13_0000 + 0x1_0000);
    assert_eq!(boot.entry, 0x8_0000);

    // The segment's file bytes land at its physical address, and the
    // rest of its memory size is zero-filled.
    for i in 0..0x100usize {
        assert_eq!(mem[0x8_0000 + i], (i % 251) as u8);
    }
    for i in 0x100..0x200usize {
        assert_eq!(mem[0x8_0000 + i], 0);
    }
    // Memory just past the segment is untouched.
    assert_eq!(mem[0x8_0200], 0xAA);

    // The relocated blob.
    for i in 0..32usize {
        assert_eq!(mem[0x13_0000 + i], i as u8);
    }

    // The kernel table maps the segment's page with execution
    // permitted.
    let virt = Virt::<Kernel>::new(0x8_0000 + KERNEL_OFFSET);
    let desc = boot.table_kernel.lookup(virt);
    assert_eq!(desc & 1, 1);
    assert_eq!(((desc >> 16) & 0xFFFF_FFFF) << 16, 0x8_0000);
    assert_eq!((desc >> 53) & 1, 0);

    // The blob's page is mapped read-only.
    let blob_virt = Virt::<Kernel>::new(0x13_0000 + KERNEL_OFFSET);
    let blob_desc = boot.table_kernel.lookup(blob_virt);
    assert_eq!(blob_desc & 1, 1);
    assert_eq!(((blob_desc >> 16) & 0xFFFF_FFFF) << 16, 0x13_0000);
    assert_ne!((blob_desc >> 6) & 0x3, 0);

    // The identity table bridges the first executable page.
    let identity_virt = rosin::mem::Virt::<rosin::mem::User>::new(0x8_0000);
    let identity_desc = boot.table_identity.lookup(identity_virt);
    assert_eq!(identity_desc & 1, 1);
    assert_eq!(((identity_desc >> 16) & 0xFFFF_FFFF) << 16, 0x8_0000);

    // The allocator tracks the loader's own pages and the segment.
    let pages = &boot.allocator;
    assert!(pages.is_used(0x8));  // the loaded segment
    assert!(pages.is_used(0x9));  // the kernel table's first page
    assert!(pages.is_used(0x11));  // the kernel table's last page
    assert!(pages.is_used(0x12));  // the allocator bitmap
    assert!(pages.is_used(0x13));  // the relocated blob
    assert!(!pages.is_used(0x7));
    assert!(!pages.is_used(0x14));  // the identity table is throwaway
}

#[test]
fn bad_identification_fails_the_boot() {
    let mut image = sample_image();
    image[0] = 0;
    let dtb = vec![0u8; 16];
    let mut mem = vec![0u8; 0x14_0000];
    assert!(matches!(load(&image, &dtb, &mut mem), Err(Error::BadMagic)));
}

#[test]
fn missing_load_segment_fails_the_boot() {
    let mut image = sample_image();
    write_le32(&mut image, 64, 2);
    let dtb = vec![0u8; 16];
    let mut mem = vec![0u8; 0x14_0000];
    assert!(matches!(load(&image, &dtb, &mut mem), Err(Error::NoLoadSegment)));
}

#[test]
fn unreadable_segment_fails_the_boot() {
    let mut image = sample_image();
    write_le32(&mut image, 68, PF_X);
    let dtb = vec![0u8; 16];
    let mut mem = vec![0u8; 0x14_0000];
    assert!(matches!(load(&image, &dtb, &mut mem), Err(Error::BadSegment)));
}

#[test]
fn small_memory_fails_the_boot() {
    let image = sample_image();
    let dtb = vec![0u8; 16];
    let mut mem = vec![0u8; 0x10_0000];
    assert!(matches!(load(&image, &dtb, &mut mem), Err(Error::Truncated)));
}

#[test]
fn layout_is_planned_from_the_segments() {
    let segs = vec![
        Phdr {
            p_type: PT_LOAD,
            p_flags: PF_R | PF_W,
            p_offset: 0,
            p_vaddr: 0x2_0000 + KERNEL_OFFSET,
            p_paddr: 0x2_0000,
            p_filesz: 0x80,
            p_memsz: 0x80,
        },
        Phdr {
            p_type: 4,
            p_flags: 0,
            p_offset: 0,
            p_vaddr: 0,
            p_paddr: 0,
            p_filesz: 0,
            p_memsz: 0,
        },
        Phdr {
            p_type: PT_LOAD,
            p_flags: PF_R,
            p_offset: 0x80,
            p_vaddr: 0x8_0000 + KERNEL_OFFSET,
            p_paddr: 0x8_0000,
            p_filesz: 0x10,
            p_memsz: 0x1_0010,
        },
    ];
    let layout = plan(&segs, 100).expect("loadable segments exist");
    // The heap starts at the page boundary above the highest end.
    assert_eq!(layout.heap_base, 0xA_0000);
    assert_eq!(layout.offset, KERNEL_OFFSET);
    assert_eq!(layout.allocator_base, 0x13_0000);
    assert_eq!(layout.dtb_dst, 0x14_0000);
    assert_eq!(layout.table_identity, 0x15_0000);

    let none: Vec<Phdr> = Vec::new();
    assert_eq!(plan(&none, 0), Err(Error::NoLoadSegment));
}

#[test]
fn attributes_follow_segment_flags() {
    assert_eq!(
        segment_attr(PF_R | PF_X),
        Attr::Normal { read: true, write: false, execute: true },
    );
    assert_eq!(
        segment_attr(PF_R | PF_W),
        Attr::Normal { read: true, write: true, execute: false },
    );
}
