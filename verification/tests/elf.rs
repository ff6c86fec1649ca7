//! ELF header and program-header parsing.

use rosin::elf::parse_ehdr;
use rosin::elf::segments;
use rosin::elf::Ehdr;
use rosin::elf::PF_R;
use rosin::elf::PF_X;
use rosin::elf::PT_LOAD;
use rosin::Error;

fn write_le64(image: &mut [u8], off: usize, value: u64) {
    image[off..off + 8].copy_from_slice(&value.to_le_bytes());
}

fn write_le32(image: &mut [u8], off: usize, value: u32) {
    image[off..off + 4].copy_from_slice(&value.to_le_bytes());
}

fn write_le16(image: &mut [u8], off: usize, value: u16) {
    image[off..off + 2].copy_from_slice(&value.to_le_bytes());
}

/// A minimal 64-bit little-endian image with one program header.
fn sample_image() -> Vec<u8> {
    let mut image = vec![0u8; 0x1100];
    image[0..6].copy_from_slice(&[0x7F, 0x45, 0x4C, 0x46, 2, 1]);
    write_le64(&mut image, 24, 0xFFFF_FFFF_0008_0000);
    write_le64(&mut image, 32, 64);
    write_le16(&mut image, 54, 56);
    write_le16(&mut image, 56, 1);
    // The one program header.
    write_le32(&mut image, 64, PT_LOAD);
    write_le32(&mut image, 68, PF_R | PF_X);
    write_le64(&mut image, 72, 0x1000);
    write_le64(&mut image, 80, 0xFFFF_FFFF_0008_0000);
    write_le64(&mut image, 88, 0x8_0000);
    write_le64(&mut image, 96, 0x100);
    write_le64(&mut image, 104, 0x200);
    for i in 0..0x100 {
        image[0x1000 + i] = (i % 251) as u8;
    }
    image
}

#[test]
fn header_fields_decode() {
    let image = sample_image();
    let header = parse_ehdr(&image).expect("well-formed header");
    assert_eq!(header.entry, 0xFFFF_FFFF_0008_0000);
    assert_eq!(header.phoff, 64);
    assert_eq!(header.phentsize, 56);
    assert_eq!(header.phnum, 1);
}

#[test]
fn identification_is_checked() {
    let image = sample_image();
    let mut broken = image.clone();
    broken[1] = 0x46;
    assert_eq!(parse_ehdr(&broken), Err(Error::BadMagic));
    let mut wrong_class = image.clone();
    wrong_class[4] = 1;
    assert_eq!(parse_ehdr(&wrong_class), Err(Error::BadMagic));
    assert_eq!(parse_ehdr(&image[..32]), Err(Error::Truncated));
}

#[test]
fn program_headers_decode() {
    let image = sample_image();
    let header = parse_ehdr(&image).expect("well-formed header");
    let segs = segments(&image, &header).expect("in-bounds table");
    assert_eq!(segs.len(), 1);
    assert_eq!(segs[0].p_type, PT_LOAD);
    assert_eq!(segs[0].p_flags, PF_R | PF_X);
    assert_eq!(segs[0].p_offset, 0x1000);
    assert_eq!(segs[0].p_vaddr, 0xFFFF_FFFF_0008_0000);
    assert_eq!(segs[0].p_paddr, 0x8_0000);
    assert_eq!(segs[0].p_filesz, 0x100);
    assert_eq!(segs[0].p_memsz, 0x200);
}

#[test]
fn segment_table_bounds_are_checked() {
    let image = sample_image();
    let odd_size = Ehdr { entry: 0, phoff: 64, phentsize: 40, phnum: 1 };
    assert_eq!(segments(&image, &odd_size), Err(Error::BadPropSize));
    let out_of_bounds = Ehdr { entry: 0, phoff: 0x10F0, phentsize: 56, phnum: 1 };
    assert_eq!(segments(&image, &out_of_bounds), Err(Error::Truncated));
}
