//! Byte-level decoding helpers.

use rosin::codec::align4;
use rosin::codec::bytes_eq;
use rosin::codec::read_be32;
use rosin::codec::read_be64;
use rosin::codec::read_le16;
use rosin::codec::read_le32;
use rosin::codec::read_le64;

#[test]
fn big_endian_fields() {
    let bytes = [0xD0, 0x0D, 0xFE, 0xED, 0x00, 0x00, 0x00, 0x28];
    assert_eq!(read_be32(&bytes, 0), 0xD00D_FEED);
    assert_eq!(read_be32(&bytes, 4), 0x28);
    assert_eq!(read_be64(&bytes, 0), 0xD00D_FEED_0000_0028);
}

#[test]
fn little_endian_fields() {
    let bytes = [0x05, 0x00, 0x00, 0x00, 0x00, 0x00, 0x00, 0x00];
    assert_eq!(read_le64(&bytes, 0), 5);
    assert_eq!(read_le32(&bytes, 0), 5);
    assert_eq!(read_le16(&bytes, 0), 5);
    let entry = [0x00, 0x00, 0x08, 0x00, 0xFF, 0xFF, 0xFF, 0xFF];
    assert_eq!(read_le64(&entry, 0), 0xFFFF_FFFF_0008_0000);
}

#[test]
fn byte_equality() {
    assert!(bytes_eq(b"memory", b"memory"));
    assert!(!bytes_eq(b"memory", b"memori"));
    assert!(!bytes_eq(b"memory", b"memor"));
    assert!(bytes_eq(b"", b""));
}

#[test]
fn word_alignment() {
    assert_eq!(align4(0), 0);
    assert_eq!(align4(1), 4);
    assert_eq!(align4(4), 4);
    assert_eq!(align4(7), 8);
}
