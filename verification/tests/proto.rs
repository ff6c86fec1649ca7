//! The serial handoff protocol.

use rosin::proto::find_sync;
use rosin::proto::receive;
use rosin::proto::Action;
use rosin::proto::Receiver;

#[test]
fn handshake_full_frame() {
    // Leading garbage, the synchronization run, a little-endian
    // length of five, then the payload.
    let mut stream: Vec<u8> = vec![0xAA];
    stream.extend([0xFF; 8]);
    stream.extend([0x05, 0x00, 0x00, 0x00, 0x00, 0x00, 0x00, 0x00]);
    stream.extend(*b"Hello");
    assert_eq!(find_sync(&stream), Some(9));
    let payload = receive(&stream).expect("frame should decode");
    assert_eq!(payload, b"Hello");
}

#[test]
fn handshake_byte_by_byte() {
    let mut receiver = Receiver::new();
    assert_eq!(receiver.push(0xAA), Action::Continue);
    for _ in 0..7 {
        assert_eq!(receiver.push(0xFF), Action::Continue);
    }
    assert_eq!(receiver.push(0xFF), Action::Ack);
    let length = [0x05, 0x00, 0x00, 0x00, 0x00, 0x00, 0x00, 0x00];
    for i in 0..7 {
        assert_eq!(receiver.push(length[i]), Action::Continue);
    }
    assert_eq!(receiver.push(length[7]), Action::Continue);
    for (i, byte) in b"Hell".iter().enumerate() {
        assert_eq!(receiver.push(*byte), Action::Store { index: i as u64 });
    }
    assert_eq!(receiver.push(b'o'), Action::Finish { index: 4 });
    assert_eq!(receiver.push(0x42), Action::Continue);
}

#[test]
fn sync_restarts_on_garbage() {
    // A broken run must restart the count: seven ones, garbage, then a
    // full run of eight.
    let mut stream: Vec<u8> = vec![0xFF; 7];
    stream.push(0x00);
    stream.extend([0xFF; 8]);
    assert_eq!(find_sync(&stream), Some(16));
}

#[test]
fn no_sync_no_frame() {
    let stream = [0xFF; 7];
    assert_eq!(find_sync(&stream), None);
    assert!(receive(&stream).is_none());
}

#[test]
fn truncated_payload_is_rejected() {
    let mut stream: Vec<u8> = vec![0xFF; 8];
    stream.extend([0x05, 0x00, 0x00, 0x00, 0x00, 0x00, 0x00, 0x00]);
    stream.extend(*b"Hell");
    assert!(receive(&stream).is_none());
}

#[test]
fn zero_length_frame() {
    let mut stream: Vec<u8> = vec![0xFF; 8];
    stream.extend([0x00; 8]);
    let payload = receive(&stream).expect("empty frame should decode");
    assert!(payload.is_empty());

    let mut receiver = Receiver::new();
    for _ in 0..7 {
        receiver.push(0xFF);
    }
    assert_eq!(receiver.push(0xFF), Action::Ack);
    for _ in 0..7 {
        assert_eq!(receiver.push(0x00), Action::Continue);
    }
    assert_eq!(receiver.push(0x00), Action::Finish { index: 0 });
}
