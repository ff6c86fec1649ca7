//! The serial handoff protocol, receiver side.
//!
//! The wire carries, in order: arbitrary leading garbage, eight
//! consecutive `0xFF` synchronization bytes, an 8-byte little-endian
//! payload length, and exactly that many payload bytes. The receiver
//! discards the garbage, acknowledges the synchronization run with
//! eight `0xFF` bytes of its own, then stores the payload verbatim.
//! [`Receiver`] takes that protocol one byte at a time, so the caller
//! that owns the wire only moves bytes; [`receive`] states what a
//! whole byte stream yields.

use vstd::prelude::*;

use crate::codec::read_le64;
use crate::codec::spec_le64;

verus! {

/// Index just past the first run of eight consecutive `0xFF` bytes of
/// `s`, scanning from `i` with `run` consecutive `0xFF` bytes already
/// seen; `None` when no such run completes.
pub open spec fn spec_sync_end(s: Seq<u8>, i: int, run: int) -> Option<int>
    decreases s.len() - i,
{
    if i < 0 || i >= s.len() {
        None
    } else if s[i] == 0xFF {
        if run >= 7 {
            Some(i + 1)
        } else {
            spec_sync_end(s, i + 1, run + 1)
        }
    } else {
        spec_sync_end(s, i + 1, 0)
    }
}

/// A synchronization end lies within the stream.
proof fn lemma_sync_end_in_range(s: Seq<u8>, i: int, run: int)
    requires
        spec_sync_end(s, i, run) is Some,
    ensures
        0 < spec_sync_end(s, i, run)->0 <= s.len(),
    decreases s.len() - i,
{
    if 0 <= i < s.len() && s[i] == 0xFF && run >= 7 {
    } else if 0 <= i < s.len() {
        if s[i] == 0xFF {
            lemma_sync_end_in_range(s, i + 1, run + 1);
        } else {
            lemma_sync_end_in_range(s, i + 1, 0);
        }
    }
}

/// Find the end of the synchronization run: the index just past the
/// first eight consecutive `0xFF` bytes.
pub fn find_sync(stream: &[u8]) -> (r: Option<usize>)
    ensures
        match r {
            Some(e) => spec_sync_end(stream@, 0, 0) == Some(e as int),
            None => spec_sync_end(stream@, 0, 0) is None,
        },
{
    let n = stream.len();
    let mut i: usize = 0;
    let mut run: u8 = 0;
    while i < n
        invariant
            0 <= i <= n,
            n == stream@.len(),
            0 <= run <= 7,
            spec_sync_end(stream@, 0, 0) == spec_sync_end(stream@, i as int, run as int),
        decreases n - i,
    {
        if stream[i] == 0xFF {
            if run == 7 {
                return Some(i + 1);
            }
            run += 1;
        } else {
            run = 0;
        }
        i += 1;
    }
    None
}

/// Decode one whole frame from a received byte stream: everything up
/// to and including the synchronization run is discarded, the next
/// eight bytes give the payload length, and the payload follows.
/// `None` exactly when the stream never synchronizes or ends before
/// the full payload.
pub fn receive(stream: &[u8]) -> (r: Option<Vec<u8>>)
    ensures
        match r {
            Some(p) => {
                &&& spec_sync_end(stream@, 0, 0) matches Some(e)
                &&& {
                    let e = spec_sync_end(stream@, 0, 0)->0;
                    &&& e + 8 <= stream@.len()
                    &&& e + 8 + spec_le64(stream@, e) <= stream@.len()
                    &&& p@ == stream@.subrange(e + 8, e + 8 + spec_le64(stream@, e))
                }
            },
            None => {
                ||| spec_sync_end(stream@, 0, 0) is None
                ||| {
                    let e = spec_sync_end(stream@, 0, 0)->0;
                    spec_sync_end(stream@, 0, 0) is Some && (e + 8 > stream@.len() || e + 8
                        + spec_le64(stream@, e) > stream@.len())
                }
            },
        },
{
    let n = stream.len();
    let e = match find_sync(stream) {
        Some(e) => e,
        None => {
            return None;
        },
    };
    assert(e <= n) by {
        lemma_sync_end_in_range(stream@, 0, 0);
    }
    if n - e < 8 {
        return None;
    }
    let len = read_le64(stream, e);
    if len > (n - e - 8) as u64 {
        return None;
    }
    let len = len as usize;
    let mut p: Vec<u8> = Vec::new();
    let mut i: usize = 0;
    while i < len
        invariant
            0 <= i <= len,
            n == stream@.len(),
            e + 8 + len <= n,
            p@.len() == i,
            forall|j: int| 0 <= j < i ==> p@[j] == stream@[e + 8 + j],
        decreases len - i,
    {
        p.push(stream[e + 8 + i]);
        i += 1;
    }
    assert(p@ =~= stream@.subrange(e as int + 8, e as int + 8 + len as int));
    Some(p)
}

/// What the caller that owns the wire must do after handing the
/// receiver one byte.
#[derive(Clone, Copy, Debug, PartialEq, Eq, Structural)]
pub enum Action {
    /// Nothing yet: keep reading bytes.
    Continue,
    /// The synchronization run just completed: transmit eight `0xFF`
    /// acknowledgment bytes, then keep reading.
    Ack,
    /// The byte is payload: store it at this offset of the receive
    /// buffer, then keep reading.
    Store { index: u64 },
    /// The byte completed the payload: the transfer is finished.
    Finish { index: u64 },
}

/// Where the receiver stands in the protocol.
#[derive(Debug)]
pub enum Phase {
    /// Discarding garbage; `run` consecutive `0xFF` bytes seen.
    Sync { run: u8 },
    /// Collecting the eight little-endian length bytes.
    Length { bytes: Vec<u8> },
    /// Storing payload bytes; `received` of `expected` seen so far.
    Data { expected: u64, received: u64 },
    /// The whole frame has arrived.
    Done { expected: u64 },
}

/// The decision half of the receiving loop: it consumes one wire byte
/// at a time and tells the caller what to do with it, so the code
/// that touches the hardware makes no decisions of its own.
pub struct Receiver {
    phase: Phase,
}

impl Receiver {
    /// The current protocol phase.
    pub closed spec fn spec_phase(self) -> Phase {
        self.phase
    }

    /// A receiver that has seen nothing yet.
    pub fn new() -> (r: Self)
        ensures
            r.spec_phase() == (Phase::Sync { run: 0u8 }),
    {
        Receiver { phase: Phase::Sync { run: 0 } }
    }

    /// Feed one received byte; the result says what to do with it.
    /// During synchronization a `0xFF` byte extends the run and any
    /// other byte restarts it; the eighth consecutive `0xFF` asks for
    /// the acknowledgment. The next eight bytes build the length,
    /// little-endian. After that, each byte is stored in turn until
    /// `expected` bytes have arrived; a zero-length frame is complete
    /// as soon as its length is.
    pub fn push(&mut self, byte: u8) -> (r: Action)
        ensures
            match old(self).spec_phase() {
                Phase::Sync { run } => {
                    if byte == 0xFF {
                        if run >= 7 {
                            r == Action::Ack && (final(self).spec_phase() matches Phase::Length {
                                bytes: b,
                            } && b@ == Seq::<u8>::empty())
                        } else {
                            r == Action::Continue && final(self).spec_phase() == (Phase::Sync {
                                run: (run + 1) as u8,
                            })
                        }
                    } else {
                        r == Action::Continue && final(self).spec_phase() == (Phase::Sync {
                            run: 0u8,
                        })
                    }
                },
                Phase::Length { bytes } => {
                    if bytes@.len() < 7 {
                        r == Action::Continue && (final(self).spec_phase() matches Phase::Length {
                            bytes: b,
                        } && b@ == bytes@.push(byte))
                    } else {
                        {
                            let expected = spec_le64(bytes@.push(byte), 0) as u64;
                            if expected == 0 {
                                r == (Action::Finish { index: 0 }) && final(self).spec_phase() == (
                                Phase::Done { expected: 0u64 })
                            } else {
                                r == Action::Continue && final(self).spec_phase() == (Phase::Data {
                                    expected,
                                    received: 0u64,
                                })
                            }
                        }
                    }
                },
                Phase::Data { expected, received } => {
                    if received + 1 < expected {
                        r == (Action::Store { index: received }) && final(self).spec_phase() == (
                        Phase::Data { expected, received: (received + 1) as u64 })
                    } else {
                        r == (Action::Finish { index: received }) && final(self).spec_phase() == (
                        Phase::Done { expected })
                    }
                },
                Phase::Done { expected } => {
                    r == Action::Continue && final(self).spec_phase() == old(self).spec_phase()
                },
            },
    {
        match &mut self.phase {
            Phase::Sync { run } => {
                if byte == 0xFF {
                    if *run >= 7 {
                        self.phase = Phase::Length { bytes: Vec::new() };
                        Action::Ack
                    } else {
                        *run += 1;
                        Action::Continue
                    }
                } else {
                    *run = 0;
                    Action::Continue
                }
            },
            Phase::Length { bytes } => {
                bytes.push(byte);
                if bytes.len() < 8 {
                    Action::Continue
                } else {
                    let expected = read_le64(bytes.as_slice(), 0);
                    if expected == 0 {
                        self.phase = Phase::Done { expected: 0 };
                        Action::Finish { index: 0 }
                    } else {
                        self.phase = Phase::Data { expected, received: 0 };
                        Action::Continue
                    }
                }
            },
            Phase::Data { expected, received } => {
                let index = *received;
                if index < u64::MAX && index + 1 < *expected {
                    *received = index + 1;
                    Action::Store { index }
                } else {
                    let expected = *expected;
                    self.phase = Phase::Done { expected };
                    Action::Finish { index }
                }
            },
            Phase::Done { .. } => Action::Continue,
        }
    }
}

} // verus!
