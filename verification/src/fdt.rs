//! The flattened device-tree blob: the hardware description handed to
//! the loader.
//!
//! The blob is an immutable byte buffer: a fixed-layout header, a
//! memory-reservation block, a tokenized structure block and a strings
//! block. [`blob`] walks the token stream without copying it;
//! [`stream`] gives the stream its grammar; this module decodes the
//! property values — integers of an inherited cell width, `reg` and
//! `ranges` entry lists, and NUL-separated string lists.

use vstd::prelude::*;
use vstd::utf8::valid_utf8;

use crate::codec::is_valid_utf8;
use crate::codec::read_be32;
use crate::codec::read_be64;
use crate::codec::spec_be32;
use crate::codec::spec_be64;
use crate::Error;

pub mod blob;
pub mod stream;

verus! {

/// One property: a name from the strings block and its raw value.
#[derive(Clone, Copy, Debug)]
pub struct Prop<'a> {
    /// The property's name.
    pub name: &'a [u8],
    /// The property's raw value bytes.
    pub value: &'a [u8],
}

/// One entry of the memory-reservation block.
#[derive(Clone, Copy, Debug, PartialEq, Eq, Structural)]
pub struct Reservation {
    /// First physical address of the reserved range.
    pub address: u64,
    /// Length of the reserved range in bytes.
    pub size: u64,
}

/// A big-endian 32-bit field as stored in the blob.
#[derive(Clone, Copy, Debug)]
pub struct Be32 {
    raw: [u8; 4],
}

impl View for Be32 {
    type V = Seq<u8>;

    closed spec fn view(&self) -> Seq<u8> {
        self.raw@
    }
}

impl Be32 {
    /// Wrap four stored bytes.
    pub fn new(raw: [u8; 4]) -> (r: Self)
        ensures
            r@ == raw@,
    {
        Be32 { raw }
    }

    /// The numeric value of the stored bytes.
    pub fn value(&self) -> (r: u32)
        ensures
            r == spec_be32(self@, 0),
    {
        let b0 = self.raw[0] as u32;
        let b1 = self.raw[1] as u32;
        let b2 = self.raw[2] as u32;
        let b3 = self.raw[3] as u32;
        b0 * 0x100_0000 + b1 * 0x1_0000 + b2 * 0x100 + b3
    }
}

/// A big-endian 64-bit field as stored in the blob.
#[derive(Clone, Copy, Debug)]
pub struct Be64 {
    raw: [u8; 8],
}

impl View for Be64 {
    type V = Seq<u8>;

    closed spec fn view(&self) -> Seq<u8> {
        self.raw@
    }
}

impl Be64 {
    /// Wrap eight stored bytes.
    pub fn new(raw: [u8; 8]) -> (r: Self)
        ensures
            r@ == raw@,
    {
        Be64 { raw }
    }

    /// The numeric value of the stored bytes.
    pub fn value(&self) -> (r: u64)
        ensures
            r == spec_be64(self@, 0),
    {
        let hi = (self.raw[0] as u64) * 0x100_0000 + (self.raw[1] as u64) * 0x1_0000 + (
        self.raw[2] as u64) * 0x100 + (self.raw[3] as u64);
        let lo = (self.raw[4] as u64) * 0x100_0000 + (self.raw[5] as u64) * 0x1_0000 + (
        self.raw[6] as u64) * 0x100 + (self.raw[7] as u64);
        hi * 0x1_0000_0000 + lo
    }
}

/// The big-endian integer held by a whole byte string, whose width is
/// given by a cell count: no bytes encode zero, four or eight bytes
/// encode one value. Other widths have no interpretation here.
pub open spec fn spec_variable_int(s: Seq<u8>) -> int {
    if s.len() == 4 {
        spec_be32(s, 0)
    } else if s.len() == 8 {
        spec_be64(s, 0)
    } else {
        0
    }
}

/// Decode a whole byte string of width `len` as one big-endian
/// integer. Widths other than zero, four and eight bytes are a format
/// the loader does not consume and are ruled out up front.
pub fn variable_int(len: u64, data: &[u8]) -> (r: u64)
    requires
        data@.len() == len,
        len == 0 || len == 4 || len == 8,
    ensures
        r == spec_variable_int(data@),
{
    if len == 4 {
        read_be32(data, 0) as u64
    } else if len == 8 {
        read_be64(data, 0)
    } else {
        0
    }
}

/// One `reg` entry: a device's address range.
#[derive(Clone, Copy, Debug, PartialEq, Eq, Structural)]
pub struct Reg {
    /// First address of the range.
    pub address: u64,
    /// Length of the range in bytes.
    pub len: u64,
}

/// One `ranges` entry: a translation between a child bus address and
/// the parent bus.
#[derive(Clone, Copy, Debug, PartialEq, Eq, Structural)]
pub struct Range {
    /// First address on the child bus.
    pub child: u64,
    /// The same address on the parent bus.
    pub parent: u64,
    /// Length of the translated window in bytes.
    pub len: u64,
}

/// The `reg` entry decoded from `s` at byte offset `off`, with the
/// given address and size widths.
pub open spec fn spec_reg(s: Seq<u8>, off: int, address_bytes: int, size_bytes: int) -> Reg {
    Reg {
        address: spec_variable_int(s.subrange(off, off + address_bytes)) as u64,
        len: spec_variable_int(s.subrange(off + address_bytes, off + address_bytes + size_bytes))
            as u64,
    }
}

/// The `ranges` entry decoded from `s` at byte offset `off`.
pub open spec fn spec_range(s: Seq<u8>, off: int, address_bytes: int, size_bytes: int) -> Range {
    Range {
        child: spec_variable_int(s.subrange(off, off + address_bytes)) as u64,
        parent: spec_variable_int(s.subrange(off + address_bytes, off + 2 * address_bytes)) as u64,
        len: spec_variable_int(
            s.subrange(off + 2 * address_bytes, off + 2 * address_bytes + size_bytes),
        ) as u64,
    }
}

/// A `reg` property value: `(address, length)` pairs whose widths the
/// owning node's parent dictates.
#[derive(Clone, Copy, Debug)]
pub struct RegIter<'a> {
    address_bytes: u64,
    size_bytes: u64,
    data: &'a [u8],
}

impl<'a> RegIter<'a> {
    /// The raw value bytes.
    pub closed spec fn spec_data(self) -> Seq<u8> {
        self.data@
    }

    /// Width of one address in bytes.
    pub closed spec fn spec_address_bytes(self) -> u64 {
        self.address_bytes
    }

    /// Width of one length in bytes.
    pub closed spec fn spec_size_bytes(self) -> u64 {
        self.size_bytes
    }

    /// Wrap a `reg` value. Cell counts above two (widths above eight
    /// bytes) have no interpretation here.
    pub fn new(address_bytes: u64, size_bytes: u64, data: &'a [u8]) -> (r: Self)
        requires
            address_bytes == 0 || address_bytes == 4 || address_bytes == 8,
            size_bytes == 0 || size_bytes == 4 || size_bytes == 8,
        ensures
            r.spec_data() == data@,
            r.spec_address_bytes() == address_bytes,
            r.spec_size_bytes() == size_bytes,
    {
        RegIter { address_bytes, size_bytes, data }
    }

    /// Decode every complete entry, in order; a ragged tail is
    /// ignored.
    pub fn iter(&self) -> (r: Vec<Reg>)
        requires
            self.spec_address_bytes() == 0 || self.spec_address_bytes() == 4
                || self.spec_address_bytes() == 8,
            self.spec_size_bytes() == 0 || self.spec_size_bytes() == 4 || self.spec_size_bytes()
                == 8,
            self.spec_address_bytes() + self.spec_size_bytes() > 0,
        ensures
            r@.len() == self.spec_data().len() as int / (self.spec_address_bytes()
                + self.spec_size_bytes()) as int,
            forall|i: int|
                0 <= i < r@.len() ==> r@[i] == spec_reg(
                    self.spec_data(),
                    i * (self.spec_address_bytes() + self.spec_size_bytes()),
                    self.spec_address_bytes() as int,
                    self.spec_size_bytes() as int,
                ),
    {
        let stride = (self.address_bytes + self.size_bytes) as usize;
        let n = self.data.len();
        let count = n / stride;
        let mut r: Vec<Reg> = Vec::new();
        let mut i: usize = 0;
        while i < count
            invariant
                0 <= i <= count,
                r@.len() == i,
                stride == self.spec_address_bytes() + self.spec_size_bytes(),
                0 < stride <= 16,
                n == self.spec_data().len(),
                count == self.spec_data().len() as int / stride as int,
                self.spec_address_bytes() == 0 || self.spec_address_bytes() == 4
                    || self.spec_address_bytes() == 8,
                self.spec_size_bytes() == 0 || self.spec_size_bytes() == 4
                    || self.spec_size_bytes() == 8,
                forall|j: int|
                    0 <= j < i ==> r@[j] == spec_reg(
                        self.spec_data(),
                        j * stride as int,
                        self.spec_address_bytes() as int,
                        self.spec_size_bytes() as int,
                    ),
            decreases count - i,
        {
            proof {
                vstd::arithmetic::div_mod::lemma_fundamental_div_mod(
                    self.spec_data().len() as int,
                    stride as int,
                );
                assert((i + 1) * stride <= count * stride) by (nonlinear_arith)
                    requires
                        i + 1 <= count,
                        stride > 0,
                ;
                assert(count * stride <= self.spec_data().len()) by (nonlinear_arith)
                    requires
                        count == self.spec_data().len() as int / stride as int,
                        stride > 0,
                        self.spec_data().len() as int % stride as int >= 0,
                        self.spec_data().len() == (count * stride) + self.spec_data().len() as int
                            % stride as int,
                ;
                assert(i * stride + stride == (i + 1) * stride) by (nonlinear_arith);
            }
            let off = i * stride;
            let ab = self.address_bytes as usize;
            let sb = self.size_bytes as usize;
            let address = variable_int(
                self.address_bytes,
                vstd::slice::slice_subrange(self.data, off, off + ab),
            );
            let len = variable_int(
                self.size_bytes,
                vstd::slice::slice_subrange(self.data, off + ab, off + ab + sb),
            );
            r.push(Reg { address, len });
            i += 1;
        }
        r
    }
}

/// A `ranges` property value: `(child, parent, length)` triples whose
/// widths the owning node's parent dictates.
#[derive(Clone, Copy, Debug)]
pub struct RangeIter<'a> {
    address_bytes: u64,
    size_bytes: u64,
    data: &'a [u8],
}

impl<'a> RangeIter<'a> {
    /// The raw value bytes.
    pub closed spec fn spec_data(self) -> Seq<u8> {
        self.data@
    }

    /// Width of one address in bytes.
    pub closed spec fn spec_address_bytes(self) -> u64 {
        self.address_bytes
    }

    /// Width of one length in bytes.
    pub closed spec fn spec_size_bytes(self) -> u64 {
        self.size_bytes
    }

    /// Wrap a `ranges` value. Cell counts above two (widths above
    /// eight bytes) have no interpretation here.
    pub fn new(address_bytes: u64, size_bytes: u64, data: &'a [u8]) -> (r: Self)
        requires
            address_bytes == 0 || address_bytes == 4 || address_bytes == 8,
            size_bytes == 0 || size_bytes == 4 || size_bytes == 8,
        ensures
            r.spec_data() == data@,
            r.spec_address_bytes() == address_bytes,
            r.spec_size_bytes() == size_bytes,
    {
        RangeIter { address_bytes, size_bytes, data }
    }

    /// Decode every complete entry, in order; a ragged tail is
    /// ignored.
    pub fn iter(&self) -> (r: Vec<Range>)
        requires
            self.spec_address_bytes() == 0 || self.spec_address_bytes() == 4
                || self.spec_address_bytes() == 8,
            self.spec_size_bytes() == 0 || self.spec_size_bytes() == 4 || self.spec_size_bytes()
                == 8,
            self.spec_address_bytes() + self.spec_size_bytes() > 0,
        ensures
            r@.len() == self.spec_data().len() as int / (2 * self.spec_address_bytes()
                + self.spec_size_bytes()) as int,
            forall|i: int|
                0 <= i < r@.len() ==> r@[i] == spec_range(
                    self.spec_data(),
                    i * (2 * self.spec_address_bytes() + self.spec_size_bytes()),
                    self.spec_address_bytes() as int,
                    self.spec_size_bytes() as int,
                ),
    {
        let stride = (2 * self.address_bytes + self.size_bytes) as usize;
        let n = self.data.len();
        let count = n / stride;
        let mut r: Vec<Range> = Vec::new();
        let mut i: usize = 0;
        while i < count
            invariant
                0 <= i <= count,
                r@.len() == i,
                stride == 2 * self.spec_address_bytes() + self.spec_size_bytes(),
                0 < stride <= 24,
                n == self.spec_data().len(),
                count == self.spec_data().len() as int / stride as int,
                self.spec_address_bytes() == 0 || self.spec_address_bytes() == 4
                    || self.spec_address_bytes() == 8,
                self.spec_size_bytes() == 0 || self.spec_size_bytes() == 4
                    || self.spec_size_bytes() == 8,
                forall|j: int|
                    0 <= j < i ==> r@[j] == spec_range(
                        self.spec_data(),
                        j * stride as int,
                        self.spec_address_bytes() as int,
                        self.spec_size_bytes() as int,
                    ),
            decreases count - i,
        {
            proof {
                vstd::arithmetic::div_mod::lemma_fundamental_div_mod(
                    self.spec_data().len() as int,
                    stride as int,
                );
                assert((i + 1) * stride <= count * stride) by (nonlinear_arith)
                    requires
                        i + 1 <= count,
                        stride > 0,
                ;
                assert(count * stride <= self.spec_data().len()) by (nonlinear_arith)
                    requires
                        count == self.spec_data().len() as int / stride as int,
                        stride > 0,
                        self.spec_data().len() as int % stride as int >= 0,
                        self.spec_data().len() == (count * stride) + self.spec_data().len() as int
                            % stride as int,
                ;
                assert(i * stride + stride == (i + 1) * stride) by (nonlinear_arith);
            }
            let off = i * stride;
            let ab = self.address_bytes as usize;
            let sb = self.size_bytes as usize;
            let child = variable_int(
                self.address_bytes,
                vstd::slice::slice_subrange(self.data, off, off + ab),
            );
            let parent = variable_int(
                self.address_bytes,
                vstd::slice::slice_subrange(self.data, off + ab, off + 2 * ab),
            );
            let len = variable_int(
                self.size_bytes,
                vstd::slice::slice_subrange(self.data, off + 2 * ab, off + 2 * ab + sb),
            );
            r.push(Range { child, parent, len });
            i += 1;
        }
        r
    }
}

/// The string list held by `s`: the maximal runs of non-NUL bytes, in
/// order, empty runs dropped.
pub open spec fn spec_strings(s: Seq<u8>) -> Seq<Seq<u8>>
    decreases s.len(),
{
    if s.len() == 0 {
        seq![]
    } else if s[0] == 0 {
        spec_strings(s.skip(1))
    } else {
        let k = spec_run_end(s);
        if 1 <= k <= s.len() {
            seq![s.take(k)] + spec_strings(s.skip(k))
        } else {
            seq![s.take(k)]
        }
    }
}

/// Length of the leading run of non-NUL bytes of `s`.
pub open spec fn spec_run_end(s: Seq<u8>) -> int
    decreases s.len(),
{
    if s.len() == 0 || s[0] == 0 {
        0
    } else {
        1 + spec_run_end(s.skip(1))
    }
}

/// The leading run is nonempty exactly when `s` starts with a non-NUL
/// byte, covers only non-NUL bytes, and ends at a NUL or the end.
proof fn lemma_run_end(s: Seq<u8>)
    ensures
        0 <= spec_run_end(s) <= s.len(),
        forall|k: int| 0 <= k < spec_run_end(s) ==> s[k] != 0,
        spec_run_end(s) < s.len() ==> s[spec_run_end(s)] == 0,
    decreases s.len(),
{
    if s.len() == 0 || s[0] == 0 {
    } else {
        lemma_run_end(s.skip(1));
        assert forall|k: int| 0 <= k < spec_run_end(s) implies s[k] != 0 by {
            if k > 0 {
                assert(s.skip(1)[k - 1] != 0);
            }
        }
        if spec_run_end(s) < s.len() {
            assert(s[spec_run_end(s)] == s.skip(1)[spec_run_end(s.skip(1))]);
        }
    }
}

/// A string-list property value, NUL-separated entries.
#[derive(Clone, Copy, Debug)]
pub struct StrIter<'a> {
    data: &'a [u8],
}

impl<'a> StrIter<'a> {
    /// The raw value bytes.
    pub closed spec fn spec_data(self) -> Seq<u8> {
        self.data@
    }

    /// Wrap a string-list value.
    pub fn new(data: &'a [u8]) -> (r: Self)
        ensures
            r.spec_data() == data@,
    {
        StrIter { data }
    }

    /// The strings of the list, in order. Succeeds exactly when every
    /// entry is valid UTF-8; one undecodable entry is fatal.
    pub fn iter(&self) -> (r: Result<Vec<&'a [u8]>, Error>)
        ensures
            r is Ok <==> forall|k: int|
                0 <= k < spec_strings(self.spec_data()).len() ==> valid_utf8(
                    #[trigger] spec_strings(self.spec_data())[k],
                ),
            r matches Ok(v) ==> v@.map_values(|e: &[u8]| e@) == spec_strings(self.spec_data()),
            r is Err ==> r == Err::<Vec<&'a [u8]>, Error>(Error::BadString),
    {
        let n = self.data.len();
        let mut r: Vec<&'a [u8]> = Vec::new();
        let mut pos: usize = 0;
        proof {
            assert(self.spec_data().skip(0) =~= self.spec_data());
        }
        while pos < n
            invariant
                0 <= pos <= n,
                n == self.spec_data().len(),
                r@.map_values(|e: &[u8]| e@) + spec_strings(self.spec_data().skip(pos as int))
                    =~= spec_strings(self.spec_data()),
                forall|k: int| 0 <= k < r@.len() ==> valid_utf8(#[trigger] r@[k]@),
            decreases n - pos,
        {
            let ghost rest = self.spec_data().skip(pos as int);
            if self.data[pos] == 0 {
                proof {
                    assert(rest.skip(1) =~= self.spec_data().skip(pos + 1));
                }
                pos += 1;
            } else {
                let start = pos;
                let mut end = pos;
                while end < n && self.data[end] != 0
                    invariant
                        0 <= start <= end <= n,
                        n == self.spec_data().len(),
                        forall|k: int| start <= k < end ==> self.spec_data()[k] != 0,
                    decreases n - end,
                {
                    end += 1;
                }
                proof {
                    lemma_run_end(rest);
                    assert(spec_run_end(rest) == end - start) by {
                        assert(forall|k: int|
                            0 <= k < end - start ==> rest[k] == self.spec_data()[start + k]);
                        if spec_run_end(rest) < end - start {
                            assert(rest[spec_run_end(rest)] != 0);
                        }
                        if spec_run_end(rest) > end - start {
                            assert(end < n);
                            assert(rest[end - start] == 0);
                        }
                    }
                    assert(rest.take(end - start) =~= self.spec_data().subrange(
                        start as int,
                        end as int,
                    ));
                    assert(rest.skip(end - start) =~= self.spec_data().skip(end as int));
                }
                let entry = vstd::slice::slice_subrange(self.data, start, end);
                if !is_valid_utf8(entry) {
                    proof {
                        let full = spec_strings(self.spec_data());
                        let idx = r@.len() as int;
                        assert(spec_strings(rest)[0] == entry@);
                        assert(full[idx] == entry@);
                        assert(idx < full.len());
                        assert(!valid_utf8(full[idx]));
                    }
                    return Err(Error::BadString);
                }
                let ghost prev = r@;
                r.push(entry);
                proof {
                    assert(r@.map_values(|e: &[u8]| e@) =~= prev.map_values(|e: &[u8]| e@).push(
                        entry@,
                    ));
                }
                pos = end;
            }
        }
        proof {
            assert(spec_strings(self.spec_data().skip(pos as int)) =~= Seq::<Seq<u8>>::empty());
            assert forall|k: int|
                0 <= k < spec_strings(self.spec_data()).len() implies valid_utf8(
                #[trigger] spec_strings(self.spec_data())[k],
            ) by {
                assert(spec_strings(self.spec_data())[k] == r@.map_values(|e: &[u8]| e@)[k]);
                assert(r@.map_values(|e: &[u8]| e@)[k] == r@[k]@);
            }
        }
        Ok(r)
    }
}

} // verus!
