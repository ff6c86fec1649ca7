//! Reading big- and little-endian integers out of untrusted byte buffers.
//!
//! Both consumed formats store multi-byte integers at known offsets:
//! the device-tree blob uses big-endian fields, the ELF image on this
//! target uses little-endian ones. The spec functions below give the
//! mathematical value of such a field; the executable readers are
//! proved to return exactly that value.

use vstd::prelude::*;
use vstd::utf8::decode_first_codepoint;
use vstd::utf8::is_continuation_byte;
use vstd::utf8::is_leading_byte_width_1;
use vstd::utf8::is_leading_byte_width_2;
use vstd::utf8::is_leading_byte_width_3;
use vstd::utf8::is_leading_byte_width_4;
use vstd::utf8::length_of_first_codepoint;
use vstd::utf8::pop_first_scalar;
use vstd::utf8::valid_first_scalar;
use vstd::utf8::valid_leading_and_continuation_bytes_first_codepoint;
use vstd::utf8::valid_utf8;

verus! {

/// Value of the big-endian 32-bit integer stored at `s[i..i + 4]`.
pub open spec fn spec_be32(s: Seq<u8>, i: int) -> int
    recommends
        0 <= i,
        i + 4 <= s.len(),
{
    s[i] * 0x100_0000 + s[i + 1] * 0x1_0000 + s[i + 2] * 0x100 + s[i + 3]
}

/// Value of the big-endian 64-bit integer stored at `s[i..i + 8]`.
pub open spec fn spec_be64(s: Seq<u8>, i: int) -> int
    recommends
        0 <= i,
        i + 8 <= s.len(),
{
    spec_be32(s, i) * 0x1_0000_0000 + spec_be32(s, i + 4)
}

/// Value of the little-endian 16-bit integer stored at `s[i..i + 2]`.
pub open spec fn spec_le16(s: Seq<u8>, i: int) -> int
    recommends
        0 <= i,
        i + 2 <= s.len(),
{
    s[i] + s[i + 1] * 0x100
}

/// Value of the little-endian 32-bit integer stored at `s[i..i + 4]`.
pub open spec fn spec_le32(s: Seq<u8>, i: int) -> int
    recommends
        0 <= i,
        i + 4 <= s.len(),
{
    s[i] + s[i + 1] * 0x100 + s[i + 2] * 0x1_0000 + s[i + 3] * 0x100_0000
}

/// Value of the little-endian 64-bit integer stored at `s[i..i + 8]`.
pub open spec fn spec_le64(s: Seq<u8>, i: int) -> int
    recommends
        0 <= i,
        i + 8 <= s.len(),
{
    spec_le32(s, i) + spec_le32(s, i + 4) * 0x1_0000_0000
}

/// Read the big-endian 32-bit integer at `bytes[i..i + 4]`.
pub fn read_be32(bytes: &[u8], i: usize) -> (r: u32)
    requires
        i + 4 <= bytes@.len(),
    ensures
        r == spec_be32(bytes@, i as int),
{
    let b0 = bytes[i] as u32;
    let b1 = bytes[i + 1] as u32;
    let b2 = bytes[i + 2] as u32;
    let b3 = bytes[i + 3] as u32;
    b0 * 0x100_0000 + b1 * 0x1_0000 + b2 * 0x100 + b3
}

/// Read the big-endian 64-bit integer at `bytes[i..i + 8]`.
pub fn read_be64(bytes: &[u8], i: usize) -> (r: u64)
    requires
        i + 8 <= bytes@.len(),
    ensures
        r == spec_be64(bytes@, i as int),
{
    let n = bytes.len();
    assert(i + 8 <= n);
    let hi = read_be32(bytes, i) as u64;
    let lo = read_be32(bytes, i + 4) as u64;
    hi * 0x1_0000_0000 + lo
}

/// Read the little-endian 16-bit integer at `bytes[i..i + 2]`.
pub fn read_le16(bytes: &[u8], i: usize) -> (r: u16)
    requires
        i + 2 <= bytes@.len(),
    ensures
        r == spec_le16(bytes@, i as int),
{
    let b0 = bytes[i] as u16;
    let b1 = bytes[i + 1] as u16;
    b0 + b1 * 0x100
}

/// Read the little-endian 32-bit integer at `bytes[i..i + 4]`.
pub fn read_le32(bytes: &[u8], i: usize) -> (r: u32)
    requires
        i + 4 <= bytes@.len(),
    ensures
        r == spec_le32(bytes@, i as int),
{
    let b0 = bytes[i] as u32;
    let b1 = bytes[i + 1] as u32;
    let b2 = bytes[i + 2] as u32;
    let b3 = bytes[i + 3] as u32;
    b0 + b1 * 0x100 + b2 * 0x1_0000 + b3 * 0x100_0000
}

/// Read the little-endian 64-bit integer at `bytes[i..i + 8]`.
pub fn read_le64(bytes: &[u8], i: usize) -> (r: u64)
    requires
        i + 8 <= bytes@.len(),
    ensures
        r == spec_le64(bytes@, i as int),
{
    let n = bytes.len();
    assert(i + 8 <= n);
    let lo = read_le32(bytes, i) as u64;
    let hi = read_le32(bytes, i + 4) as u64;
    lo + hi * 0x1_0000_0000
}

/// True when the two byte slices hold the same bytes.
pub fn bytes_eq(a: &[u8], b: &[u8]) -> (r: bool)
    ensures
        r <==> a@ == b@,
{
    if a.len() != b.len() {
        assert(a@.len() != b@.len());
        return false;
    }
    let mut i: usize = 0;
    while i < a.len()
        invariant
            0 <= i <= a@.len(),
            a@.len() == b@.len(),
            forall|j: int| 0 <= j < i ==> a@[j] == b@[j],
        decreases a@.len() - i,
    {
        if a[i] != b[i] {
            return false;
        }
        i += 1;
    }
    assert(a@ =~= b@);
    true
}

/// Round `x` up to the next multiple of four. Token bodies in the
/// device-tree structure block are padded to 32-bit alignment.
pub open spec fn spec_align4(x: int) -> int {
    x + (4 - x % 4) % 4
}

/// Round `x` up to the next multiple of four.
pub fn align4(x: usize) -> (r: usize)
    requires
        x + 3 <= usize::MAX,
    ensures
        r == spec_align4(x as int),
        r % 4 == 0,
        x <= r < x + 4,
{
    if x % 4 == 0 {
        x
    } else {
        x + (4 - x % 4)
    }
}


/// True when the bytes form a valid UTF-8 encoding. Both consumed
/// formats carry names and string lists whose entries must decode;
/// anything else is fatal.
#[verifier::rlimit(50)]
pub fn is_valid_utf8(bytes: &[u8]) -> (r: bool)
    ensures
        r == valid_utf8(bytes@),
{
    let n = bytes.len();
    let mut i: usize = 0;
    proof {
        assert(bytes@.skip(0) =~= bytes@);
    }
    while i < n
        invariant
            0 <= i <= n,
            n == bytes@.len(),
            valid_utf8(bytes@) == valid_utf8(bytes@.skip(i as int)),
        decreases n - i,
    {
        let ghost suffix = bytes@.skip(i as int);
        proof {
            assert(suffix.len() == n - i);
            assert(suffix[0] == bytes@[i as int]);
        }
        let b0 = bytes[i];
        let width: usize = if b0 <= 0x7F {
            1
        } else if 0xC0 <= b0 && b0 <= 0xDF {
            2
        } else if 0xE0 <= b0 && b0 <= 0xEF {
            3
        } else if 0xF0 <= b0 && b0 <= 0xF7 {
            4
        } else {
            proof {
                assert(!valid_leading_and_continuation_bytes_first_codepoint(suffix));
            }
            return false;
        };
        if n - i < width {
            proof {
                assert(forall|k: int| 0 <= k < suffix.len() ==> suffix[k] == bytes@[i + k]);
                assert(!valid_leading_and_continuation_bytes_first_codepoint(suffix));
            }
            return false;
        }
        proof {
            assert(forall|k: int| 0 <= k < width ==> suffix[k] == bytes@[i + k]);
        }
        if width >= 2 && !(0x80 <= bytes[i + 1] && bytes[i + 1] <= 0xBF) {
            proof {
                assert(!valid_leading_and_continuation_bytes_first_codepoint(suffix));
            }
            return false;
        }
        if width >= 3 && !(0x80 <= bytes[i + 2] && bytes[i + 2] <= 0xBF) {
            proof {
                assert(!valid_leading_and_continuation_bytes_first_codepoint(suffix));
            }
            return false;
        }
        if width == 4 && !(0x80 <= bytes[i + 3] && bytes[i + 3] <= 0xBF) {
            proof {
                assert(!valid_leading_and_continuation_bytes_first_codepoint(suffix));
            }
            return false;
        }
        let cp: u32 = if width == 1 {
            (b0 & 0x7F) as u32
        } else if width == 2 {
            (((b0 & 0x1F) as u32) << 6) | ((bytes[i + 1] & 0x3F) as u32)
        } else if width == 3 {
            (((b0 & 0x0F) as u32) << 12) | (((bytes[i + 1] & 0x3F) as u32) << 6) | ((bytes[i + 2]
                & 0x3F) as u32)
        } else {
            (((b0 & 0x07) as u32) << 18) | (((bytes[i + 1] & 0x3F) as u32) << 12) | (((bytes[i + 2]
                & 0x3F) as u32) << 6) | ((bytes[i + 3] & 0x3F) as u32)
        };
        proof {
            assert(valid_leading_and_continuation_bytes_first_codepoint(suffix));
            assert(length_of_first_codepoint(suffix) == width);
            assert(cp == decode_first_codepoint(suffix));
        }
        if width == 2 && cp < 0x80 {
            proof {
                assert(!valid_first_scalar(suffix));
            }
            return false;
        }
        if width == 3 && cp < 0x800 {
            proof {
                assert(!valid_first_scalar(suffix));
            }
            return false;
        }
        if width == 4 && !(0x10000 <= cp && cp <= 0x10FFFF) {
            proof {
                assert(!valid_first_scalar(suffix));
            }
            return false;
        }
        if 0xD800 <= cp && cp <= 0xDFFF {
            proof {
                assert(!valid_first_scalar(suffix));
            }
            return false;
        }
        proof {
            assert(valid_first_scalar(suffix));
            assert(pop_first_scalar(suffix) =~= bytes@.skip((i + width) as int));
        }
        i += width;
    }
    proof {
        assert(bytes@.skip(n as int) =~= Seq::<u8>::empty());
    }
    true
}

} // verus!
