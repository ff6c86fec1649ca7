//! Zero-copy walking of a device-tree blob.
//!
//! A [`Blob`] borrows the raw bytes. [`Cursor`] steps through the
//! structure block token by token; [`Node`] is a snapshot taken while
//! walking — it never owns the blob. Property names live in the
//! strings block and are resolved by offset; names and strings must be
//! NUL-terminated valid UTF-8, anything else is fatal to the parse.

use vstd::prelude::*;

use crate::codec::read_be32;
use crate::codec::spec_align4;
use crate::codec::spec_be32;
use crate::codec::align4;
use crate::codec::bytes_eq;
use crate::codec::is_valid_utf8;
use vstd::utf8::valid_utf8;
use crate::fdt::stream::TokenModel;
use crate::fdt::Prop;
use crate::fdt::RangeIter;
use crate::fdt::RegIter;
use crate::fdt::StrIter;
use crate::Error;
use vstd::string::StringSliceAdditionalSpecFns;

verus! {

/// The value the first four blob bytes must hold, big-endian.
pub const MAGIC: u32 = 0xD00D_FEED;

/// The fixed-layout blob header.
#[derive(Clone, Copy, Debug, PartialEq, Eq, Structural)]
pub struct Header {
    /// Must hold [`MAGIC`].
    pub magic: u32,
    /// Total size in bytes of the whole blob, every block included.
    pub total_size: u32,
    /// Offset in bytes of the structure block.
    pub off_dt_struct: u32,
    /// Offset in bytes of the strings block.
    pub off_dt_strings: u32,
    /// Offset in bytes of the memory-reservation block.
    pub off_mem_rsvmap: u32,
    /// Version of the data structure.
    pub version: u32,
    /// Lowest version this blob is backwards compatible with.
    pub last_comp_version: u32,
    /// Physical id of the boot CPU.
    pub boot_cpuid_phys: u32,
    /// Length in bytes of the strings block.
    pub size_dt_strings: u32,
    /// Length in bytes of the structure block.
    pub size_dt_struct: u32,
}

impl Header {
    /// Total size in bytes of the blob the header describes.
    pub fn len(&self) -> (r: usize)
        ensures
            r == self.total_size,
    {
        self.total_size as usize
    }
}

/// The header fields as stored at the start of the blob.
pub open spec fn spec_header(s: Seq<u8>) -> Header {
    Header {
        magic: spec_be32(s, 0) as u32,
        total_size: spec_be32(s, 4) as u32,
        off_dt_struct: spec_be32(s, 8) as u32,
        off_dt_strings: spec_be32(s, 12) as u32,
        off_mem_rsvmap: spec_be32(s, 16) as u32,
        version: spec_be32(s, 20) as u32,
        last_comp_version: spec_be32(s, 24) as u32,
        boot_cpuid_phys: spec_be32(s, 28) as u32,
        size_dt_strings: spec_be32(s, 32) as u32,
        size_dt_struct: spec_be32(s, 36) as u32,
    }
}

/// One structure-block token, borrowing the blob.
pub enum Token<'a> {
    /// A node opens, with its name.
    Begin { name: &'a [u8] },
    /// A property of the open node.
    Prop(Prop<'a>),
    /// The open node closes.
    End,
}

impl<'a> View for Token<'a> {
    type V = TokenModel;

    open spec fn view(&self) -> TokenModel {
        match self {
            Token::Begin { name } => TokenModel::Begin { name: name@ },
            Token::Prop(p) => TokenModel::Prop { name: p.name@, value: p.value@ },
            Token::End => TokenModel::End,
        }
    }
}

/// Index of the first NUL byte of `s` at or after `i`, or the length
/// of `s` when there is none.
pub open spec fn spec_nul_pos(s: Seq<u8>, i: int) -> int
    decreases s.len() - i,
{
    if !(0 <= i < s.len()) {
        s.len() as int
    } else if s[i] == 0 {
        i
    } else {
        spec_nul_pos(s, i + 1)
    }
}

/// What the structure block holds at one token offset.
pub enum SpecStep {
    /// A token, and the offset of what follows it.
    Token(TokenModel, int),
    /// Padding; the offset of what follows it.
    Skip(int),
    /// The end-of-stream mark.
    Stop,
    /// The bytes at this offset are not a token.
    Bad(Error),
}

/// Decode the single token record at offset `o` of the blob `s`,
/// resolving property names in the strings block at `strings`.
pub open spec fn spec_step(s: Seq<u8>, strings: int, o: int) -> SpecStep {
    if !(0 <= o && o + 4 <= s.len()) {
        SpecStep::Bad(Error::Truncated)
    } else {
        let kind = spec_be32(s, o);
        if kind == 9 {
            SpecStep::Stop
        } else if kind == 4 {
            SpecStep::Skip(o + 4)
        } else if kind == 2 {
            SpecStep::Token(TokenModel::End, o + 4)
        } else if kind == 1 {
            let nul = spec_nul_pos(s, o + 4);
            if nul < s.len() && valid_utf8(s.subrange(o + 4, nul)) {
                if o + 4 + spec_align4(nul - (o + 4) + 1) <= s.len() {
                    SpecStep::Token(
                        TokenModel::Begin { name: s.subrange(o + 4, nul) },
                        o + 4 + spec_align4(nul - (o + 4) + 1),
                    )
                } else {
                    SpecStep::Bad(Error::Truncated)
                }
            } else {
                SpecStep::Bad(Error::BadString)
            }
        } else if kind == 3 {
            if o + 12 <= s.len() {
                let len = spec_be32(s, o + 4);
                let nameoff = spec_be32(s, o + 8);
                let p = strings + nameoff;
                let nul = spec_nul_pos(s, p);
                if o + 12 + spec_align4(len) <= s.len() {
                    if 0 <= p <= s.len() && nul < s.len() && valid_utf8(s.subrange(p, nul)) {
                        SpecStep::Token(
                            TokenModel::Prop {
                                name: s.subrange(p, nul),
                                value: s.subrange(o + 12, o + 12 + len),
                            },
                            o + 12 + spec_align4(len),
                        )
                    } else {
                        SpecStep::Bad(Error::BadString)
                    }
                } else {
                    SpecStep::Bad(Error::Truncated)
                }
            } else {
                SpecStep::Bad(Error::Truncated)
            }
        } else {
            SpecStep::Bad(Error::UnknownToken)
        }
    }
}

/// The NUL scan starting inside the buffer ends inside it or at its
/// end, never before its start.
pub proof fn lemma_nul_pos_bounds(s: Seq<u8>, i: int)
    requires
        0 <= i <= s.len(),
    ensures
        i <= spec_nul_pos(s, i) <= s.len(),
    decreases s.len() - i,
{
    if i < s.len() && s[i] != 0 {
        lemma_nul_pos_bounds(s, i + 1);
    }
}

/// Rounding a non-negative length up to four never moves it down, and
/// adds at most three.
pub proof fn lemma_align4_bounds(x: int)
    requires
        x >= 0,
    ensures
        x <= spec_align4(x) <= x + 3,
{
    assert(0 <= (4 - x % 4) % 4 <= 3) by (nonlinear_arith)
        requires
            x >= 0,
    ;
}

/// A decoded record always moves the offset forward and stays inside
/// the blob.
pub proof fn lemma_step_bounds(s: Seq<u8>, strings: int, o: int)
    ensures
        spec_step(s, strings, o) matches SpecStep::Token(t, n) ==> o < n <= s.len(),
        spec_step(s, strings, o) matches SpecStep::Skip(n) ==> o < n <= s.len(),
{
    if 0 <= o && o + 4 <= s.len() {
        let kind = spec_be32(s, o);
        if kind == 1 {
            lemma_nul_pos_bounds(s, o + 4);
            let nul = spec_nul_pos(s, o + 4);
            let x = nul - (o + 4) + 1;
            lemma_align4_bounds(x);
        } else if kind == 3 {
            if o + 12 <= s.len() {
                let len = spec_be32(s, o + 4);
                lemma_align4_bounds(len);
            }
        }
    }
}

/// At an end-of-stream mark the stream is intact and empty.
proof fn lemma_at_stop(s: Seq<u8>, strings: int, o: int)
    requires
        spec_step(s, strings, o) is Stop,
    ensures
        spec_head(s, strings, o) is Stop,
        spec_tokens(s, strings, o) == Seq::<TokenModel>::empty(),
        spec_stream_ok(s, strings, o),
{
}

/// At a malformed record the stream is broken and empty.
proof fn lemma_at_bad(s: Seq<u8>, strings: int, o: int, e: Error)
    requires
        spec_step(s, strings, o) == SpecStep::Bad(e),
    ensures
        spec_head(s, strings, o) == SpecStep::Bad(e),
        spec_tokens(s, strings, o) == Seq::<TokenModel>::empty(),
        !spec_stream_ok(s, strings, o),
{
}

/// Padding changes nothing about the stream that follows it.
proof fn lemma_at_skip(s: Seq<u8>, strings: int, o: int, n: int)
    requires
        spec_step(s, strings, o) == SpecStep::Skip(n),
        o < n <= s.len(),
    ensures
        spec_head(s, strings, o) == spec_head(s, strings, n),
        spec_tokens(s, strings, o) == spec_tokens(s, strings, n),
        spec_stream_ok(s, strings, o) == spec_stream_ok(s, strings, n),
{
    lemma_head_bounds(s, strings, n);
    assert(spec_head(s, strings, o) == spec_head(s, strings, n));
    match spec_head(s, strings, n) {
        SpecStep::Token(t, m) => {
            assert(o < m <= s.len() && n < m <= s.len());
            assert(spec_tokens(s, strings, o) =~= spec_tokens(s, strings, n));
        },
        _ => {
            assert(spec_tokens(s, strings, o) =~= spec_tokens(s, strings, n));
        },
    }
}

/// A token record prepends its token to the stream that follows it.
proof fn lemma_at_token(s: Seq<u8>, strings: int, o: int, t: TokenModel, n: int)
    requires
        spec_step(s, strings, o) == SpecStep::Token(t, n),
    ensures
        spec_head(s, strings, o) == SpecStep::Token(t, n),
        o < n <= s.len(),
        spec_tokens(s, strings, o) == seq![t] + spec_tokens(s, strings, n),
        spec_stream_ok(s, strings, o) == spec_stream_ok(s, strings, n),
{
    lemma_step_bounds(s, strings, o);
    assert(spec_tokens(s, strings, o) =~= seq![t] + spec_tokens(s, strings, n));
}

/// The first non-padding record at or after offset `o`.
pub open spec fn spec_head(s: Seq<u8>, strings: int, o: int) -> SpecStep
    decreases s.len() - o,
{
    match spec_step(s, strings, o) {
        SpecStep::Skip(n) => if o < n <= s.len() {
            spec_head(s, strings, n)
        } else {
            SpecStep::Bad(Error::Truncated)
        },
        step => step,
    }
}

/// A token record found at or after `o` ends past `o` and within the
/// blob, and padding only moves forward.
pub proof fn lemma_head_bounds(s: Seq<u8>, strings: int, o: int)
    ensures
        spec_head(s, strings, o) matches SpecStep::Token(t, m) ==> o < m <= s.len(),
    decreases s.len() - o,
{
    lemma_step_bounds(s, strings, o);
    match spec_step(s, strings, o) {
        SpecStep::Skip(n) => {
            if o < n <= s.len() {
                lemma_head_bounds(s, strings, n);
            }
        },
        _ => {},
    }
}

/// The token sequence of the structure block from offset `o` on,
/// cut short at the end-of-stream mark or at the first malformed
/// record.
pub open spec fn spec_tokens(s: Seq<u8>, strings: int, o: int) -> Seq<TokenModel>
    decreases s.len() - o,
{
    match spec_head(s, strings, o) {
        SpecStep::Token(t, n) => seq![t] + if o < n <= s.len() {
            spec_tokens(s, strings, n)
        } else {
            Seq::empty()
        },
        _ => Seq::empty(),
    }
}

/// True when the structure block from offset `o` on reaches its
/// end-of-stream mark without a malformed record.
pub open spec fn spec_stream_ok(s: Seq<u8>, strings: int, o: int) -> bool
    decreases s.len() - o,
{
    match spec_head(s, strings, o) {
        SpecStep::Stop => true,
        SpecStep::Token(t, n) => o < n <= s.len() && spec_stream_ok(s, strings, n),
        _ => false,
    }
}

/// A borrowed device-tree blob.
#[derive(Clone, Copy, Debug)]
pub struct Blob<'a> {
    bytes: &'a [u8],
}

impl<'a> View for Blob<'a> {
    type V = Seq<u8>;

    closed spec fn view(&self) -> Seq<u8> {
        self.bytes@
    }
}

impl<'a> Blob<'a> {
    /// Blob sizes fit the header's 32-bit size field, with room for
    /// one record's padding arithmetic in a machine word.
    pub open spec fn wf(self) -> bool {
        self@.len() < 0x1_0000_0000 && self@.len() + 16 <= usize::MAX
    }

    /// Borrow a blob. The format stores its total size in 32 bits, so
    /// larger buffers cannot hold one blob.
    pub fn new(bytes: &'a [u8]) -> (r: Self)
        requires
            bytes@.len() < 0x1_0000_0000,
            bytes@.len() + 16 <= usize::MAX,
        ensures
            r@ == bytes@,
            r.wf(),
    {
        Blob { bytes }
    }

    /// The borrowed bytes.
    pub fn bytes(&self) -> (r: &'a [u8])
        ensures
            r@ == self@,
    {
        self.bytes
    }

    /// Decode the header. Succeeds exactly when the full header is
    /// present and the magic bytes hold [`MAGIC`]; any other leading
    /// bytes reject the whole blob.
    pub fn header(&self) -> (r: Result<Header, Error>)
        ensures
            r is Ok <==> self@.len() >= 40 && spec_be32(self@, 0) == MAGIC,
            r matches Ok(h) ==> h == spec_header(self@),
            r == Err::<Header, Error>(Error::Truncated) <==> self@.len() < 40,
            r == Err::<Header, Error>(Error::BadMagic) <==> self@.len() >= 40 && spec_be32(self@, 0)
                != MAGIC,
    {
        if self.bytes.len() < 40 {
            return Err(Error::Truncated);
        }
        if read_be32(self.bytes, 0) != MAGIC {
            return Err(Error::BadMagic);
        }
        Ok(
            Header {
                magic: read_be32(self.bytes, 0),
                total_size: read_be32(self.bytes, 4),
                off_dt_struct: read_be32(self.bytes, 8),
                off_dt_strings: read_be32(self.bytes, 12),
                off_mem_rsvmap: read_be32(self.bytes, 16),
                version: read_be32(self.bytes, 20),
                last_comp_version: read_be32(self.bytes, 24),
                boot_cpuid_phys: read_be32(self.bytes, 28),
                size_dt_strings: read_be32(self.bytes, 32),
                size_dt_struct: read_be32(self.bytes, 36),
            },
        )
    }

    /// The root node of the tree, with the format's default cell
    /// widths (two address cells, one size cell) in force at the top.
    /// Succeeds exactly when the header is whole, the magic bytes are
    /// right, and a node begins in the structure block.
    pub fn root(&self) -> (r: Result<Root<'a>, Error>)
        requires
            self.wf(),
        ensures
            r is Ok <==> self@.len() >= 40 && spec_be32(self@, 0) == MAGIC && spec_next_begin(
                self@,
                spec_header(self@).off_dt_strings as int,
                spec_header(self@).off_dt_struct as int,
            ) is Some,
            r == Err::<Root<'a>, Error>(Error::BadMagic) <==> self@.len() >= 40 && spec_be32(
                self@,
                0,
            ) != MAGIC,
            r == Err::<Root<'a>, Error>(Error::Truncated) <==> self@.len() < 40 || (self@.len()
                >= 40 && spec_be32(self@, 0) == MAGIC && spec_next_begin(
                self@,
                spec_header(self@).off_dt_strings as int,
                spec_header(self@).off_dt_struct as int,
            ) is None),
            r matches Ok(root) ==> {
                let s = self@;
                let strings = spec_header(self@).off_dt_strings as int;
                &&& root.spec_node().spec_cursor().wf()
                &&& root.spec_node().spec_cursor().spec_blob() == s
                &&& root.spec_node().spec_cursor().spec_strings() == strings
                &&& (match spec_next_begin(
                    s,
                    strings,
                    spec_header(self@).off_dt_struct as int,
                ) {
                    Some((nm, nx)) => root.spec_node().spec_name() == nm
                        && root.spec_node().spec_cursor().spec_offset() == nx
                        && root.spec_node().spec_address_cells() == spec_cell_prop(
                        s,
                        strings,
                        nx,
                        "#address-cells".spec_bytes(),
                        2,
                    ) && root.spec_node().spec_size_cells() == spec_cell_prop(
                        s,
                        strings,
                        nx,
                        "#size-cells".spec_bytes(),
                        1,
                    ),
                    None => false,
                })
            },
    {
        let cursor = self.walk()?;
        let mut nodes = NodeIter { cursor, address_cells: 2, size_cells: 1 };
        match nodes.next() {
            Some(node) => Ok(Root { node }),
            None => Err(Error::Truncated),
        }
    }

    /// A cursor at the start of the structure block.
    pub fn walk(&self) -> (r: Result<Cursor<'a>, Error>)
        requires
            self.wf(),
        ensures
            r is Ok <==> self@.len() >= 40 && spec_be32(self@, 0) == MAGIC,
            r == Err::<Cursor<'a>, Error>(Error::Truncated) <==> self@.len() < 40,
            r == Err::<Cursor<'a>, Error>(Error::BadMagic) <==> self@.len() >= 40 && spec_be32(
                self@,
                0,
            ) != MAGIC,
            r matches Ok(c) ==> c.wf() && c.spec_blob() == self@ && c.spec_strings()
                == spec_header(self@).off_dt_strings && c.spec_offset() == spec_header(
                self@,
            ).off_dt_struct,
    {
        let header = self.header()?;
        Ok(
            Cursor {
                blob: *self,
                strings: header.off_dt_strings as usize,
                offset: header.off_dt_struct as usize,
            },
        )
    }

    /// Every token of the structure block, in order. Fails exactly
    /// when a record is malformed, with that record's fault.
    #[verifier::rlimit(100)]
    pub fn iter(&self) -> (r: Result<Vec<Token<'a>>, Error>)
        requires
            self.wf(),
        ensures
            self@.len() >= 40 && spec_be32(self@, 0) == MAGIC ==> {
                let start = spec_header(self@).off_dt_struct as int;
                let strings = spec_header(self@).off_dt_strings as int;
                &&& (r is Ok <==> spec_stream_ok(self@, strings, start))
                &&& (r matches Ok(v) ==> v@.map_values(|t: Token<'a>| t@) == spec_tokens(
                    self@,
                    strings,
                    start,
                ))
            },
            self@.len() < 40 ==> r == Err::<Vec<Token<'a>>, Error>(Error::Truncated),
            self@.len() >= 40 && spec_be32(self@, 0) != MAGIC ==> r == Err::<
                Vec<Token<'a>>,
                Error,
            >(Error::BadMagic),
    {
        let mut cursor = self.walk()?;
        let mut v: Vec<Token<'a>> = Vec::new();
        let ghost start = cursor;
        loop
            invariant
                cursor.wf(),
                self@.len() >= 40 && spec_be32(self@, 0) == MAGIC,
                start.spec_blob() == self@,
                start.spec_strings() == spec_header(self@).off_dt_strings,
                start.spec_offset() == spec_header(self@).off_dt_struct,
                cursor.spec_blob() == start.spec_blob(),
                cursor.spec_strings() == start.spec_strings(),
                start.spec_tokens() =~= v@.map_values(|t: Token<'a>| t@) + cursor.spec_tokens(),
                start.spec_ok() == cursor.spec_ok(),
            decreases cursor.spec_blob().len() - cursor.spec_offset(),
        {
            let ghost pre = cursor;
            let ghost prev = v@;
            match cursor.next() {
                Err(e) => {
                    assert(!start.spec_ok());
                    return Err(e);
                },
                Ok(None) => {
                    assert(pre.spec_tokens() =~= Seq::<TokenModel>::empty());
                    assert(start.spec_tokens() =~= v@.map_values(|t: Token<'a>| t@));
                    assert(start.spec_ok());
                    return Ok(v);
                },
                Ok(Some(t)) => {
                    v.push(t);
                    proof {
                        assert(v@.map_values(|t: Token<'a>| t@) =~= prev.map_values(
                            |t: Token<'a>| t@,
                        ).push(t@));
                        assert(start.spec_tokens() =~= v@.map_values(|t: Token<'a>| t@)
                            + cursor.spec_tokens());
                    }
                },
            }
        }
    }

}

/// A position inside the structure block of one blob.
#[derive(Clone, Copy, Debug)]
pub struct Cursor<'a> {
    blob: Blob<'a>,
    strings: usize,
    offset: usize,
}

impl<'a> Cursor<'a> {
    /// The blob's bytes.
    pub closed spec fn spec_blob(self) -> Seq<u8> {
        self.blob@
    }

    /// Offset of the strings block.
    pub closed spec fn spec_strings(self) -> int {
        self.strings as int
    }

    /// The cursor's byte offset.
    pub closed spec fn spec_offset(self) -> int {
        self.offset as int
    }

    /// The blob fits the format's 32-bit sizes, with room for one
    /// record's padding arithmetic in a machine word.
    pub open spec fn wf(self) -> bool {
        self.spec_blob().len() < 0x1_0000_0000 && self.spec_blob().len() + 16 <= usize::MAX
    }

    /// The tokens from the cursor's position on.
    pub open spec fn spec_tokens(self) -> Seq<TokenModel> {
        spec_tokens(self.spec_blob(), self.spec_strings(), self.spec_offset())
    }

    /// True when the stream from the cursor's position on reaches the
    /// end-of-stream mark intact.
    pub open spec fn spec_ok(self) -> bool {
        spec_stream_ok(self.spec_blob(), self.spec_strings(), self.spec_offset())
    }

    /// The first non-padding record at the cursor.
    pub open spec fn spec_head(self) -> SpecStep {
        spec_head(self.spec_blob(), self.spec_strings(), self.spec_offset())
    }

    /// Scan for the NUL that ends the string at `i`, checking that the
    /// string is valid UTF-8.
    fn scan_string(&self, i: usize) -> (r: (usize, bool))
        requires
            i <= self.spec_blob().len(),
        ensures
            r.0 == spec_nul_pos(self.spec_blob(), i as int),
            i <= r.0 <= self.spec_blob().len(),
            r.0 < self.spec_blob().len() ==> self.spec_blob()[r.0 as int] == 0,
            r.1 == valid_utf8(self.spec_blob().subrange(i as int, r.0 as int)),
    {
        let s = self.blob.bytes();
        let n = s.len();
        let mut k = i;
        while k < n && s[k] != 0
            invariant
                i <= k <= n,
                n == self.spec_blob().len(),
                s@ == self.spec_blob(),
                spec_nul_pos(self.spec_blob(), i as int) == spec_nul_pos(
                    self.spec_blob(),
                    k as int,
                ),
                forall|m: int| i <= m < k ==> self.spec_blob()[m] != 0,
            decreases n - k,
        {
            k += 1;
        }
        let valid = is_valid_utf8(vstd::slice::slice_subrange(s, i, k));
        (k, valid)
    }

    /// Decode the record at the cursor.
    fn step(&self) -> (r: (ExecStep<'a>))
        requires
            self.wf(),
        ensures
            r@ == spec_step(self.spec_blob(), self.spec_strings(), self.spec_offset()),
    {
        let s = self.blob.bytes();
        let n = s.len();
        let o = self.offset;
        if o > n || n - o < 4 {
            return ExecStep::Bad(Error::Truncated);
        }
        let kind = read_be32(s, o);
        if kind == 9 {
            ExecStep::Stop
        } else if kind == 4 {
            ExecStep::Skip(o + 4)
        } else if kind == 2 {
            ExecStep::Token(Token::End, o + 4)
        } else if kind == 1 {
            let (nul, ascii) = self.scan_string(o + 4);
            if nul < n && ascii {
                let padded = align4(nul - (o + 4) + 1);
                if padded <= n - (o + 4) {
                    let name = vstd::slice::slice_subrange(s, o + 4, nul);
                    ExecStep::Token(Token::Begin { name }, o + 4 + padded)
                } else {
                    ExecStep::Bad(Error::Truncated)
                }
            } else {
                ExecStep::Bad(Error::BadString)
            }
        } else if kind == 3 {
            if n - o < 12 {
                return ExecStep::Bad(Error::Truncated);
            }
            let len32 = read_be32(s, o + 4);
            let nameoff32 = read_be32(s, o + 8);
            if len32 as u64 > (n - (o + 12)) as u64 {
                return ExecStep::Bad(Error::Truncated);
            }
            let len = len32 as usize;
            let padded = align4(len);
            if padded > n - (o + 12) {
                return ExecStep::Bad(Error::Truncated);
            }
            let nameoff = nameoff32 as usize;
            if self.strings > n || nameoff > n - self.strings {
                assert(self.spec_strings() + spec_be32(self.spec_blob(), self.spec_offset() + 8)
                    > n);
                return ExecStep::Bad(Error::BadString);
            }
            let p = self.strings + nameoff;
            let (nul, ascii) = self.scan_string(p);
            if nul < n && ascii {
                let name = vstd::slice::slice_subrange(s, p, nul);
                let value = vstd::slice::slice_subrange(s, o + 12, o + 12 + len);
                ExecStep::Token(Token::Prop(Prop { name, value }), o + 12 + padded)
            } else {
                ExecStep::Bad(Error::BadString)
            }
        } else {
            ExecStep::Bad(Error::UnknownToken)
        }
    }

    /// Step to the next token and return it; `Ok(None)` at the
    /// end-of-stream mark, and the record's fault where the stream is
    /// malformed. Padding records are passed over.
    #[verifier::rlimit(100)]
    pub fn next(&mut self) -> (r: Result<Option<Token<'a>>, Error>)
        requires
            old(self).wf(),
        ensures
            final(self).wf(),
            final(self).spec_blob() == old(self).spec_blob(),
            final(self).spec_strings() == old(self).spec_strings(),
            final(self).spec_offset() >= old(self).spec_offset(),
            final(self).spec_offset() <= final(self).spec_blob().len() || final(self).spec_offset()
                == old(self).spec_offset(),
            match r {
                Ok(Some(t)) => {
                    &&& old(self).spec_head() matches SpecStep::Token(tm, n)
                    &&& t@ == old(self).spec_head()->Token_0
                    &&& final(self).spec_offset() == old(self).spec_head()->Token_1
                    &&& final(self).spec_offset() > old(self).spec_offset()
                    &&& final(self).spec_offset() <= final(self).spec_blob().len()
                    &&& old(self).spec_tokens() == seq![t@] + final(self).spec_tokens()
                    &&& old(self).spec_ok() == final(self).spec_ok()
                },
                Ok(None) => {
                    &&& old(self).spec_head() is Stop
                    &&& final(self).spec_head() is Stop
                    &&& old(self).spec_tokens() == Seq::<TokenModel>::empty()
                    &&& old(self).spec_ok()
                },
                Err(e) => {
                    &&& old(self).spec_head() == SpecStep::Bad(e)
                    &&& final(self).spec_head() == SpecStep::Bad(e)
                    &&& old(self).spec_tokens() == Seq::<TokenModel>::empty()
                    &&& !old(self).spec_ok()
                },
            },
    {
        loop
            invariant
                self.wf(),
                self.spec_blob() == old(self).spec_blob(),
                self.spec_strings() == old(self).spec_strings(),
                self.spec_offset() >= old(self).spec_offset(),
                self.spec_offset() <= self.spec_blob().len() || self.spec_offset() == old(
                    self,
                ).spec_offset(),
                self.spec_head() == old(self).spec_head(),
                self.spec_tokens() == old(self).spec_tokens(),
                self.spec_ok() == old(self).spec_ok(),
            decreases self.spec_blob().len() - self.spec_offset(),
        {
            let ghost snapshot = *self;
            match self.step() {
                ExecStep::Stop => {
                    proof {
                        lemma_at_stop(
                            snapshot.spec_blob(),
                            snapshot.spec_strings(),
                            snapshot.spec_offset(),
                        );
                    }
                    return Ok(None);
                },
                ExecStep::Bad(e) => {
                    proof {
                        lemma_at_bad(
                            snapshot.spec_blob(),
                            snapshot.spec_strings(),
                            snapshot.spec_offset(),
                            e,
                        );
                    }
                    return Err(e);
                },
                ExecStep::Skip(n) => {
                    proof {
                        lemma_step_bounds(
                            snapshot.spec_blob(),
                            snapshot.spec_strings(),
                            snapshot.spec_offset(),
                        );
                        lemma_at_skip(
                            snapshot.spec_blob(),
                            snapshot.spec_strings(),
                            snapshot.spec_offset(),
                            n as int,
                        );
                    }
                    self.offset = n;
                },
                ExecStep::Token(t, n) => {
                    proof {
                        lemma_at_token(
                            snapshot.spec_blob(),
                            snapshot.spec_strings(),
                            snapshot.spec_offset(),
                            t@,
                            n as int,
                        );
                    }
                    self.offset = n;
                    return Ok(Some(t));
                },
            }
        }
    }
}


/// The value of the first property named `name` among the properties
/// at offset `o`, before any child node or the owning node's end.
pub open spec fn spec_find_prop(s: Seq<u8>, strings: int, o: int, name: Seq<u8>) -> Option<Seq<u8>>
    decreases s.len() - o,
{
    match spec_head(s, strings, o) {
        SpecStep::Token(TokenModel::Prop { name: n, value: v }, nx) => if n == name {
            Some(v)
        } else if o < nx <= s.len() {
            spec_find_prop(s, strings, nx, name)
        } else {
            None
        },
        _ => None,
    }
}

/// The value of the 32-bit cell property named `name` at offset `o`,
/// or `default` when the property is missing. A present property of
/// any other width also falls back to `default`: the width carries no
/// meaning this consumer could use.
pub open spec fn spec_cell_prop(
    s: Seq<u8>,
    strings: int,
    o: int,
    name: Seq<u8>,
    default: u32,
) -> u32 {
    match spec_find_prop(s, strings, o, name) {
        Some(v) => if v.len() == 4 {
            spec_be32(v, 0) as u32
        } else {
            default
        },
        None => default,
    }
}

/// The offset just past the end of the node whose content starts at
/// `o`, with `depth` nested nodes still open; `None` when the stream
/// ends or breaks first.
pub open spec fn spec_after_node(s: Seq<u8>, strings: int, o: int, depth: int) -> Option<int>
    decreases s.len() - o,
{
    match spec_head(s, strings, o) {
        SpecStep::Token(TokenModel::End, nx) => if depth <= 0 {
            Some(nx)
        } else if o < nx <= s.len() {
            spec_after_node(s, strings, nx, depth - 1)
        } else {
            None
        },
        SpecStep::Token(TokenModel::Begin { .. }, nx) => if o < nx <= s.len() {
            spec_after_node(s, strings, nx, depth + 1)
        } else {
            None
        },
        SpecStep::Token(TokenModel::Prop { .. }, nx) => if o < nx <= s.len() {
            spec_after_node(s, strings, nx, depth)
        } else {
            None
        },
        _ => None,
    }
}

/// The name and content offset of the next node to begin at or after
/// `o`, skipping properties; `None` at the owning node's end or when
/// the stream ends or breaks.
pub open spec fn spec_next_begin(s: Seq<u8>, strings: int, o: int) -> Option<(Seq<u8>, int)>
    decreases s.len() - o,
{
    match spec_head(s, strings, o) {
        SpecStep::Token(TokenModel::Begin { name }, nx) => Some((name, nx)),
        SpecStep::Token(TokenModel::Prop { .. }, nx) => if o < nx <= s.len() {
            spec_next_begin(s, strings, nx)
        } else {
            None
        },
        _ => None,
    }
}

/// The content offset of the first child named `name` among the
/// children beginning at or after `o`.
pub open spec fn spec_find_child(s: Seq<u8>, strings: int, o: int, name: Seq<u8>) -> Option<int>
    decreases s.len() - o,
{
    match spec_next_begin(s, strings, o) {
        Some((nm, nx)) => if nm == name {
            Some(nx)
        } else {
            match spec_after_node(s, strings, nx, 0) {
                Some(m) => if o < m <= s.len() {
                    spec_find_child(s, strings, m, name)
                } else {
                    None
                },
                None => None,
            }
        },
        None => None,
    }
}

impl<'a> Cursor<'a> {
    /// Walk the properties at the cursor and hand back the value of
    /// the first one named `name`; `None` once anything but a property
    /// comes first.
    pub fn find_prop(&mut self, name: &[u8]) -> (r: Option<&'a [u8]>)
        requires
            old(self).wf(),
        ensures
            final(self).wf(),
            final(self).spec_blob() == old(self).spec_blob(),
            final(self).spec_strings() == old(self).spec_strings(),
            final(self).spec_offset() >= old(self).spec_offset(),
            match r {
                Some(v) => spec_find_prop(
                    old(self).spec_blob(),
                    old(self).spec_strings(),
                    old(self).spec_offset(),
                    name@,
                ) == Some(v@),
                None => spec_find_prop(
                    old(self).spec_blob(),
                    old(self).spec_strings(),
                    old(self).spec_offset(),
                    name@,
                ) is None,
            },
    {
        loop
            invariant
                self.wf(),
                self.spec_blob() == old(self).spec_blob(),
                self.spec_strings() == old(self).spec_strings(),
                self.spec_offset() >= old(self).spec_offset(),
                spec_find_prop(self.spec_blob(), self.spec_strings(), self.spec_offset(), name@)
                    == spec_find_prop(
                    old(self).spec_blob(),
                    old(self).spec_strings(),
                    old(self).spec_offset(),
                    name@,
                ),
            decreases self.spec_blob().len() - self.spec_offset(),
        {
            match self.next() {
                Ok(Some(Token::Prop(p))) => {
                    if bytes_eq(p.name, name) {
                        return Some(p.value);
                    }
                },
                _ => {
                    return None;
                },
            }
        }
    }

    /// The 32-bit cell property named `name` among the properties at
    /// the cursor, or `default` when absent; a present property of any
    /// other width also falls back to `default`.
    pub fn cell_prop(&mut self, name: &[u8], default: u32) -> (r: u32)
        requires
            old(self).wf(),
        ensures
            final(self).wf(),
            final(self).spec_blob() == old(self).spec_blob(),
            final(self).spec_strings() == old(self).spec_strings(),
            r == spec_cell_prop(
                old(self).spec_blob(),
                old(self).spec_strings(),
                old(self).spec_offset(),
                name@,
                default,
            ),
    {
        match self.find_prop(name) {
            Some(v) => if v.len() == 4 {
                read_be32(v, 0)
            } else {
                default
            },
            None => default,
        }
    }

    /// Consume the rest of the node whose content the cursor stands
    /// in, its closing end included, leaving the cursor at the next
    /// sibling position.
    pub fn seek_sibling(&mut self)
        requires
            old(self).wf(),
        ensures
            final(self).wf(),
            final(self).spec_blob() == old(self).spec_blob(),
            final(self).spec_strings() == old(self).spec_strings(),
            final(self).spec_offset() >= old(self).spec_offset(),
            final(self).spec_offset() <= final(self).spec_blob().len() || final(self).spec_offset()
                == old(self).spec_offset(),
            match spec_after_node(
                old(self).spec_blob(),
                old(self).spec_strings(),
                old(self).spec_offset(),
                0,
            ) {
                Some(m) => final(self).spec_offset() == m,
                None => !(final(self).spec_head() is Token),
            },
    {
        let mut depth: u64 = 0;
        loop
            invariant
                self.wf(),
                self.spec_blob() == old(self).spec_blob(),
                self.spec_strings() == old(self).spec_strings(),
                self.spec_offset() >= old(self).spec_offset(),
                self.spec_offset() <= self.spec_blob().len() || self.spec_offset() == old(
                    self,
                ).spec_offset(),
                depth <= self.spec_offset() - old(self).spec_offset(),
                spec_after_node(
                    self.spec_blob(),
                    self.spec_strings(),
                    self.spec_offset(),
                    depth as int,
                ) == spec_after_node(
                    old(self).spec_blob(),
                    old(self).spec_strings(),
                    old(self).spec_offset(),
                    0,
                ),
            decreases self.spec_blob().len() - self.spec_offset(),
        {
            match self.next() {
                Ok(Some(Token::End)) => {
                    if depth == 0 {
                        return ;
                    }
                    depth = depth - 1;
                },
                Ok(Some(Token::Begin { .. })) => {
                    depth = depth + 1;
                },
                Ok(Some(Token::Prop(..))) => {
                },
                _ => {
                    return ;
                },
            }
        }
    }
}

/// One node of the tree: a snapshot of its name, identity and
/// effective cell widths, with a cursor at its first property. It does
/// not own the blob.
#[derive(Clone, Copy, Debug)]
pub struct Node<'a> {
    name: &'a [u8],
    compatible: Option<&'a [u8]>,
    phandle: u32,
    address_cells: u32,
    size_cells: u32,
    parent_address_cells: u32,
    parent_size_cells: u32,
    cursor: Cursor<'a>,
}

impl<'a> Node<'a> {
    /// The node's name.
    pub closed spec fn spec_name(self) -> Seq<u8> {
        self.name@
    }

    /// The raw `compatible` string list, when the node has one.
    pub closed spec fn spec_compatible(self) -> Option<Seq<u8>> {
        match self.compatible {
            Some(c) => Some(c@),
            None => None,
        }
    }

    /// The node's phandle field.
    pub closed spec fn spec_phandle(self) -> u32 {
        self.phandle
    }

    /// The node's effective address-cells width.
    pub closed spec fn spec_address_cells(self) -> u32 {
        self.address_cells
    }

    /// The node's effective size-cells width.
    pub closed spec fn spec_size_cells(self) -> u32 {
        self.size_cells
    }

    /// The parent's effective address-cells width, which governs this
    /// node's own `reg` and `ranges` values.
    pub closed spec fn spec_parent_address_cells(self) -> u32 {
        self.parent_address_cells
    }

    /// The parent's effective size-cells width, which governs this
    /// node's own `reg` and `ranges` values.
    pub closed spec fn spec_parent_size_cells(self) -> u32 {
        self.parent_size_cells
    }

    /// The cursor at the node's first property.
    pub closed spec fn spec_cursor(self) -> Cursor<'a> {
        self.cursor
    }

    /// The node's name.
    pub fn name(&self) -> (r: &'a [u8])
        ensures
            r@ == self.spec_name(),
    {
        self.name
    }

    /// The node's `compatible` string list; empty when the node has
    /// none.
    pub fn compatible(&self) -> (r: StrIter<'a>)
        ensures
            r.spec_data() == match self.spec_compatible() {
                Some(c) => c,
                None => Seq::<u8>::empty(),
            },
    {
        match self.compatible {
            Some(c) => StrIter::new(c),
            None => {
                let empty = vstd::slice::slice_subrange(self.cursor.blob.bytes(), 0, 0);
                assert(empty@ =~= Seq::<u8>::empty());
                StrIter::new(empty)
            },
        }
    }

    /// The node's phandle, or the all-ones sentinel when absent.
    pub fn phandle(&self) -> (r: u32)
        ensures
            r == self.spec_phandle(),
    {
        self.phandle
    }

    /// The effective `#address-cells` width for this node's children:
    /// its own property when present, else the inherited one.
    pub fn address_cells(&self) -> (r: u32)
        ensures
            r == self.spec_address_cells(),
    {
        self.address_cells
    }

    /// The effective `#size-cells` width for this node's children:
    /// its own property when present, else the inherited one.
    pub fn size_cells(&self) -> (r: u32)
        ensures
            r == self.spec_size_cells(),
    {
        self.size_cells
    }

    /// The node's properties, in order.
    pub fn props(&self) -> (r: PropIter<'a>)
        ensures
            r.spec_cursor() == self.spec_cursor(),
    {
        PropIter { cursor: self.cursor }
    }

    /// The node's `reg` property, chunked with the cell widths the
    /// parent dictates: `Ok(None)` when absent, and a width above two
    /// cells — which this consumer cannot interpret — is fatal.
    pub fn reg(&self) -> (r: Result<Option<RegIter<'a>>, Error>)
        requires
            self.spec_cursor().wf(),
        ensures
            match spec_find_prop(
                self.spec_cursor().spec_blob(),
                self.spec_cursor().spec_strings(),
                self.spec_cursor().spec_offset(),
                "reg".spec_bytes(),
            ) {
                Some(v) => if self.spec_parent_address_cells() <= 2
                    && self.spec_parent_size_cells() <= 2 {
                    r matches Ok(Some(it)) && (r->Ok_0->Some_0).spec_data() == v
                        && (r->Ok_0->Some_0).spec_address_bytes() == 4
                        * self.spec_parent_address_cells() && (r->Ok_0->Some_0).spec_size_bytes()
                        == 4 * self.spec_parent_size_cells()
                } else {
                    r == Err::<Option<RegIter<'a>>, Error>(Error::BadPropSize)
                },
                None => r == Ok::<Option<RegIter<'a>>, Error>(None),
            },
    {
        let mut cursor = self.cursor;
        match cursor.find_prop("reg".as_bytes()) {
            Some(value) => {
                if self.parent_address_cells > 2 || self.parent_size_cells > 2 {
                    Err(Error::BadPropSize)
                } else {
                    Ok(
                        Some(
                            RegIter::new(
                                (4 * self.parent_address_cells) as u64,
                                (4 * self.parent_size_cells) as u64,
                                value,
                            ),
                        ),
                    )
                }
            },
            None => Ok(None),
        }
    }

    /// The node's `ranges` property, chunked with the cell widths the
    /// parent dictates: `Ok(None)` when absent, and a width above two
    /// cells is fatal.
    pub fn ranges(&self) -> (r: Result<Option<RangeIter<'a>>, Error>)
        requires
            self.spec_cursor().wf(),
        ensures
            match spec_find_prop(
                self.spec_cursor().spec_blob(),
                self.spec_cursor().spec_strings(),
                self.spec_cursor().spec_offset(),
                "ranges".spec_bytes(),
            ) {
                Some(v) => if self.spec_parent_address_cells() <= 2
                    && self.spec_parent_size_cells() <= 2 {
                    r matches Ok(Some(it)) && (r->Ok_0->Some_0).spec_data() == v
                        && (r->Ok_0->Some_0).spec_address_bytes() == 4
                        * self.spec_parent_address_cells() && (r->Ok_0->Some_0).spec_size_bytes()
                        == 4 * self.spec_parent_size_cells()
                } else {
                    r == Err::<Option<RangeIter<'a>>, Error>(Error::BadPropSize)
                },
                None => r == Ok::<Option<RangeIter<'a>>, Error>(None),
            },
    {
        let mut cursor = self.cursor;
        match cursor.find_prop("ranges".as_bytes()) {
            Some(value) => {
                if self.parent_address_cells > 2 || self.parent_size_cells > 2 {
                    Err(Error::BadPropSize)
                } else {
                    Ok(
                        Some(
                            RangeIter::new(
                                (4 * self.parent_address_cells) as u64,
                                (4 * self.parent_size_cells) as u64,
                                value,
                            ),
                        ),
                    )
                }
            },
            None => Ok(None),
        }
    }

    /// The node's children; each inherits this node's effective cell
    /// widths.
    pub fn children(&self) -> (r: NodeIter<'a>)
        ensures
            r.spec_cursor() == self.spec_cursor(),
            r.spec_address_cells() == self.spec_address_cells(),
            r.spec_size_cells() == self.spec_size_cells(),
    {
        NodeIter {
            cursor: self.cursor,
            address_cells: self.address_cells,
            size_cells: self.size_cells,
        }
    }
}

/// Walks the properties of one node, in order.
pub struct PropIter<'a> {
    cursor: Cursor<'a>,
}

impl<'a> PropIter<'a> {
    /// The cursor at the next property to hand out.
    pub closed spec fn spec_cursor(self) -> Cursor<'a> {
        self.cursor
    }

    /// The next property, or `None` once anything else follows.
    pub fn next(&mut self) -> (r: Option<Prop<'a>>)
        requires
            old(self).spec_cursor().wf(),
        ensures
            final(self).spec_cursor().wf(),
            final(self).spec_cursor().spec_blob() == old(self).spec_cursor().spec_blob(),
            final(self).spec_cursor().spec_strings() == old(self).spec_cursor().spec_strings(),
            match r {
                Some(p) => {
                    &&& old(self).spec_cursor().spec_head() == SpecStep::Token(
                        TokenModel::Prop { name: p.name@, value: p.value@ },
                        final(self).spec_cursor().spec_offset(),
                    )
                },
                None => !(old(self).spec_cursor().spec_head() matches SpecStep::Token(
                    TokenModel::Prop { .. },
                    _,
                )),
            },
    {
        let mut probe = self.cursor;
        match probe.next() {
            Ok(Some(Token::Prop(p))) => {
                self.cursor = probe;
                Some(p)
            },
            _ => None,
        }
    }
}

/// Walks the nodes that begin at or after a cursor position, handing
/// each out as a snapshot and skipping over its subtree.
pub struct NodeIter<'a> {
    cursor: Cursor<'a>,
    address_cells: u32,
    size_cells: u32,
}

impl<'a> NodeIter<'a> {
    /// The cursor at the iterator's position.
    pub closed spec fn spec_cursor(self) -> Cursor<'a> {
        self.cursor
    }

    /// The inherited address-cells width.
    pub closed spec fn spec_address_cells(self) -> u32 {
        self.address_cells
    }

    /// The inherited size-cells width.
    pub closed spec fn spec_size_cells(self) -> u32 {
        self.size_cells
    }

    /// The next node to begin, as a snapshot: its name from the
    /// opening token; its phandle, or the all-ones sentinel when
    /// absent; its effective cell widths — its own property when
    /// present, else the width inherited from its parent; and its raw
    /// `compatible` list. The iterator itself moves past the node's
    /// whole subtree.
    pub fn next(&mut self) -> (r: Option<Node<'a>>)
        requires
            old(self).spec_cursor().wf(),
        ensures
            final(self).spec_cursor().wf(),
            final(self).spec_cursor().spec_blob() == old(self).spec_cursor().spec_blob(),
            final(self).spec_cursor().spec_strings() == old(self).spec_cursor().spec_strings(),
            final(self).spec_cursor().spec_offset() >= old(self).spec_cursor().spec_offset(),
            r is Some ==> final(self).spec_cursor().spec_offset() > old(self).spec_cursor().spec_offset(),
            r is Some ==> final(self).spec_cursor().spec_offset() <= final(self).spec_cursor().spec_blob().len(),
            final(self).spec_address_cells() == old(self).spec_address_cells(),
            final(self).spec_size_cells() == old(self).spec_size_cells(),
            match spec_next_begin(
                old(self).spec_cursor().spec_blob(),
                old(self).spec_cursor().spec_strings(),
                old(self).spec_cursor().spec_offset(),
            ) {
                Some((nm, nx)) => {
                    &&& r matches Some(node)
                    &&& {
                        let node = r->0;
                        let s = old(self).spec_cursor().spec_blob();
                        let strings = old(self).spec_cursor().spec_strings();
                        &&& node.spec_name() == nm
                        &&& node.spec_cursor().wf()
                        &&& node.spec_cursor().spec_blob() == s
                        &&& node.spec_cursor().spec_strings() == strings
                        &&& node.spec_cursor().spec_offset() == nx
                        &&& (match node.spec_compatible() {
                            Some(c) => spec_find_prop(s, strings, nx, "compatible".spec_bytes())
                                == Some(c),
                            None => spec_find_prop(s, strings, nx, "compatible".spec_bytes())
                                is None,
                        })
                        &&& node.spec_phandle() == spec_cell_prop(
                            s,
                            strings,
                            nx,
                            "phandle".spec_bytes(),
                            0xFFFF_FFFF,
                        )
                        &&& node.spec_address_cells() == spec_cell_prop(
                            s,
                            strings,
                            nx,
                            "#address-cells".spec_bytes(),
                            old(self).spec_address_cells(),
                        )
                        &&& node.spec_size_cells() == spec_cell_prop(
                            s,
                            strings,
                            nx,
                            "#size-cells".spec_bytes(),
                            old(self).spec_size_cells(),
                        )
                        &&& node.spec_parent_address_cells() == old(self).spec_address_cells()
                        &&& node.spec_parent_size_cells() == old(self).spec_size_cells()
                        &&& (match spec_after_node(s, strings, nx, 0) {
                            Some(m) => final(self).spec_cursor().spec_offset() == m,
                            None => !(final(self).spec_cursor().spec_head() is Token),
                        })
                    }
                },
                None => r is None,
            },
    {
        loop
            invariant
                self.cursor.wf(),
                self.cursor.spec_blob() == old(self).spec_cursor().spec_blob(),
                self.cursor.spec_strings() == old(self).spec_cursor().spec_strings(),
                self.address_cells == old(self).spec_address_cells(),
                self.size_cells == old(self).spec_size_cells(),
                self.cursor.spec_offset() >= old(self).spec_cursor().spec_offset(),
                spec_next_begin(
                    self.cursor.spec_blob(),
                    self.cursor.spec_strings(),
                    self.cursor.spec_offset(),
                ) == spec_next_begin(
                    old(self).spec_cursor().spec_blob(),
                    old(self).spec_cursor().spec_strings(),
                    old(self).spec_cursor().spec_offset(),
                ),
            decreases self.cursor.spec_blob().len() - self.cursor.spec_offset(),
        {
            match self.cursor.next() {
                Ok(Some(Token::Begin { name })) => {
                    let content = self.cursor;
                    let mut c1 = content;
                    let compatible = c1.find_prop("compatible".as_bytes());
                    let mut c2 = content;
                    let phandle = c2.cell_prop("phandle".as_bytes(), 0xFFFF_FFFF);
                    let mut c3 = content;
                    let address_cells = c3.cell_prop("#address-cells".as_bytes(), self.address_cells);
                    let mut c4 = content;
                    let size_cells = c4.cell_prop("#size-cells".as_bytes(), self.size_cells);
                    let parent_address_cells = self.address_cells;
                    let parent_size_cells = self.size_cells;
                    self.cursor.seek_sibling();
                    return Some(
                        Node {
                            name,
                            compatible,
                            phandle,
                            address_cells,
                            size_cells,
                            parent_address_cells,
                            parent_size_cells,
                            cursor: content,
                        },
                    );
                },
                Ok(Some(Token::Prop(..))) => {
                },
                _ => {
                    return None;
                },
            }
        }
    }
}

/// The root node, from which the standard top-level nodes are reached.
pub struct Root<'a> {
    node: Node<'a>,
}

impl<'a> Root<'a> {
    /// The root node itself.
    pub closed spec fn spec_node(self) -> Node<'a> {
        self.node
    }

    /// The root node itself.
    pub fn node(&self) -> (r: &Node<'a>)
        ensures
            *r == self.spec_node(),
    {
        &self.node
    }

    /// The first child of the root named `name`, as a snapshot.
    #[verifier::rlimit(100)]
    pub fn find_child(&self, name: &[u8]) -> (r: Option<Node<'a>>)
        requires
            self.spec_node().spec_cursor().wf(),
        ensures
            match spec_find_child(
                self.spec_node().spec_cursor().spec_blob(),
                self.spec_node().spec_cursor().spec_strings(),
                self.spec_node().spec_cursor().spec_offset(),
                name@,
            ) {
                Some(nx) => {
                    &&& r matches Some(node)
                    &&& {
                        let node = r->0;
                        let s = self.spec_node().spec_cursor().spec_blob();
                        let strings = self.spec_node().spec_cursor().spec_strings();
                        &&& node.spec_name() == name@
                        &&& node.spec_cursor().wf()
                        &&& node.spec_cursor().spec_blob() == s
                        &&& node.spec_cursor().spec_strings() == strings
                        &&& node.spec_cursor().spec_offset() == nx
                        &&& node.spec_address_cells() == spec_cell_prop(
                            s,
                            strings,
                            nx,
                            "#address-cells".spec_bytes(),
                            self.spec_node().spec_address_cells(),
                        )
                        &&& node.spec_size_cells() == spec_cell_prop(
                            s,
                            strings,
                            nx,
                            "#size-cells".spec_bytes(),
                            self.spec_node().spec_size_cells(),
                        )
                        &&& node.spec_parent_address_cells()
                            == self.spec_node().spec_address_cells()
                        &&& node.spec_parent_size_cells() == self.spec_node().spec_size_cells()
                    }
                },
                None => r is None,
            },
    {
        let mut nodes = self.node.children();
        loop
            invariant
                nodes.spec_cursor().wf(),
                nodes.spec_cursor().spec_blob() == self.spec_node().spec_cursor().spec_blob(),
                nodes.spec_cursor().spec_strings() == self.spec_node().spec_cursor().spec_strings(),
                nodes.spec_address_cells() == self.spec_node().spec_address_cells(),
                nodes.spec_size_cells() == self.spec_node().spec_size_cells(),
                spec_find_child(
                    nodes.spec_cursor().spec_blob(),
                    nodes.spec_cursor().spec_strings(),
                    nodes.spec_cursor().spec_offset(),
                    name@,
                ) == spec_find_child(
                    self.spec_node().spec_cursor().spec_blob(),
                    self.spec_node().spec_cursor().spec_strings(),
                    self.spec_node().spec_cursor().spec_offset(),
                    name@,
                ),
            decreases nodes.spec_cursor().spec_blob().len() - nodes.spec_cursor().spec_offset(),
        {
            match nodes.next() {
                Some(child) => {
                    if bytes_eq(child.name(), name) {
                        return Some(child);
                    }
                },
                None => {
                    return None;
                },
            }
        }
    }

    /// True when `r` is the first child of this root named `name`:
    /// present exactly when such a child exists, with its name, its
    /// cursor at the child's content, and its effective cell widths.
    pub open spec fn spec_found_child(self, name: Seq<u8>, r: Option<Node<'a>>) -> bool {
        let s = self.spec_node().spec_cursor().spec_blob();
        let strings = self.spec_node().spec_cursor().spec_strings();
        match spec_find_child(
            s,
            strings,
            self.spec_node().spec_cursor().spec_offset(),
            name,
        ) {
            Some(nx) => {
                &&& r matches Some(node)
                &&& {
                    let node = r->0;
                    &&& node.spec_name() == name
                    &&& node.spec_cursor().wf()
                    &&& node.spec_cursor().spec_blob() == s
                    &&& node.spec_cursor().spec_strings() == strings
                    &&& node.spec_cursor().spec_offset() == nx
                    &&& node.spec_address_cells() == spec_cell_prop(
                        s,
                        strings,
                        nx,
                        "#address-cells".spec_bytes(),
                        self.spec_node().spec_address_cells(),
                    )
                    &&& node.spec_size_cells() == spec_cell_prop(
                        s,
                        strings,
                        nx,
                        "#size-cells".spec_bytes(),
                        self.spec_node().spec_size_cells(),
                    )
                }
            },
            None => r is None,
        }
    }

    /// The properties of the `aliases` node, when the tree has one.
    pub fn aliases(&self) -> (r: Option<PropIter<'a>>)
        requires
            self.spec_node().spec_cursor().wf(),
        ensures
            match r {
                Some(props) => exists|node: Node<'a>|
                    #[trigger] self.spec_found_child("aliases".spec_bytes(), Some(node))
                        && props.spec_cursor() == node.spec_cursor(),
                None => self.spec_found_child("aliases".spec_bytes(), None::<Node<'a>>),
            },
    {
        match self.find_child("aliases".as_bytes()) {
            Some(node) => {
                let props = node.props();
                proof {
                    assert(self.spec_found_child("aliases".spec_bytes(), Some(node)));
                }
                Some(props)
            },
            None => None,
        }
    }

    /// The `memory` node describing installed memory, when present.
    pub fn memory(&self) -> (r: Option<Node<'a>>)
        requires
            self.spec_node().spec_cursor().wf(),
        ensures
            self.spec_found_child("memory".spec_bytes(), r),
    {
        self.find_child("memory".as_bytes())
    }

    /// The node naming memory the loader must leave alone; the lookup
    /// walks the same top-level names as [`Root::memory`].
    pub fn reserved_memory(&self) -> (r: Option<Node<'a>>)
        requires
            self.spec_node().spec_cursor().wf(),
        ensures
            self.spec_found_child("memory".spec_bytes(), r),
    {
        self.find_child("memory".as_bytes())
    }

    /// The `cpus` node describing the processors, when present.
    pub fn cpus(&self) -> (r: Option<Node<'a>>)
        requires
            self.spec_node().spec_cursor().wf(),
        ensures
            self.spec_found_child("cpus".spec_bytes(), r),
    {
        self.find_child("cpus".as_bytes())
    }
}

/// The executable mirror of [`SpecStep`].
enum ExecStep<'a> {
    Token(Token<'a>, usize),
    Skip(usize),
    Stop,
    Bad(Error),
}

impl<'a> View for ExecStep<'a> {
    type V = SpecStep;

    closed spec fn view(&self) -> SpecStep {
        match self {
            ExecStep::Token(t, n) => SpecStep::Token(t@, *n as int),
            ExecStep::Skip(n) => SpecStep::Skip(*n as int),
            ExecStep::Stop => SpecStep::Stop,
            ExecStep::Bad(e) => SpecStep::Bad(*e),
        }
    }
}

} // verus!
