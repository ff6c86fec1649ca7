//! The boot sequence: from a received ELF image and device-tree blob
//! to loaded segments, populated page tables and a primed allocator.
//!
//! The loader owns one linear sequence: parse the image's program
//! headers, derive a memory layout, carve the loader's own structures
//! out of the allocator, copy each loadable segment to its physical
//! address and map it, relocate and map the device-tree blob, and
//! hand the entry point to the control transfer. Each phase either
//! succeeds or the boot aborts; nothing above this code recovers.

use vstd::prelude::*;

use crate::elf::parse_ehdr;
use crate::elf::segments;
use crate::elf::spec_ehdr;
use crate::elf::spec_ident_ok;
use crate::elf::spec_phdr;
use crate::elf::Ehdr;
use crate::elf::Phdr;
use crate::elf::PF_R;
use crate::elf::PF_W;
use crate::elf::PF_X;
use crate::elf::PHDR_SIZE;
use crate::elf::PT_LOAD;
use crate::mem::allocator::Page;
use crate::mem::page::Id;
use crate::mem::AddressSpace;
use crate::mem::Kernel;
use crate::mem::Phys;
use crate::mem::User;
use crate::mem::Virt;
use crate::mmu::lemma_index_injective;
use crate::mmu::spec_descriptor;
use crate::mmu::spec_index;
use crate::mmu::spec_table_descriptor;
use crate::mmu::Attr;
use crate::mmu::PageTable;
use crate::mmu::MMIO_BASE;
use crate::mmu::MMIO_END;
use crate::Error;

verus! {

/// Size of one page: the 64 KiB granule.
pub const PAGE: u64 = 0x1_0000;

/// True when the header names a segment the loader copies.
pub open spec fn spec_is_load(p: Phdr) -> bool {
    p.p_type == PT_LOAD
}

/// The first loadable segment of the table, scanning from `i`.
pub open spec fn spec_first_load(segs: Seq<Phdr>, i: int) -> Option<Phdr>
    decreases segs.len() - i,
{
    if !(0 <= i < segs.len()) {
        None
    } else if spec_is_load(segs[i]) {
        Some(segs[i])
    } else {
        spec_first_load(segs, i + 1)
    }
}

/// `x` rounded up to the next page boundary.
pub open spec fn spec_align_page(x: int) -> int {
    x + ((0x1_0000 - x % 0x1_0000) % 0x1_0000)
}

/// The lowest page-aligned address at or above the end of every
/// loadable segment among the first `n`.
pub open spec fn spec_heap_base(segs: Seq<Phdr>, n: int) -> int
    decreases n,
{
    if n <= 0 {
        0
    } else {
        let rest = spec_heap_base(segs, n - 1);
        let end = spec_align_page(segs[n - 1].p_paddr + segs[n - 1].p_memsz);
        if spec_is_load(segs[n - 1]) && end > rest {
            end
        } else {
            rest
        }
    }
}

/// Where the loader places its own structures: in order from
/// `heap_base`, the kernel page table, the allocator bitmap, the
/// relocated device-tree blob, and the throwaway identity table, each
/// on a page boundary.
#[derive(Clone, Copy, Debug, PartialEq, Eq, Structural)]
pub struct Layout {
    /// First page-aligned address past every loaded segment.
    pub heap_base: u64,
    /// The uniform virtual-minus-physical translation of the image.
    pub offset: u64,
    /// Physical base of the kernel page table's nine pages.
    pub table_kernel: u64,
    /// Physical base of the allocator's bitmap.
    pub allocator_base: u64,
    /// Physical address the device-tree blob is copied to.
    pub dtb_dst: u64,
    /// Physical base of the identity page table's nine pages.
    pub table_identity: u64,
}

/// Round `x` up to the next page boundary.
pub fn align_page(x: u64) -> (r: u64)
    requires
        x <= u64::MAX - 0xFFFF,
    ensures
        r == spec_align_page(x as int),
        r % PAGE == 0,
        x <= r < x + PAGE,
{
    if x % PAGE == 0 {
        x
    } else {
        x + (PAGE - x % PAGE)
    }
}

/// Derive the memory layout from the loadable segments and the size
/// of the device-tree blob. Fails exactly when the image has no
/// loadable segment: with nothing to load there is nothing to boot.
pub fn plan(segments: &Vec<Phdr>, dtb_len: u64) -> (r: Result<Layout, Error>)
    requires
        forall|i: int|
            0 <= i < segments@.len() && spec_is_load(#[trigger] segments@[i]) ==> segments@[i].p_paddr
                + segments@[i].p_memsz <= 0x1_0000_0000,
        spec_first_load(segments@, 0) matches Some(f) ==> f.p_vaddr >= f.p_paddr,
        dtb_len <= 0x1_0000_0000,
    ensures
        r is Ok <==> spec_first_load(segments@, 0) is Some,
        r == Err::<Layout, Error>(Error::NoLoadSegment) <==> spec_first_load(segments@, 0) is None,
        r matches Ok(l) ==> {
            let f = spec_first_load(segments@, 0)->0;
            &&& l.offset == f.p_vaddr - f.p_paddr
            &&& l.heap_base == spec_heap_base(segments@, segments@.len() as int)
            &&& l.table_kernel == l.heap_base
            &&& l.allocator_base == l.heap_base + 0x9_0000
            &&& l.dtb_dst == l.heap_base + 0xA_0000
            &&& l.table_identity == spec_align_page(l.heap_base + 0xA_0000 + dtb_len)
            &&& l.heap_base % PAGE == 0
        },
{
    let n = segments.len();
    let mut heap: u64 = 0;
    let mut first: Option<Phdr> = None;
    let mut i: usize = 0;
    while i < n
        invariant
            0 <= i <= n,
            n == segments@.len(),
            forall|k: int|
                0 <= k < n && spec_is_load(#[trigger] segments@[k]) ==> segments@[k].p_paddr
                    + segments@[k].p_memsz <= 0x1_0000_0000,
            heap == spec_heap_base(segments@, i as int),
            heap % PAGE == 0,
            heap <= 0x1_0001_0000,
            match first {
                Some(f) => spec_first_load(segments@, 0) == Some(f),
                None => spec_first_load(segments@, i as int) == spec_first_load(segments@, 0),
            },
        decreases n - i,
    {
        let seg = segments[i];
        if seg.p_type == PT_LOAD {
            let end = align_page(seg.p_paddr + seg.p_memsz);
            if end > heap {
                heap = end;
            }
            if first.is_none() {
                first = Some(seg);
            }
        }
        i += 1;
    }
    let first = match first {
        Some(f) => f,
        None => {
            return Err(Error::NoLoadSegment);
        },
    };
    Ok(
        Layout {
            heap_base: heap,
            offset: first.p_vaddr - first.p_paddr,
            table_kernel: heap,
            allocator_base: heap + 0x9_0000,
            dtb_dst: heap + 0xA_0000,
            table_identity: align_page(heap + 0xA_0000 + dtb_len),
        },
    )
}

/// The mapping attributes a segment's permission flags ask for.
pub fn segment_attr(flags: u32) -> (r: Attr)
    ensures
        r == (Attr::Normal {
            read: flags & PF_R != 0,
            write: flags & PF_W != 0,
            execute: flags & PF_X != 0,
        }),
{
    Attr::Normal { read: flags & PF_R != 0, write: flags & PF_W != 0, execute: flags & PF_X != 0 }
}

/// Copy one loadable segment into the modeled physical memory: its
/// file bytes verbatim, then zeroes up to its memory size, so a
/// segment never exposes stale memory. Nothing else changes.
pub fn copy_segment(mem: &mut Vec<u8>, image: &[u8], seg: &Phdr)
    requires
        seg.p_offset + seg.p_filesz <= image@.len(),
        seg.p_filesz <= seg.p_memsz,
        seg.p_paddr + seg.p_memsz <= old(mem)@.len(),
    ensures
        final(mem)@.len() == old(mem)@.len(),
        forall|j: int|
            seg.p_paddr <= j < seg.p_paddr + seg.p_filesz ==> final(mem)@[j] == image@[seg.p_offset
                + (j - seg.p_paddr)],
        forall|j: int|
            seg.p_paddr + seg.p_filesz <= j < seg.p_paddr + seg.p_memsz ==> final(mem)@[j] == 0,
        forall|j: int|
            0 <= j < old(mem)@.len() && !(seg.p_paddr <= j < seg.p_paddr + seg.p_memsz)
                ==> final(mem)@[j] == old(mem)@[j],
{
    let mlen = mem.len();
    let ilen = image.len();
    assert(seg.p_paddr + seg.p_memsz <= mlen && seg.p_offset + seg.p_filesz <= ilen);
    let paddr = seg.p_paddr as usize;
    let off = seg.p_offset as usize;
    let filesz = seg.p_filesz as usize;
    let memsz = seg.p_memsz as usize;
    let mut k: usize = 0;
    while k < filesz
        invariant
            0 <= k <= filesz,
            mlen == mem@.len(),
            ilen == image@.len(),
            off + filesz <= image@.len(),
            filesz <= memsz,
            paddr + memsz <= mem@.len(),
            mem@.len() == old(mem)@.len(),
            forall|j: int| paddr <= j < paddr + k ==> mem@[j] == image@[off + (j - paddr)],
            forall|j: int|
                0 <= j < mem@.len() && !(paddr <= j < paddr + k) ==> mem@[j] == old(mem)@[j],
        decreases filesz - k,
    {
        mem.set(paddr + k, image[off + k]);
        k += 1;
    }
    let mut k2: usize = filesz;
    while k2 < memsz
        invariant
            filesz <= k2 <= memsz,
            mlen == mem@.len(),
            ilen == image@.len(),
            off + filesz <= image@.len(),
            paddr + memsz <= mem@.len(),
            mem@.len() == old(mem)@.len(),
            forall|j: int| paddr <= j < paddr + filesz ==> mem@[j] == image@[off + (j - paddr)],
            forall|j: int| paddr + filesz <= j < paddr + k2 ==> mem@[j] == 0,
            forall|j: int|
                0 <= j < mem@.len() && !(paddr <= j < paddr + k2) ==> mem@[j] == old(mem)@[j],
        decreases memsz - k2,
    {
        mem.set(paddr + k2, 0);
        k2 += 1;
    }
}

/// Copy the device-tree blob to its relocated address. Nothing else
/// changes.
pub fn copy_blob(mem: &mut Vec<u8>, dtb: &[u8], dst: u64)
    requires
        dst + dtb@.len() <= old(mem)@.len(),
    ensures
        final(mem)@.len() == old(mem)@.len(),
        forall|j: int| dst <= j < dst + dtb@.len() ==> final(mem)@[j] == dtb@[j - dst],
        forall|j: int|
            0 <= j < old(mem)@.len() && !(dst <= j < dst + dtb@.len()) ==> final(mem)@[j]
                == old(mem)@[j],
{
    let mlen = mem.len();
    let n = dtb.len();
    assert(dst + n <= mlen);
    let base = dst as usize;
    let mut k: usize = 0;
    while k < n
        invariant
            0 <= k <= n,
            n == dtb@.len(),
            mlen == mem@.len(),
            base + n <= mem@.len(),
            mem@.len() == old(mem)@.len(),
            forall|j: int| base <= j < base + k ==> mem@[j] == dtb@[j - base],
            forall|j: int|
                0 <= j < mem@.len() && !(base <= j < base + k) ==> mem@[j] == old(mem)@[j],
        decreases n - k,
    {
        mem.set(base + k, dtb[k]);
        k += 1;
    }
}


/// Map every page of the physical range `[phys, phys + len)` into the
/// table at the uniform translation `offset`; leaf slots outside the
/// translated range keep their descriptors. An empty range maps
/// nothing.
pub fn map_range<S: AddressSpace>(
    table: &mut PageTable<S>,
    offset: u64,
    phys: u64,
    len: u64,
    attr: Attr,
)
    requires
        old(table).wf(),
        attr.wf(),
        phys + len <= 0x1_0000_0000,
        offset <= 0xFFFF_FFFF_0000_0000,
        forall|p: u64|
            phys <= p < phys + len ==> S::spec_valid(#[trigger] ((p + offset) as u64)),
    ensures
        final(table).wf(),
        final(table).spec_base() == old(table).spec_base(),
        final(table).spec_l2() == old(table).spec_l2(),
        forall|p: u64|
            phys <= p < phys + len && (p - phys) % (PAGE as int) == 0 ==> final(table).spec_l3()[
                #[trigger] spec_index((p + offset) as u64)] == spec_descriptor(p, attr),
        forall|j: int|
            0 <= j < 0x1_0000 && final(table).spec_l3()[j] != old(table).spec_l3()[j]
                ==> exists|p: u64|
                phys <= p < phys + len && (p - phys) % (PAGE as int) == 0 && j
                    == #[trigger] spec_index((p + offset) as u64),
{
    let mut p: u64 = phys;
    while p < phys + len
        invariant
            phys <= p <= phys + 0x1_0000_0000,
            (p - phys) % (PAGE as int) == 0,
            phys + len <= 0x1_0000_0000,
            p < phys + len + PAGE,
            offset <= 0xFFFF_FFFF_0000_0000,
            attr.wf(),
            forall|q: u64|
                phys <= q < phys + len ==> S::spec_valid(#[trigger] ((q + offset) as u64)),
            table.wf(),
            table.spec_base() == old(table).spec_base(),
            table.spec_l2() == old(table).spec_l2(),
            forall|q: u64|
                phys <= q < p && (q - phys) % (PAGE as int) == 0 ==> table.spec_l3()[
                    #[trigger] spec_index((q + offset) as u64)] == spec_descriptor(q, attr),
            forall|j: int|
                0 <= j < 0x1_0000 && table.spec_l3()[j] != old(table).spec_l3()[j] ==> exists|
                    q: u64,
                |
                    phys <= q < p && (q - phys) % (PAGE as int) == 0 && j == #[trigger] spec_index(
                        (q + offset) as u64,
                    ),
        decreases phys + len + PAGE - p,
    {
        let ghost prev = *table;
        let virt = Virt::<S>::new(p + offset);
        table.map(virt, Phys::new(p), attr);
        proof {
            crate::mmu::lemma_index_range((p + offset) as u64);
            let idx = spec_index((p + offset) as u64);
            assert(virt@ == (p + offset) as u64);
            assert(table.spec_l3() == prev.spec_l3().update(idx, spec_descriptor(p, attr)));
            assert(((p + PAGE) - phys) % (PAGE as int) == 0) by (nonlinear_arith)
                requires
                    (p - phys) % (PAGE as int) == 0,
                    PAGE == 0x1_0000,
                    phys <= p,
            ;
            assert forall|q: u64|
                phys <= q < p + PAGE && (q - phys) % (PAGE as int) == 0 implies table.spec_l3()[
                #[trigger] spec_index((q + offset) as u64)] == spec_descriptor(q, attr) by {
                crate::mmu::lemma_index_range((q + offset) as u64);
                if q < p {
                    assert(q % 0x1_0000 == p % 0x1_0000) by (nonlinear_arith)
                        requires
                            (q - phys) % 0x1_0000 == 0,
                            (p - phys) % 0x1_0000 == 0,
                            phys <= q,
                            phys <= p,
                    ;
                    lemma_index_injective(q, p, offset);
                } else {
                    assert(q == p) by (nonlinear_arith)
                        requires
                            (q - phys) % 0x1_0000 == 0,
                            (p - phys) % 0x1_0000 == 0,
                            p <= q < p + 0x1_0000,
                            phys <= p,
                    ;
                }
            }
            assert forall|j: int|
                0 <= j < 0x1_0000 && table.spec_l3()[j] != old(table).spec_l3()[j] implies exists|
                q: u64,
            |
                phys <= q < p + PAGE && (q - phys) % (PAGE as int) == 0 && j
                    == #[trigger] spec_index((q + offset) as u64) by {
                if j == idx {
                    assert(phys <= p < p + PAGE && (p - phys) % (PAGE as int) == 0 && j
                        == spec_index((p + offset) as u64));
                } else {
                    assert(prev.spec_l3()[j] == table.spec_l3()[j]);
                }
            }
        }
        p = p + PAGE;
    }
}

/// Mark every page of the physical range `[phys, phys + len)` as in
/// use; other pages keep their state. An empty range reserves
/// nothing.
pub fn reserve_range(allocator: &mut Page, phys: u64, len: u64)
    requires
        phys + len <= 0x1_0000_0000,
        len > 0 ==> (phys + len - 1) / (PAGE as int) < old(allocator).capacity(),
        old(allocator).capacity() <= usize::MAX,
    ensures
        final(allocator).capacity() == old(allocator).capacity(),
        forall|id: int|
            0 <= id < final(allocator).capacity() ==> final(allocator).spec_used(id)
                == (old(allocator).spec_used(id) || (len > 0 && phys / PAGE <= id <= (phys + len
                - 1) / (PAGE as int))),
{
    if len == 0 {
        return ;
    }
    let first = phys / PAGE;
    let last = (phys + len - 1) / PAGE;
    assert(first <= last) by (nonlinear_arith)
        requires
            first == phys / PAGE,
            last == (phys + len - 1) / (PAGE as int),
            len > 0,
            phys + len <= 0x1_0000_0000,
            PAGE == 0x1_0000,
    ;
    let mut id = first;
    while id <= last
        invariant
            first <= id <= last + 1,
            last < allocator.capacity(),
            allocator.capacity() == old(allocator).capacity(),
            old(allocator).capacity() <= usize::MAX,
            forall|k: int|
                0 <= k < allocator.capacity() ==> allocator.spec_used(k) == (old(
                    allocator,
                ).spec_used(k) || (first <= k < id)),
        decreases last + 1 - id,
    {
        allocator.reserve(Id::from_usize(id as usize));
        id += 1;
    }
}

/// The first executable loadable segment, scanning from `i`.
pub open spec fn spec_first_exec(segs: Seq<Phdr>, i: int) -> Option<Phdr>
    decreases segs.len() - i,
{
    if !(0 <= i < segs.len()) {
        None
    } else if spec_is_load(segs[i]) && segs[i].p_flags & PF_X != 0 {
        Some(segs[i])
    } else {
        spec_first_exec(segs, i + 1)
    }
}

/// The program headers stored in the image.
pub open spec fn spec_phdrs(s: Seq<u8>) -> Seq<Phdr> {
    Seq::new(
        spec_ehdr(s).phnum as nat,
        |i: int| spec_phdr(s, spec_ehdr(s).phoff + i * PHDR_SIZE),
    )
}

/// True when page id `id` falls in the byte range `[lo, lo + len)`.
pub open spec fn spec_range_pages(lo: int, len: int, id: int) -> bool {
    len > 0 && lo / (PAGE as int) <= id <= (lo + len - 1) / (PAGE as int)
}

/// The read-only attributes the relocated device-tree blob is mapped
/// with.
pub open spec fn spec_blob_attr() -> Attr {
    Attr::Normal { read: true, write: false, execute: false }
}

/// What every loadable segment must satisfy: in-bounds file bytes, a
/// memory size at least the file size, a readable, page-aligned
/// physical placement inside the window, pairwise page-disjoint from
/// every other loadable segment.
pub open spec fn spec_segs_ok(ilen: int, segs: Seq<Phdr>) -> bool {
    &&& forall|t: int|
        0 <= t < segs.len() && spec_is_load(#[trigger] segs[t]) ==> {
            &&& segs[t].p_offset + segs[t].p_filesz <= ilen
            &&& segs[t].p_filesz <= segs[t].p_memsz
            &&& segs[t].p_paddr % 0x1_0000 == 0
            &&& segs[t].p_paddr + segs[t].p_memsz <= 0x1_0000_0000
            &&& segs[t].p_flags & PF_R != 0
        }
    &&& forall|a: int, b: int|
        0 <= a < segs.len() && 0 <= b < segs.len() && a != b && spec_is_load(#[trigger] segs[a])
            && spec_is_load(#[trigger] segs[b]) ==> spec_align_page(
            segs[a].p_paddr + segs[a].p_memsz,
        ) <= segs[b].p_paddr || spec_align_page(segs[b].p_paddr + segs[b].p_memsz)
            <= segs[a].p_paddr
}

/// Check every loadable segment against [`spec_segs_ok`] and hand
/// back the first one. Fails exactly when a segment breaks a
/// condition or none is loadable.
fn check_segments(image: &[u8], segs: &Vec<Phdr>) -> (r: Result<Phdr, Error>)
    ensures
        r is Ok <==> spec_segs_ok(image@.len() as int, segs@) && spec_first_load(segs@, 0)
            is Some,
        r matches Ok(f) ==> spec_first_load(segs@, 0) == Some(f),
{
    let n = segs.len();
    let ilen = image.len();
    let mut first: Option<Phdr> = None;
    let mut i: usize = 0;
    while i < n
        invariant
            0 <= i <= n,
            n == segs@.len(),
            ilen == image@.len(),
            match first {
                Some(f) => spec_first_load(segs@, 0) == Some(f),
                None => spec_first_load(segs@, i as int) == spec_first_load(segs@, 0),
            },
            forall|k: int|
                0 <= k < i && spec_is_load(#[trigger] segs@[k]) ==> {
                    &&& segs@[k].p_offset + segs@[k].p_filesz <= ilen
                    &&& segs@[k].p_filesz <= segs@[k].p_memsz
                    &&& segs@[k].p_paddr % 0x1_0000 == 0
                    &&& segs@[k].p_paddr + segs@[k].p_memsz <= 0x1_0000_0000
                    &&& segs@[k].p_flags & PF_R != 0
                },
        decreases n - i,
    {
        let seg = segs[i];
        if seg.p_type == PT_LOAD {
            if seg.p_offset > ilen as u64 || seg.p_filesz > ilen as u64 - seg.p_offset
                || seg.p_filesz > seg.p_memsz || seg.p_paddr % PAGE != 0 || seg.p_memsz
                > 0x1_0000_0000 || seg.p_paddr > 0x1_0000_0000 - seg.p_memsz || seg.p_flags & PF_R
                == 0 {
                return Err(Error::BadSegment);
            }
            if first.is_none() {
                first = Some(seg);
            }
        }
        i += 1;
    }
    let first = match first {
        Some(f) => f,
        None => {
            return Err(Error::NoLoadSegment);
        },
    };
    // Pairwise page-disjointness of the loadable segments.
    let mut i2: usize = 0;
    while i2 < n
        invariant
            0 <= i2 <= n,
            n == segs@.len(),
            ilen == image@.len(),
            spec_first_load(segs@, 0) == Some(first),
            forall|k: int|
                0 <= k < n && spec_is_load(#[trigger] segs@[k]) ==> {
                    &&& segs@[k].p_offset + segs@[k].p_filesz <= ilen
                    &&& segs@[k].p_filesz <= segs@[k].p_memsz
                    &&& segs@[k].p_paddr % 0x1_0000 == 0
                    &&& segs@[k].p_paddr + segs@[k].p_memsz <= 0x1_0000_0000
                    &&& segs@[k].p_flags & PF_R != 0
                },
            forall|a: int, b: int|
                0 <= a < i2 && 0 <= b < n && a != b && spec_is_load(#[trigger] segs@[a])
                    && spec_is_load(#[trigger] segs@[b]) ==> spec_align_page(
                    segs@[a].p_paddr + segs@[a].p_memsz,
                ) <= segs@[b].p_paddr || spec_align_page(segs@[b].p_paddr + segs@[b].p_memsz)
                    <= segs@[a].p_paddr,
        decreases n - i2,
    {
        let a = segs[i2];
        if a.p_type == PT_LOAD {
            let a_end = align_page(a.p_paddr + a.p_memsz);
            let mut j2: usize = 0;
            while j2 < n
                invariant
                    0 <= j2 <= n,
                    0 <= i2 < n,
                    n == segs@.len(),
                    a == segs@[i2 as int],
                    spec_is_load(a),
                    a.p_paddr + a.p_memsz <= 0x1_0000_0000,
                    a_end == spec_align_page(a.p_paddr + a.p_memsz),
                    forall|k: int|
                        0 <= k < n && spec_is_load(#[trigger] segs@[k]) ==> segs@[k].p_paddr
                            + segs@[k].p_memsz <= 0x1_0000_0000,
                    forall|b: int|
                        0 <= b < j2 && b != i2 && spec_is_load(#[trigger] segs@[b]) ==> a_end
                            <= segs@[b].p_paddr || spec_align_page(
                            segs@[b].p_paddr + segs@[b].p_memsz,
                        ) <= a.p_paddr,
                decreases n - j2,
            {
                let b = segs[j2];
                if j2 != i2 && b.p_type == PT_LOAD {
                    let b_end = align_page(b.p_paddr + b.p_memsz);
                    if !(a_end <= b.p_paddr || b_end <= a.p_paddr) {
                        proof {
                            let aa = i2 as int;
                            let bb = j2 as int;
                            assert(spec_is_load(segs@[aa]) && spec_is_load(segs@[bb]) && aa != bb
                                && spec_align_page(segs@[aa].p_paddr + segs@[aa].p_memsz) > segs@[
                                bb].p_paddr && spec_align_page(
                                segs@[bb].p_paddr + segs@[bb].p_memsz,
                            ) > segs@[aa].p_paddr);
                        }
                        return Err(Error::BadSegment);
                    }
                }
                j2 += 1;
            }
        }
        i2 += 1;
    }
    Ok(first)
}

/// What the whole boot requires of an image, a device-tree blob of
/// `dtb_len` bytes, and a modeled physical memory of `mem_len` bytes:
/// a well-formed ELF with an in-bounds program-header table; at least
/// one loadable segment; a page-aligned uniform translation that the
/// entry point lies above; every loadable segment with in-bounds file
/// bytes, a memory size at least its file size, a page-aligned
/// physical address inside the window, pairwise page-disjoint from the
/// others; and a layout whose last block still fits below both the
/// modeled memory's end and the device MMIO window.
pub open spec fn spec_load_ok(s: Seq<u8>, dtb_len: int, mem_len: int) -> bool {
    let h = spec_ehdr(s);
    let segs = spec_phdrs(s);
    let heap = spec_heap_base(segs, segs.len() as int);
    &&& spec_ident_ok(s)
    &&& h.phentsize == PHDR_SIZE
    &&& h.phoff + h.phnum * PHDR_SIZE <= s.len()
    &&& spec_segs_ok(s.len() as int, segs)
    &&& spec_first_load(segs, 0) is Some
    &&& {
        let f = spec_first_load(segs, 0)->0;
        &&& f.p_vaddr >= f.p_paddr
        &&& (f.p_vaddr - f.p_paddr) % (PAGE as int) == 0
        &&& f.p_vaddr - f.p_paddr <= 0xFFFF_FFFF_0000_0000
        &&& h.entry >= f.p_vaddr - f.p_paddr
    }
    &&& heap + 0xA_0000 + dtb_len <= mem_len
    &&& heap + 0xA_0000 + dtb_len <= MMIO_BASE
}


/// True when page id `id` belongs to one of the loader's own blocks:
/// the kernel page table, the allocator bitmap or the relocated blob.
pub open spec fn spec_base_pages(heap: int, dtb_len: int, id: int) -> bool {
    ||| spec_range_pages(heap + 0x9_0000, crate::mem::allocator::CAPACITY as int / 8, id)
    ||| spec_range_pages(heap + 0xA_0000, dtb_len, id)
    ||| spec_range_pages(heap, 0x9_0000, id)
}

/// The first executable segment, when there is one, is a loadable
/// executable entry of the table.
proof fn lemma_first_exec_witness(segs: Seq<Phdr>, i: int)
    requires
        0 <= i <= segs.len(),
    ensures
        spec_first_exec(segs, i) matches Some(x) ==> spec_is_load(x) && x.p_flags & PF_X != 0
            && exists|t: int| 0 <= t < segs.len() && #[trigger] segs[t] == x,
    decreases segs.len() - i,
{
    if 0 <= i < segs.len() {
        if !(spec_is_load(segs[i]) && segs[i].p_flags & PF_X != 0) {
            lemma_first_exec_witness(segs, i + 1);
        }
    }
}

/// Extending a leaf-slot frame by one segment's mappings: a slot that
/// changed over the whole step either changed in the new mapping — a
/// page of segment `k` — or already differed, with its witness among
/// the first `k` segments.
proof fn lemma_frame_extend(
    segs: Seq<Phdr>,
    k: int,
    old_l3: Seq<u64>,
    before_l3: Seq<u64>,
    now_l3: Seq<u64>,
    offset: u64,
)
    requires
        0 <= k < segs.len(),
        spec_is_load(segs[k]),
        forall|j: int|
            0 <= j < 0x1_0000 && before_l3[j] != old_l3[j] ==> exists|t: int, p: u64|
                #![trigger segs[t], spec_index((p + offset) as u64)]
                0 <= t < k && spec_is_load(segs[t]) && segs[t].p_paddr <= p < segs[t].p_paddr
                    + segs[t].p_memsz && (p - segs[t].p_paddr) % (PAGE as int) == 0 && j
                    == spec_index((p + offset) as u64),
        forall|j: int|
            0 <= j < 0x1_0000 && now_l3[j] != before_l3[j] ==> exists|p: u64|
                segs[k].p_paddr <= p < segs[k].p_paddr + segs[k].p_memsz && (p
                    - segs[k].p_paddr) % (PAGE as int) == 0 && j == #[trigger] spec_index(
                    (p + offset) as u64,
                ),
    ensures
        forall|j: int|
            0 <= j < 0x1_0000 && now_l3[j] != old_l3[j] ==> exists|t: int, p: u64|
                #![trigger segs[t], spec_index((p + offset) as u64)]
                0 <= t < k + 1 && spec_is_load(segs[t]) && segs[t].p_paddr <= p < segs[t].p_paddr
                    + segs[t].p_memsz && (p - segs[t].p_paddr) % (PAGE as int) == 0 && j
                    == spec_index((p + offset) as u64),
{
    assert forall|j: int|
        0 <= j < 0x1_0000 && now_l3[j] != old_l3[j] implies exists|t: int, p: u64|
        #![trigger segs[t], spec_index((p + offset) as u64)]
        0 <= t < k + 1 && spec_is_load(segs[t]) && segs[t].p_paddr <= p < segs[t].p_paddr
            + segs[t].p_memsz && (p - segs[t].p_paddr) % (PAGE as int) == 0 && j == spec_index(
            (p + offset) as u64,
        ) by {
        if now_l3[j] != before_l3[j] {
            let q = choose|q: u64|
                segs[k].p_paddr <= q < segs[k].p_paddr + segs[k].p_memsz && (q
                    - segs[k].p_paddr) % (PAGE as int) == 0 && j == #[trigger] spec_index(
                    (q + offset) as u64,
                );
            assert(spec_is_load(segs[k]) && segs[k].p_paddr <= q < segs[k].p_paddr
                + segs[k].p_memsz && (q - segs[k].p_paddr) % (PAGE as int) == 0 && j == spec_index(
                (q + offset) as u64,
            ));
        } else {
            assert(before_l3[j] != old_l3[j]);
        }
    }
}

/// Copy, reserve and map every loadable segment, and identity-map the
/// first page of the first executable one.
#[verifier::rlimit(100)]
fn place_segments(
    image: &[u8],
    segs: &Vec<Phdr>,
    mem: &mut Vec<u8>,
    allocator: &mut Page,
    table_kernel: &mut PageTable<Kernel>,
    table_identity: &mut PageTable<User>,
    offset: u64,
    heap: u64,
    dtb_len: u64,
)
    requires
        heap % PAGE == 0,
        heap + 0xA_0000 + dtb_len <= old(mem)@.len(),
        heap + 0xA_0000 + dtb_len <= MMIO_BASE,
        offset % PAGE == 0,
        offset <= 0xFFFF_FFFF_0000_0000,
        forall|t: int|
            0 <= t < segs@.len() && spec_is_load(#[trigger] segs@[t]) ==> {
                &&& segs@[t].p_offset + segs@[t].p_filesz <= image@.len()
                &&& segs@[t].p_filesz <= segs@[t].p_memsz
                &&& segs@[t].p_paddr % PAGE == 0
                &&& segs@[t].p_paddr + segs@[t].p_memsz <= heap
                &&& segs@[t].p_flags & PF_R != 0
            },
        forall|a: int, b: int|
            0 <= a < segs@.len() && 0 <= b < segs@.len() && a != b && spec_is_load(
                #[trigger] segs@[a],
            ) && spec_is_load(#[trigger] segs@[b]) ==> spec_align_page(
                segs@[a].p_paddr + segs@[a].p_memsz,
            ) <= segs@[b].p_paddr || spec_align_page(segs@[b].p_paddr + segs@[b].p_memsz)
                <= segs@[a].p_paddr,
        old(allocator).wf(),
        forall|id: int|
            0 <= id < old(allocator).capacity() ==> old(allocator).spec_used(id)
                == spec_base_pages(heap as int, dtb_len as int, id),
        old(table_kernel).wf(),
        old(table_kernel).spec_base() == heap,
        forall|p: u64|
            heap + 0xA_0000 <= p < heap + 0xA_0000 + dtb_len && p % PAGE == 0
                ==> old(table_kernel).spec_l3()[#[trigger] spec_index((p + offset) as u64)]
                == spec_descriptor(p, spec_blob_attr()),
        old(table_identity).wf(),
    ensures
        final(mem)@.len() == old(mem)@.len(),
        forall|t: int, j: int|
            #![trigger segs@[t], final(mem)@[j]]
            0 <= t < segs@.len() && spec_is_load(segs@[t]) && segs@[t].p_paddr <= j < segs@[t].p_paddr
                + segs@[t].p_filesz ==> final(mem)@[j] == image@[segs@[t].p_offset + (j
                - segs@[t].p_paddr)],
        forall|t: int, j: int|
            #![trigger segs@[t], final(mem)@[j]]
            0 <= t < segs@.len() && spec_is_load(segs@[t]) && segs@[t].p_paddr + segs@[t].p_filesz
                <= j < segs@[t].p_paddr + segs@[t].p_memsz ==> final(mem)@[j] == 0,
        forall|j: int|
            0 <= j < old(mem)@.len() && final(mem)@[j] != old(mem)@[j] ==> exists|t: int|
                0 <= t < segs@.len() && spec_is_load(#[trigger] segs@[t]) && segs@[t].p_paddr <= j
                    < segs@[t].p_paddr + segs@[t].p_memsz,
        final(allocator).wf(),
        final(allocator).capacity() == old(allocator).capacity(),
        forall|id: int|
            0 <= id < final(allocator).capacity() ==> final(allocator).spec_used(id) == {
                ||| spec_base_pages(heap as int, dtb_len as int, id)
                ||| exists|t: int|
                    0 <= t < segs@.len() && spec_is_load(#[trigger] segs@[t]) && spec_range_pages(
                        segs@[t].p_paddr as int,
                        segs@[t].p_memsz as int,
                        id,
                    )
            },
        final(table_kernel).wf(),
        final(table_kernel).spec_base() == heap,
        final(table_kernel).spec_l2() == old(table_kernel).spec_l2(),
        forall|j: int|
            0 <= j < 0x1_0000 && final(table_kernel).spec_l3()[j] != old(table_kernel).spec_l3()[j]
                ==> exists|t: int, p: u64|
                #![trigger segs@[t], spec_index((p + offset) as u64)]
                0 <= t < segs@.len() && spec_is_load(segs@[t]) && segs@[t].p_paddr <= p
                    < segs@[t].p_paddr + segs@[t].p_memsz && (p - segs@[t].p_paddr) % (
                PAGE as int) == 0 && j == spec_index((p + offset) as u64),
        forall|p: u64|
            heap + 0xA_0000 <= p < heap + 0xA_0000 + dtb_len && p % PAGE == 0
                ==> final(table_kernel).spec_l3()[#[trigger] spec_index((p + offset) as u64)]
                == spec_descriptor(p, spec_blob_attr()),
        forall|t: int, p: u64|
            #![trigger segs@[t], spec_index((p + offset) as u64)]
            0 <= t < segs@.len() && spec_is_load(segs@[t]) && segs@[t].p_paddr <= p < segs@[t].p_paddr
                + segs@[t].p_memsz && p % PAGE == 0 ==> final(table_kernel).spec_l3()[spec_index(
                (p + offset) as u64,
            )] == spec_descriptor(
                p,
                Attr::Normal {
                    read: segs@[t].p_flags & PF_R != 0,
                    write: segs@[t].p_flags & PF_W != 0,
                    execute: segs@[t].p_flags & PF_X != 0,
                },
            ),
        final(table_identity).wf(),
        final(table_identity).spec_l2() == old(table_identity).spec_l2(),
        forall|j: int|
            0 <= j < 0x1_0000 && final(table_identity).spec_l3()[j] != old(
                table_identity,
            ).spec_l3()[j] ==> (spec_first_exec(segs@, 0) matches Some(x) && exists|p: u64|
                x.p_paddr <= p < x.p_paddr + x.p_memsz && (p - x.p_paddr) % (PAGE as int) == 0 && j
                    == #[trigger] spec_index(p)),
        match spec_first_exec(segs@, 0) {
            Some(x) => x.p_memsz == 0 || final(table_identity).spec_l3()[spec_index(x.p_paddr)]
                == spec_descriptor(
                x.p_paddr,
                Attr::Normal {
                    read: x.p_flags & PF_R != 0,
                    write: x.p_flags & PF_W != 0,
                    execute: x.p_flags & PF_X != 0,
                },
            ),
            None => true,
        },
{
    let n = segs.len();
    let mut k: usize = 0;
    while k < n
        invariant
            0 <= k <= n,
            n == segs@.len(),
            heap % PAGE == 0,
            heap + 0xA_0000 + dtb_len <= old(mem)@.len(),
            heap + 0xA_0000 + dtb_len <= MMIO_BASE,
            offset % PAGE == 0,
            offset <= 0xFFFF_FFFF_0000_0000,
            forall|t: int|
                0 <= t < n && spec_is_load(#[trigger] segs@[t]) ==> {
                    &&& segs@[t].p_offset + segs@[t].p_filesz <= image@.len()
                    &&& segs@[t].p_filesz <= segs@[t].p_memsz
                    &&& segs@[t].p_paddr % PAGE == 0
                    &&& segs@[t].p_paddr + segs@[t].p_memsz <= heap
                    &&& segs@[t].p_flags & PF_R != 0
                },
            forall|a: int, b: int|
                0 <= a < n && 0 <= b < n && a != b && spec_is_load(#[trigger] segs@[a])
                    && spec_is_load(#[trigger] segs@[b]) ==> spec_align_page(
                    segs@[a].p_paddr + segs@[a].p_memsz,
                ) <= segs@[b].p_paddr || spec_align_page(segs@[b].p_paddr + segs@[b].p_memsz)
                    <= segs@[a].p_paddr,
            mem@.len() == old(mem)@.len(),
            forall|t: int, j: int|
                #![trigger segs@[t], mem@[j]]
                0 <= t < k && spec_is_load(segs@[t]) && segs@[t].p_paddr <= j < segs@[t].p_paddr
                    + segs@[t].p_filesz ==> mem@[j] == image@[segs@[t].p_offset + (j
                    - segs@[t].p_paddr)],
            forall|t: int, j: int|
                #![trigger segs@[t], mem@[j]]
                0 <= t < k && spec_is_load(segs@[t]) && segs@[t].p_paddr + segs@[t].p_filesz <= j
                    < segs@[t].p_paddr + segs@[t].p_memsz ==> mem@[j] == 0,
            forall|j: int|
                0 <= j < old(mem)@.len() && mem@[j] != old(mem)@[j] ==> exists|t: int|
                    0 <= t < k && spec_is_load(#[trigger] segs@[t]) && segs@[t].p_paddr <= j
                        < segs@[t].p_paddr + segs@[t].p_memsz,
            allocator.wf(),
            allocator.capacity() == old(allocator).capacity(),
            forall|id: int|
                0 <= id < allocator.capacity() ==> allocator.spec_used(id) == {
                    ||| spec_base_pages(heap as int, dtb_len as int, id)
                    ||| exists|t: int|
                        0 <= t < k && spec_is_load(#[trigger] segs@[t]) && spec_range_pages(
                            segs@[t].p_paddr as int,
                            segs@[t].p_memsz as int,
                            id,
                        )
                },
            table_kernel.wf(),
            table_kernel.spec_base() == heap,
            table_kernel.spec_l2() == old(table_kernel).spec_l2(),
            forall|j: int|
                0 <= j < 0x1_0000 && table_kernel.spec_l3()[j] != old(table_kernel).spec_l3()[j]
                    ==> exists|t: int, p: u64|
                    #![trigger segs@[t], spec_index((p + offset) as u64)]
                    0 <= t < k && spec_is_load(segs@[t]) && segs@[t].p_paddr <= p < segs@[t].p_paddr
                        + segs@[t].p_memsz && (p - segs@[t].p_paddr) % (PAGE as int) == 0 && j
                        == spec_index((p + offset) as u64),
            forall|p: u64|
                heap + 0xA_0000 <= p < heap + 0xA_0000 + dtb_len && p % PAGE == 0
                    ==> table_kernel.spec_l3()[#[trigger] spec_index((p + offset) as u64)]
                    == spec_descriptor(p, spec_blob_attr()),
            forall|t: int, p: u64|
                #![trigger segs@[t], spec_index((p + offset) as u64)]
                0 <= t < k && spec_is_load(segs@[t]) && segs@[t].p_paddr <= p < segs@[t].p_paddr
                    + segs@[t].p_memsz && p % PAGE == 0 ==> table_kernel.spec_l3()[spec_index(
                    (p + offset) as u64,
                )] == spec_descriptor(
                    p,
                    Attr::Normal {
                        read: segs@[t].p_flags & PF_R != 0,
                        write: segs@[t].p_flags & PF_W != 0,
                        execute: segs@[t].p_flags & PF_X != 0,
                    },
                ),
        decreases n - k,
    {
        let seg = segs[k];
        if seg.p_type != PT_LOAD {
            k += 1;
            continue ;
        }
        proof {
            lemma_heap_covers(segs@, segs@.len() as int, k as int);
        }
        let ghost mem_before = mem@;
        copy_segment(mem, image, &seg);
        proof {
            assert forall|t: int, j: int|
                #![trigger segs@[t], mem@[j]]
                0 <= t < k && spec_is_load(segs@[t]) && segs@[t].p_paddr <= j < segs@[t].p_paddr
                    + segs@[t].p_filesz implies mem@[j] == image@[segs@[t].p_offset + (j
                - segs@[t].p_paddr)] by {
                lemma_page_disjoint(segs@, t, k as int);
            }
            assert forall|t: int, j: int|
                #![trigger segs@[t], mem@[j]]
                0 <= t < k && spec_is_load(segs@[t]) && segs@[t].p_paddr + segs@[t].p_filesz <= j
                    < segs@[t].p_paddr + segs@[t].p_memsz implies
                mem@[j] == 0 by {
                lemma_page_disjoint(segs@, t, k as int);
            }
            assert forall|j: int|
                0 <= j < old(mem)@.len() && mem@[j] != old(mem)@[j] implies exists|t: int|
                0 <= t < k + 1 && spec_is_load(#[trigger] segs@[t]) && segs@[t].p_paddr <= j
                    < segs@[t].p_paddr + segs@[t].p_memsz by {
                if mem_before[j] == old(mem)@[j] {
                    assert(spec_is_load(segs@[k as int]) && segs@[k as int].p_paddr <= j < segs@[
                        k as int].p_paddr + segs@[k as int].p_memsz);
                }
            }
        }
        proof {
            if seg.p_memsz > 0 {
                lemma_page_bound((seg.p_paddr + seg.p_memsz) as int);
            }
        }
        let ghost alloc_before = *allocator;
        reserve_range(allocator, seg.p_paddr, seg.p_memsz);
        proof {
            assert forall|id: int| 0 <= id < allocator.capacity() implies allocator.spec_used(id)
                == {
                ||| spec_base_pages(heap as int, dtb_len as int, id)
                ||| exists|t: int|
                    0 <= t < k + 1 && spec_is_load(#[trigger] segs@[t]) && spec_range_pages(
                        segs@[t].p_paddr as int,
                        segs@[t].p_memsz as int,
                        id,
                    )
            } by {
                if allocator.spec_used(id) {
                    if !alloc_before.spec_used(id) {
                        assert(spec_is_load(segs@[k as int]) && spec_range_pages(
                            segs@[k as int].p_paddr as int,
                            segs@[k as int].p_memsz as int,
                            id,
                        ));
                    }
                } else {
                    if spec_range_pages(seg.p_paddr as int, seg.p_memsz as int, id) {
                        assert(false);
                    }
                }
            }
        }
        let ghost kt_before = *table_kernel;
        map_range(table_kernel, offset, seg.p_paddr, seg.p_memsz, segment_attr(seg.p_flags));
        proof {
            assert forall|p: u64|
                heap + 0xA_0000 <= p < heap + 0xA_0000 + dtb_len && p % PAGE == 0 implies
                table_kernel.spec_l3()[#[trigger] spec_index((p + offset) as u64)]
                == spec_descriptor(p, spec_blob_attr()) by {
                crate::mmu::lemma_index_range((p + offset) as u64);
                if table_kernel.spec_l3()[spec_index((p + offset) as u64)] != kt_before.spec_l3()[
                    spec_index((p + offset) as u64)] {
                    let q = choose|q: u64|
                        seg.p_paddr <= q < seg.p_paddr + seg.p_memsz && (q - seg.p_paddr) % (
                        PAGE as int) == 0 && spec_index((p + offset) as u64)
                            == #[trigger] spec_index((q + offset) as u64);
                    assert(q % 0x1_0000 == 0) by (nonlinear_arith)
                        requires
                            (q - seg.p_paddr) % 0x1_0000 == 0,
                            seg.p_paddr % 0x1_0000 == 0,
                            seg.p_paddr <= q,
                    ;
                    assert(q < heap <= p);
                    lemma_index_injective(q, p, offset);
                }
            }
            assert forall|t: int, p: u64|
                #![trigger segs@[t], spec_index((p + offset) as u64)]
                0 <= t < k + 1 && spec_is_load(segs@[t]) && segs@[t].p_paddr <= p < segs@[t].p_paddr
                    + segs@[t].p_memsz && p % PAGE == 0 implies table_kernel.spec_l3()[spec_index(
                (p + offset) as u64,
            )] == spec_descriptor(
                p,
                Attr::Normal {
                    read: segs@[t].p_flags & PF_R != 0,
                    write: segs@[t].p_flags & PF_W != 0,
                    execute: segs@[t].p_flags & PF_X != 0,
                },
            ) by {
                crate::mmu::lemma_index_range((p + offset) as u64);
                if t < k {
                    if table_kernel.spec_l3()[spec_index((p + offset) as u64)]
                        != kt_before.spec_l3()[spec_index((p + offset) as u64)] {
                        let q = choose|q: u64|
                            seg.p_paddr <= q < seg.p_paddr + seg.p_memsz && (q - seg.p_paddr) % (
                            PAGE as int) == 0 && spec_index((p + offset) as u64)
                                == #[trigger] spec_index((q + offset) as u64);
                        assert(q % 0x1_0000 == 0) by (nonlinear_arith)
                            requires
                                (q - seg.p_paddr) % 0x1_0000 == 0,
                                seg.p_paddr % 0x1_0000 == 0,
                                seg.p_paddr <= q,
                        ;
                        lemma_page_disjoint(segs@, t, k as int);
                        assert(q != p);
                        lemma_index_injective(q, p, offset);
                    }
                } else {
                    assert(t == k);
                    assert((p - seg.p_paddr) % (PAGE as int) == 0) by (nonlinear_arith)
                        requires
                            p % 0x1_0000 == 0,
                            seg.p_paddr % 0x1_0000 == 0,
                            seg.p_paddr <= p,
                    ;
                }
            }
            lemma_frame_extend(
                segs@,
                k as int,
                old(table_kernel).spec_l3(),
                kt_before.spec_l3(),
                table_kernel.spec_l3(),
                offset,
            );
        }
        k += 1;
    }

    // Identity-map the first page of the first executable segment.
    let mut first_exec: Option<Phdr> = None;
    let mut k2: usize = 0;
    while k2 < n
        invariant
            0 <= k2 <= n,
            n == segs@.len(),
            match first_exec {
                Some(f) => spec_first_exec(segs@, 0) == Some(f),
                None => spec_first_exec(segs@, k2 as int) == spec_first_exec(segs@, 0),
            },
        decreases n - k2,
    {
        let seg = segs[k2];
        if seg.p_type == PT_LOAD && seg.p_flags & PF_X != 0 {
            if first_exec.is_none() {
                proof {
                    assert(spec_first_exec(segs@, k2 as int) == Some(seg));
                }
                first_exec = Some(seg);
            }
        } else {
            proof {
                if first_exec is None {
                    assert(spec_first_exec(segs@, k2 as int) == spec_first_exec(segs@, k2 + 1));
                }
            }
        }
        k2 += 1;
    }
    match first_exec {
        Some(seg) => {
            proof {
                lemma_first_exec_witness(segs@, 0);
                let t = choose|t: int| 0 <= t < segs@.len() && #[trigger] segs@[t] == seg;
                assert(spec_is_load(segs@[t]));
                assert(segs@[t].p_paddr + segs@[t].p_memsz <= heap && segs@[t].p_flags & PF_R != 0
                    && segs@[t].p_paddr % PAGE == 0);
            }
            if seg.p_memsz > 0 {
                let span = if seg.p_memsz < PAGE {
                    seg.p_memsz
                } else {
                    PAGE
                };
                proof {
                    assert forall|p: u64|
                        seg.p_paddr <= p < seg.p_paddr + span implies User::spec_valid(
                        #[trigger] ((p + 0u64) as u64),
                    ) by {
                        assert((p + 0u64) as u64 == p);
                    }
                }
                map_range(table_identity, 0, seg.p_paddr, span, segment_attr(seg.p_flags));
                proof {
                    assert((seg.p_paddr + 0u64) as u64 == seg.p_paddr);
                    assert(table_identity.spec_l3()[spec_index(seg.p_paddr)] == spec_descriptor(
                        seg.p_paddr,
                        Attr::Normal {
                            read: seg.p_flags & PF_R != 0,
                            write: seg.p_flags & PF_W != 0,
                            execute: seg.p_flags & PF_X != 0,
                        },
                    ));
                    assert forall|j: int|
                        0 <= j < 0x1_0000 && table_identity.spec_l3()[j] != old(
                        table_identity,
                    ).spec_l3()[j] implies (spec_first_exec(segs@, 0) matches Some(x) && exists|
                        p: u64,
                    |
                        x.p_paddr <= p < x.p_paddr + x.p_memsz && (p - x.p_paddr) % (PAGE as int)
                            == 0 && j == #[trigger] spec_index(p)) by {
                        let q = choose|q: u64|
                            seg.p_paddr <= q < seg.p_paddr + span && (q - seg.p_paddr) % (
                            PAGE as int) == 0 && j == #[trigger] spec_index((q + 0u64) as u64);
                        assert((q + 0u64) as u64 == q);
                        assert(seg.p_paddr <= q < seg.p_paddr + seg.p_memsz && (q - seg.p_paddr)
                            % (PAGE as int) == 0 && j == spec_index(q));
                    }
                }
            }
        },
        None => {
        },
    }
}

/// Two distinct loadable segments never touch a common byte: their
/// page-disjointness separates even their byte ranges.
proof fn lemma_page_disjoint(segs: Seq<Phdr>, t: int, k: int)
    requires
        0 <= t < segs.len(),
        0 <= k < segs.len(),
        t != k,
        spec_is_load(segs[t]),
        spec_is_load(segs[k]),
        spec_align_page(segs[t].p_paddr + segs[t].p_memsz) <= segs[k].p_paddr || spec_align_page(
            segs[k].p_paddr + segs[k].p_memsz,
        ) <= segs[t].p_paddr,
    ensures
        segs[t].p_paddr + segs[t].p_memsz <= segs[k].p_paddr || segs[k].p_paddr + segs[k].p_memsz
            <= segs[t].p_paddr,
{
    let et = segs[t].p_paddr + segs[t].p_memsz;
    let ek = segs[k].p_paddr + segs[k].p_memsz;
    assert(et <= spec_align_page(et) && ek <= spec_align_page(ek)) by (nonlinear_arith)
        requires
            et >= 0,
            ek >= 0,
    ;
}

/// A byte range that ends at or below the MMIO window lies within the
/// pages the allocator tracks.
proof fn lemma_page_bound(e: int)
    requires
        0 < e <= 0x4000_0000,
    ensures
        (e - 1) / 0x1_0000 < 16384,
{
    assert((e - 1) / 0x1_0000 < 16384) by (nonlinear_arith)
        requires
            0 < e <= 0x4000_0000,
    ;
}

/// Everything the boot hands to the control transfer: the layout, the
/// primed allocator, both populated tables and the physical entry
/// point.
pub struct Boot {
    /// Where each structure was placed.
    pub layout: Layout,
    /// The page allocator with every consumed page marked in use.
    pub allocator: Page,
    /// The high-half table the loaded image runs under.
    pub table_kernel: PageTable<Kernel>,
    /// The throwaway table that bridges the translation switch.
    pub table_identity: PageTable<User>,
    /// The physical address execution continues at.
    pub entry: u64,
}

/// Every loadable segment's end lies at or below the heap base.
proof fn lemma_heap_covers(segs: Seq<Phdr>, n: int, i: int)
    requires
        0 <= i < n <= segs.len(),
        spec_is_load(segs[i]),
    ensures
        segs[i].p_paddr + segs[i].p_memsz <= spec_align_page(segs[i].p_paddr + segs[i].p_memsz)
            <= spec_heap_base(segs, n),
    decreases n,
{
    let e = segs[i].p_paddr + segs[i].p_memsz;
    assert(0 <= (0x1_0000 - e % 0x1_0000) % 0x1_0000) by (nonlinear_arith);
    if i < n - 1 {
        lemma_heap_covers(segs, n - 1, i);
    }
}

/// The heap base of any segment table is page-aligned.
proof fn lemma_heap_aligned(segs: Seq<Phdr>, n: int)
    ensures
        spec_heap_base(segs, n) % (PAGE as int) == 0,
        spec_heap_base(segs, n) >= 0,
    decreases n,
{
    if n > 0 {
        lemma_heap_aligned(segs, n - 1);
        let e = segs[n - 1].p_paddr + segs[n - 1].p_memsz;
        assert(spec_align_page(e) % 0x1_0000 == 0 && spec_align_page(e) >= 0) by (nonlinear_arith)
            requires
                e >= 0,
        ;
    }
}


/// Parse and validate everything the boot rests on: the header, the
/// segment table, the layout, and the bounds of the modeled memory.
/// Succeeds exactly when [`spec_load_ok`] holds of the inputs.
#[verifier::rlimit(100)]
fn prepare(image: &[u8], dtb_len: u64, mem_len: usize) -> (r: Result<(Ehdr, Vec<Phdr>, Layout), Error>)
    requires
        dtb_len <= 0x1_0000_0000,
    ensures
        r is Ok <==> spec_load_ok(image@, dtb_len as int, mem_len as int),
        r matches Ok(t) ==> {
            let s = image@;
            let segs = spec_phdrs(s);
            let heap = spec_heap_base(segs, segs.len() as int);
            let f = spec_first_load(segs, 0)->0;
            &&& t.0 == spec_ehdr(s)
            &&& t.1@ == segs
            &&& t.2.heap_base == heap
            &&& t.2.offset == f.p_vaddr - f.p_paddr
            &&& t.2.table_kernel == heap
            &&& t.2.allocator_base == heap + 0x9_0000
            &&& t.2.dtb_dst == heap + 0xA_0000
            &&& t.2.table_identity == spec_align_page(heap + 0xA_0000 + dtb_len)
            &&& t.2.heap_base % PAGE == 0
            &&& t.2.offset % PAGE == 0
            &&& t.2.offset <= 0xFFFF_FFFF_0000_0000
            &&& t.0.entry >= t.2.offset
            &&& heap + 0xA_0000 + dtb_len <= mem_len
            &&& heap + 0xA_0000 + dtb_len <= MMIO_BASE
        },
{
    let ghost s = image@;
    let header = match parse_ehdr(image) {
        Ok(h) => h,
        Err(e) => {
            return Err(e);
        },
    };
    let segs = match segments(image, &header) {
        Ok(v) => v,
        Err(e) => {
            return Err(e);
        },
    };
    proof {
        assert(segs@ =~= spec_phdrs(s));
    }
    let first = match check_segments(image, &segs) {
        Ok(f) => f,
        Err(e) => {
            return Err(e);
        },
    };
    if first.p_vaddr < first.p_paddr {
        return Err(Error::BadSegment);
    }
    let offset = first.p_vaddr - first.p_paddr;
    if offset % PAGE != 0 || offset > 0xFFFF_FFFF_0000_0000 || header.entry < offset {
        return Err(Error::BadSegment);
    }
    let layout = match plan(&segs, dtb_len) {
        Ok(l) => l,
        Err(e) => {
            return Err(e);
        },
    };
    let heap = layout.heap_base;
    proof {
        lemma_heap_aligned(segs@, segs@.len() as int);
    }
    if heap > MMIO_BASE - 0xA_0000 || dtb_len > MMIO_BASE - 0xA_0000 - heap {
        return Err(Error::Truncated);
    }
    if heap + 0xA_0000 > mem_len as u64 || dtb_len > mem_len as u64 - heap - 0xA_0000 {
        return Err(Error::Truncated);
    }
    assert(spec_load_ok(s, dtb_len as int, mem_len as int));
    Ok((header, segs, layout))
}


/// What populating the tables leaves intact: the kernel table's device
/// window and self-mapping, and the identity table's device window,
/// survive the relocated blob's mapping and every segment's mappings,
/// because all of those touch pages below the device window.
#[verifier::rlimit(100)]
proof fn lemma_init_survives(
    segs: Seq<Phdr>,
    kt_init: PageTable<Kernel>,
    kt_dtb: PageTable<Kernel>,
    kt_fin: PageTable<Kernel>,
    id_init: PageTable<User>,
    id_fin: PageTable<User>,
    heap: u64,
    offset: u64,
    dtb_len: u64,
)
    requires
        heap % PAGE == 0,
        heap + 0xA_0000 + dtb_len <= MMIO_BASE,
        offset % PAGE == 0,
        offset <= 0xFFFF_FFFF_0000_0000,
        forall|t: int|
            0 <= t < segs.len() && spec_is_load(#[trigger] segs[t]) ==> segs[t].p_paddr % PAGE == 0
                && segs[t].p_paddr + segs[t].p_memsz <= heap,
        forall|p: u64|
            MMIO_BASE <= p < MMIO_END && p % PAGE == 0 ==> kt_init.spec_l3()[#[trigger] spec_index(
                (p + offset) as u64,
            )] == spec_descriptor(p, Attr::Device),
        offset != 0 ==> forall|k: int|
            0 <= k < 9 ==> kt_init.spec_l3()[#[trigger] spec_index(
                (heap + k * 0x1_0000 + offset) as u64,
            )] == spec_descriptor(
                (heap + k * 0x1_0000) as u64,
                PageTable::<Kernel>::spec_self_attr(),
            ),
        forall|j: int|
            0 <= j < 0x1_0000 && kt_dtb.spec_l3()[j] != kt_init.spec_l3()[j] ==> exists|q: u64|
                heap + 0xA_0000 <= q < heap + 0xA_0000 + dtb_len && (q - (heap + 0xA_0000)) % (
                PAGE as int) == 0 && j == #[trigger] spec_index((q + offset) as u64),
        forall|j: int|
            0 <= j < 0x1_0000 && kt_fin.spec_l3()[j] != kt_dtb.spec_l3()[j] ==> exists|
                t: int,
                q: u64,
            |
                #![trigger segs[t], spec_index((q + offset) as u64)]
                0 <= t < segs.len() && spec_is_load(segs[t]) && segs[t].p_paddr <= q
                    < segs[t].p_paddr + segs[t].p_memsz && (q - segs[t].p_paddr) % (PAGE as int)
                    == 0 && j == spec_index((q + offset) as u64),
        forall|p: u64|
            MMIO_BASE <= p < MMIO_END && p % PAGE == 0 ==> id_init.spec_l3()[#[trigger] spec_index(
                (p + 0) as u64,
            )] == spec_descriptor(p, Attr::Device),
        forall|j: int|
            0 <= j < 0x1_0000 && id_fin.spec_l3()[j] != id_init.spec_l3()[j] ==> (spec_first_exec(
                segs,
                0,
            ) matches Some(x) && exists|q: u64|
                x.p_paddr <= q < x.p_paddr + x.p_memsz && (q - x.p_paddr) % (PAGE as int) == 0 && j
                    == #[trigger] spec_index(q)),
    ensures
        forall|p: u64|
            MMIO_BASE <= p < MMIO_END && p % PAGE == 0 ==> kt_fin.spec_l3()[#[trigger] spec_index(
                (p + offset) as u64,
            )] == spec_descriptor(p, Attr::Device),
        offset != 0 ==> forall|k: int|
            0 <= k < 9 ==> kt_fin.spec_l3()[#[trigger] spec_index(
                (heap + k * 0x1_0000 + offset) as u64,
            )] == spec_descriptor(
                (heap + k * 0x1_0000) as u64,
                PageTable::<Kernel>::spec_self_attr(),
            ),
        forall|p: u64|
            MMIO_BASE <= p < MMIO_END && p % PAGE == 0 ==> id_fin.spec_l3()[#[trigger] spec_index(
                (p + 0) as u64,
            )] == spec_descriptor(p, Attr::Device),
{
    assert forall|p: u64|
        MMIO_BASE <= p < MMIO_END && p % PAGE == 0 implies kt_fin.spec_l3()[#[trigger] spec_index(
        (p + offset) as u64,
    )] == spec_descriptor(p, Attr::Device) by {
        crate::mmu::lemma_index_range((p + offset) as u64);
        let jdx = spec_index((p + offset) as u64);
        if kt_dtb.spec_l3()[jdx] != kt_init.spec_l3()[jdx] {
            let q = choose|q: u64|
                heap + 0xA_0000 <= q < heap + 0xA_0000 + dtb_len && (q - (heap + 0xA_0000)) % (
                PAGE as int) == 0 && jdx == #[trigger] spec_index((q + offset) as u64);
            assert(q % 0x1_0000 == 0) by (nonlinear_arith)
                requires
                    (q - (heap + 0xA_0000)) % 0x1_0000 == 0,
                    heap % 0x1_0000 == 0,
                    heap + 0xA_0000 <= q,
            ;
            lemma_index_injective(q, p, offset);
        }
        if kt_fin.spec_l3()[jdx] != kt_dtb.spec_l3()[jdx] {
            let (t, q): (int, u64) = choose|t: int, q: u64|
                #![trigger segs[t], spec_index((q + offset) as u64)]
                0 <= t < segs.len() && spec_is_load(segs[t]) && segs[t].p_paddr <= q
                    < segs[t].p_paddr + segs[t].p_memsz && (q - segs[t].p_paddr) % (PAGE as int)
                    == 0 && jdx == spec_index((q + offset) as u64);
            assert(q % 0x1_0000 == 0) by (nonlinear_arith)
                requires
                    (q - segs[t].p_paddr) % 0x1_0000 == 0,
                    segs[t].p_paddr % 0x1_0000 == 0,
                    segs[t].p_paddr <= q,
            ;
            lemma_index_injective(q, p, offset);
        }
    }
    if offset != 0 {
        assert forall|k: int| 0 <= k < 9 implies kt_fin.spec_l3()[#[trigger] spec_index(
            (heap + k * 0x1_0000 + offset) as u64,
        )] == spec_descriptor(
            (heap + k * 0x1_0000) as u64,
            PageTable::<Kernel>::spec_self_attr(),
        ) by {
            let pk = (heap + k * 0x1_0000) as u64;
            assert(pk == heap + k * 0x1_0000 && pk % 0x1_0000 == 0 && pk < 0x1_0000_0000)
                by (nonlinear_arith)
                requires
                    heap % 0x1_0000 == 0,
                    heap + 0xA_0000 <= 0x3F00_0000,
                    0 <= k < 9,
                    pk == (heap + k * 0x1_0000) as u64,
            ;
            assert((pk + offset) as u64 == (heap + k * 0x1_0000 + offset) as u64);
            crate::mmu::lemma_index_range((pk + offset) as u64);
            let jdx = spec_index((pk + offset) as u64);
            if kt_dtb.spec_l3()[jdx] != kt_init.spec_l3()[jdx] {
                let q = choose|q: u64|
                    heap + 0xA_0000 <= q < heap + 0xA_0000 + dtb_len && (q - (heap + 0xA_0000)) % (
                    PAGE as int) == 0 && jdx == #[trigger] spec_index((q + offset) as u64);
                assert(q % 0x1_0000 == 0) by (nonlinear_arith)
                    requires
                        (q - (heap + 0xA_0000)) % 0x1_0000 == 0,
                        heap % 0x1_0000 == 0,
                        heap + 0xA_0000 <= q,
                ;
                assert(q != pk);
                lemma_index_injective(q, pk, offset);
            }
            if kt_fin.spec_l3()[jdx] != kt_dtb.spec_l3()[jdx] {
                let (t, q): (int, u64) = choose|t: int, q: u64|
                    #![trigger segs[t], spec_index((q + offset) as u64)]
                    0 <= t < segs.len() && spec_is_load(segs[t]) && segs[t].p_paddr <= q
                        < segs[t].p_paddr + segs[t].p_memsz && (q - segs[t].p_paddr) % (
                    PAGE as int) == 0 && jdx == spec_index((q + offset) as u64);
                assert(q % 0x1_0000 == 0) by (nonlinear_arith)
                    requires
                        (q - segs[t].p_paddr) % 0x1_0000 == 0,
                        segs[t].p_paddr % 0x1_0000 == 0,
                        segs[t].p_paddr <= q,
                ;
                assert(q != pk);
                lemma_index_injective(q, pk, offset);
            }
        }
    }
    assert forall|p: u64|
        MMIO_BASE <= p < MMIO_END && p % PAGE == 0 implies id_fin.spec_l3()[#[trigger] spec_index(
        (p + 0) as u64,
    )] == spec_descriptor(p, Attr::Device) by {
        assert((p + 0) as u64 == p);
        crate::mmu::lemma_index_range(p);
        let jdx = spec_index(p);
        if id_fin.spec_l3()[jdx] != id_init.spec_l3()[jdx] {
            let x = spec_first_exec(segs, 0)->0;
            let q = choose|q: u64|
                x.p_paddr <= q < x.p_paddr + x.p_memsz && (q - x.p_paddr) % (PAGE as int) == 0
                    && jdx == #[trigger] spec_index(q);
            lemma_first_exec_witness(segs, 0);
            let t = choose|t: int| 0 <= t < segs.len() && #[trigger] segs[t] == x;
            assert(spec_is_load(segs[t]));
            assert(x.p_paddr % PAGE == 0 && x.p_paddr + x.p_memsz <= heap);
            assert(q % 0x1_0000 == 0) by (nonlinear_arith)
                requires
                    (q - x.p_paddr) % 0x1_0000 == 0,
                    x.p_paddr % 0x1_0000 == 0,
                    x.p_paddr <= q,
            ;
            assert((q + 0) as u64 == q);
            lemma_index_injective(q, p, 0);
        }
    }
}

/// Run the whole boot sequence against a modeled physical memory:
/// parse the image, derive the layout, relocate the device-tree blob,
/// prime the allocator with every page the loader consumed, populate
/// both tables, copy and map every loadable segment, and identity-map
/// the first page of the first executable segment. Succeeds exactly
/// when [`spec_load_ok`] holds of the inputs.
#[verifier::rlimit(100)]
#[verifier::spinoff_prover]
pub fn load(image: &[u8], dtb: &[u8], mem: &mut Vec<u8>) -> (r: Result<Boot, Error>)
    requires
        dtb@.len() <= 0x1_0000_0000,
    ensures
        r is Ok <==> spec_load_ok(image@, dtb@.len() as int, old(mem)@.len() as int),
        final(mem)@.len() == old(mem)@.len(),
        r is Err ==> final(mem)@ == old(mem)@,
        r matches Ok(boot) ==> {
            let s = image@;
            let h = spec_ehdr(s);
            let segs = spec_phdrs(s);
            let heap = spec_heap_base(segs, segs.len() as int);
            let f = spec_first_load(segs, 0)->0;
            let offset = (f.p_vaddr - f.p_paddr) as u64;
            &&& boot.layout.heap_base == heap
            &&& boot.layout.offset == offset
            &&& boot.layout.table_kernel == heap
            &&& boot.layout.allocator_base == heap + 0x9_0000
            &&& boot.layout.dtb_dst == heap + 0xA_0000
            &&& boot.layout.table_identity == spec_align_page(heap + 0xA_0000 + dtb@.len())
            &&& boot.entry == h.entry - offset
            // The relocated device-tree blob.
            &&& forall|j: int|
                boot.layout.dtb_dst <= j < boot.layout.dtb_dst + dtb@.len() ==> final(mem)@[j]
                    == dtb@[j - boot.layout.dtb_dst]
            // Every loadable segment's bytes, then zeroes to its memory size.
            &&& forall|i: int, j: int|
                #![trigger segs[i], final(mem)@[j]]
                0 <= i < segs.len() && spec_is_load(segs[i]) && segs[i].p_paddr <= j
                    < segs[i].p_paddr + segs[i].p_filesz ==> final(mem)@[j]
                    == s[segs[i].p_offset + (j - segs[i].p_paddr)]
            &&& forall|i: int, j: int|
                #![trigger segs[i], final(mem)@[j]]
                0 <= i < segs.len() && spec_is_load(segs[i]) && segs[i].p_paddr
                    + segs[i].p_filesz <= j < segs[i].p_paddr + segs[i].p_memsz
                    ==> final(mem)@[j] == 0
            // The allocator: exactly the loader's own pages are in use.
            &&& boot.allocator.wf()
            &&& forall|id: int|
                0 <= id < boot.allocator.capacity() ==> boot.allocator.spec_used(id) == {
                    ||| spec_range_pages(heap + 0x9_0000, crate::mem::allocator::CAPACITY as int / 8, id)
                    ||| spec_range_pages(heap + 0xA_0000, dtb@.len() as int, id)
                    ||| spec_range_pages(heap as int, 0x9_0000, id)
                    ||| exists|i: int|
                        0 <= i < segs.len() && spec_is_load(#[trigger] segs[i])
                            && spec_range_pages(
                            segs[i].p_paddr as int,
                            segs[i].p_memsz as int,
                            id,
                        )
                }
            // The kernel table: every segment page, with the segment's
            // own permissions.
            &&& boot.table_kernel.wf()
            &&& boot.table_kernel.spec_base() == heap
            &&& forall|i: int, p: u64|
                #![trigger segs[i], spec_index((p + offset) as u64)]
                0 <= i < segs.len() && spec_is_load(segs[i]) && segs[i].p_paddr <= p
                    < segs[i].p_paddr + segs[i].p_memsz && p % PAGE == 0
                    ==> boot.table_kernel.spec_l3()[spec_index((p + offset) as u64)]
                    == spec_descriptor(
                    p,
                    Attr::Normal {
                        read: segs[i].p_flags & PF_R != 0,
                        write: segs[i].p_flags & PF_W != 0,
                        execute: segs[i].p_flags & PF_X != 0,
                    },
                )
            // The kernel table: the relocated blob, read-only.
            &&& forall|p: u64|
                boot.layout.dtb_dst <= p < boot.layout.dtb_dst + dtb@.len() && p % PAGE == 0
                    ==> boot.table_kernel.spec_l3()[#[trigger] spec_index((p + offset) as u64)]
                    == spec_descriptor(p, spec_blob_attr())
            // The kernel table's own top-level links, the device MMIO
            // window, and — for a translated image — its self-mapping,
            // exactly as its population left them.
            &&& forall|i: int|
                0 <= i < 8 ==> boot.table_kernel.spec_l2()[i] == spec_table_descriptor(
                    (heap + i * 0x1_0000) as u64,
                )
            &&& forall|p: u64|
                MMIO_BASE <= p < MMIO_END && p % PAGE == 0 ==> boot.table_kernel.spec_l3()[
                    #[trigger] spec_index((p + offset) as u64)] == spec_descriptor(
                    p,
                    Attr::Device,
                )
            &&& (offset != 0 ==> forall|k: int|
                0 <= k < 9 ==> boot.table_kernel.spec_l3()[#[trigger] spec_index(
                    (heap + k * 0x1_0000 + offset) as u64,
                )] == spec_descriptor(
                    (heap + k * 0x1_0000) as u64,
                    PageTable::<Kernel>::spec_self_attr(),
                ))
            // The identity table: its own top-level links, the device
            // MMIO window at its own addresses, and the first page of
            // the first executable segment.
            &&& boot.table_identity.wf()
            &&& forall|i: int|
                0 <= i < 8 ==> boot.table_identity.spec_l2()[i] == spec_table_descriptor(
                    (spec_align_page(heap + 0xA_0000 + dtb@.len()) + i * 0x1_0000) as u64,
                )
            &&& forall|p: u64|
                MMIO_BASE <= p < MMIO_END && p % PAGE == 0 ==> boot.table_identity.spec_l3()[
                    #[trigger] spec_index((p + 0) as u64)] == spec_descriptor(p, Attr::Device)
            &&& (match spec_first_exec(segs, 0) {
                Some(x) => x.p_memsz == 0 || boot.table_identity.spec_l3()[spec_index(x.p_paddr)]
                    == spec_descriptor(
                    x.p_paddr,
                    Attr::Normal {
                        read: x.p_flags & PF_R != 0,
                        write: x.p_flags & PF_W != 0,
                        execute: x.p_flags & PF_X != 0,
                    },
                ),
                None => true,
            })
        },
{
    let ghost s = image@;
    let mem_len = mem.len();
    let dtb_len = dtb.len() as u64;

    let (header, segs, layout) = match prepare(image, dtb_len, mem_len) {
        Ok(t) => t,
        Err(e) => {
            return Err(e);
        },
    };
    let heap = layout.heap_base;
    let offset = layout.offset;
    proof {
        assert forall|t: int|
            0 <= t < segs@.len() && spec_is_load(#[trigger] segs@[t]) implies segs@[t].p_paddr
            + segs@[t].p_memsz <= heap by {
            lemma_heap_covers(segs@, segs@.len() as int, t);
        }
    }

    // Relocate the device-tree blob.
    copy_blob(mem, dtb, layout.dtb_dst);
    let ghost placed = mem@;

    // Prime the allocator with the loader's own pages.
    let mut allocator = Page::new();
    allocator.clear();
    proof {
        lemma_page_bound((heap + 0x9_0000 + 2048) as int);
        lemma_page_bound((heap + 0x9_0000) as int);
        if dtb_len > 0 {
            lemma_page_bound((heap + 0xA_0000 + dtb_len) as int);
        }
    }
    reserve_range(&mut allocator, layout.allocator_base, (crate::mem::allocator::CAPACITY / 8) as u64);
    reserve_range(&mut allocator, layout.dtb_dst, dtb_len);
    reserve_range(&mut allocator, layout.table_kernel, 0x9_0000);

    // Build and populate both tables.
    let mut table_kernel: PageTable<Kernel> = PageTable::new(Phys::new(layout.table_kernel));
    table_kernel.init(offset);
    let ghost kt_init = table_kernel;
    let mut table_identity: PageTable<User> = PageTable::new(Phys::new(layout.table_identity));
    table_identity.init(0);
    let ghost id_init = table_identity;

    // Map the relocated blob read-only.
    map_range(
        &mut table_kernel,
        offset,
        layout.dtb_dst,
        dtb_len,
        Attr::Normal { read: true, write: false, execute: false },
    );
    let ghost kt_dtb = table_kernel;

    // Copy, reserve and map every loadable segment.
    place_segments(
        image,
        &segs,
        mem,
        &mut allocator,
        &mut table_kernel,
        &mut table_identity,
        offset,
        heap,
        dtb_len,
    );
    proof {
        assert forall|j: int|
            heap + 0xA_0000 <= j < heap + 0xA_0000 + dtb_len implies mem@[j] == dtb@[j - (heap
            + 0xA_0000)] by {
            assert(placed[j] == dtb@[j - (heap + 0xA_0000)]);
            if mem@[j] != placed[j] {
                let t = choose|t: int|
                    0 <= t < segs@.len() && spec_is_load(#[trigger] segs@[t]) && segs@[t].p_paddr
                        <= j < segs@[t].p_paddr + segs@[t].p_memsz;
                assert(segs@[t].p_paddr + segs@[t].p_memsz <= heap);
            }
        }
        lemma_init_survives(
            segs@,
            kt_init,
            kt_dtb,
            table_kernel,
            id_init,
            table_identity,
            heap,
            offset,
            dtb_len,
        );
    }
    let entry = header.entry - offset;
    Ok(Boot { layout, allocator, table_kernel, table_identity, entry })
}

} // verus!
