//! Two-level page tables at the 64 KiB granule.
//!
//! A table covers a 4 GiB window: 8 top-level entries, each pointing
//! to an array of 8192 leaf descriptors, so one leaf per 64 KiB page.
//! The table is built in ordinary memory here; installing it into a
//! translation-base register, and the registers themselves, live
//! outside this crate. The leaf index of a virtual address is bits
//! [31:29] (top level) and [28:16] (leaf array) of the address.

use vstd::prelude::*;

use crate::mem::AddressSpace;
use crate::mem::Phys;
use crate::mem::Virt;

verus! {

/// First physical address of the device MMIO window the loader maps.
pub const MMIO_BASE: u64 = 0x3F00_0000;

/// First physical address past the device MMIO window.
pub const MMIO_END: u64 = 0x4001_0000;

/// Bytes of backing storage one table occupies: eight leaf arrays of
/// 8192 eight-byte descriptors, then eight top-level descriptors.
pub const TABLE_BYTES: u64 = 0x8_0040;

/// Memory attributes of one mapping.
#[derive(Clone, Copy, Debug, PartialEq, Eq, Structural)]
pub enum Attr {
    /// Device MMIO: strongly ordered, never executable.
    Device,
    /// Ordinary cacheable memory with access permissions.
    Normal { read: bool, write: bool, execute: bool },
}

impl Attr {
    /// Permission combinations the hardware can express. A mapping
    /// that cannot be read is a loader bug and is rejected up front.
    pub open spec fn wf(self) -> bool {
        match self {
            Attr::Device => true,
            Attr::Normal { read, write, execute } => read,
        }
    }

    /// Decide [`Attr::wf`] at run time.
    pub fn is_valid(&self) -> (r: bool)
        ensures
            r == self.wf(),
    {
        match self {
            Attr::Device => true,
            Attr::Normal { read, write, execute } => *read,
        }
    }
}

/// The leaf descriptor installed for a page at physical address
/// `phys` with attributes `attr`: output address in bits [47:16],
/// access flag, shareability, access permission, memory-attribute
/// index, page type and valid bits. Device memory is never
/// executable, so both execute-never bits are set for it. For normal
/// memory, unprivileged-execute-never is always set (the loader runs
/// no unprivileged code), and privileged-execute-never is clear only
/// when execution is requested.
pub open spec fn spec_descriptor(phys: u64, attr: Attr) -> u64 {
    match attr {
        Attr::Device => ((phys >> 16) << 16) | 0x403u64 | (0x2u64 << 8) | (0x3u64 << 53),
        Attr::Normal { read, write, execute } => ((phys >> 16) << 16) | 0x403u64 | (0x3u64 << 8) | (
        0x1u64 << 2) | (0x1u64 << 54) | (if execute {
            0u64
        } else {
            0x1u64 << 53
        }) | (if write {
            0x0u64
        } else {
            0x2u64 << 6
        }),
    }
}

/// The top-level descriptor linking to a leaf array at physical
/// address `addr`: next-level address in bits [47:16], table type and
/// valid bits.
pub open spec fn spec_table_descriptor(addr: u64) -> u64 {
    ((addr >> 16) << 16) | 0x3u64
}

/// The flat leaf index of a virtual address: bits [31:16].
pub open spec fn spec_index(virt: u64) -> int {
    ((virt >> 16) & 0xFFFF) as int
}

/// The leaf index of any address names one of the 65536 leaf slots.
pub broadcast proof fn lemma_index_range(virt: u64)
    ensures
        0 <= #[trigger] spec_index(virt) < 0x1_0000,
{
    assert(((virt >> 16) & 0xFFFF) < 0x1_0000) by (bit_vector);
}

/// The output physical address stored in a leaf descriptor.
pub open spec fn spec_desc_address(desc: u64) -> u64 {
    ((desc >> 16) & 0xFFFF_FFFF) << 16
}

/// True when the descriptor is marked valid.
pub open spec fn spec_desc_valid(desc: u64) -> bool {
    desc & 1 == 1
}

/// True when the descriptor denies privileged execution.
pub open spec fn spec_desc_pxn(desc: u64) -> bool {
    (desc >> 53) & 1 == 1
}

/// True when the descriptor allows writes at the privileged level.
pub open spec fn spec_desc_writable(desc: u64) -> bool {
    (desc >> 6) & 0x3 == 0
}

/// A descriptor built for page-aligned `phys` decodes back to `phys`,
/// is valid, denies execution unless it was requested, and allows
/// writes exactly when they were requested.
pub proof fn lemma_descriptor_decode(phys: u64, attr: Attr)
    requires
        phys % 0x1_0000 == 0,
        phys < 0x1_0000_0000,
    ensures
        spec_desc_address(spec_descriptor(phys, attr)) == phys,
        spec_desc_valid(spec_descriptor(phys, attr)),
        attr is Device ==> spec_desc_pxn(spec_descriptor(phys, attr)),
        attr matches Attr::Normal { execute, .. } ==> spec_desc_pxn(spec_descriptor(phys, attr))
            == !execute,
        attr matches Attr::Normal { write, .. } ==> spec_desc_writable(
            spec_descriptor(phys, attr),
        ) == write,
{
    match attr {
        Attr::Device => {
            let d = spec_descriptor(phys, attr);
            assert((((((((phys >> 16) << 16) | 0x403u64 | (0x2u64 << 8) | (0x3u64 << 53)) >> 16)
                & 0xFFFF_FFFF) << 16) == phys) && ((((phys >> 16) << 16) | 0x403u64 | (0x2u64 << 8)
                | (0x3u64 << 53)) & 1) == 1 && (((((phys >> 16) << 16) | 0x403u64 | (0x2u64 << 8)
                | (0x3u64 << 53)) >> 53) & 1) == 1) by (bit_vector)
                requires
                    phys % 0x1_0000 == 0,
                    phys < 0x1_0000_0000,
            ;
        },
        Attr::Normal { read, write, execute } => {
            let xbit: u64 = if execute {
                0u64
            } else {
                0x1u64 << 53
            };
            let wbit: u64 = if write {
                0x0u64
            } else {
                0x2u64 << 6
            };
            let d = ((phys >> 16) << 16) | 0x403u64 | (0x3u64 << 8) | (0x1u64 << 2) | (0x1u64 << 54)
                | xbit | wbit;
            assert((((d >> 16) & 0xFFFF_FFFF) << 16) == phys && d & 1 == 1 && ((d >> 53) & 1 == 1)
                == (xbit != 0) && ((d >> 6) & 0x3 == 0) == (wbit == 0) && (0x1u64 << 53) != 0 && (
            0x2u64 << 6) != 0) by (bit_vector)
                requires
                    phys % 0x1_0000 == 0,
                    phys < 0x1_0000_0000,
                    d == ((phys >> 16) << 16) | 0x403u64 | (0x3u64 << 8) | (0x1u64 << 2) | (0x1u64
                        << 54) | xbit | wbit,
                    xbit == 0 || xbit == (0x1u64 << 53),
                    wbit == 0 || wbit == (0x2u64 << 6),
                    (if execute { 0u64 } else { 0x1u64 << 53 }) == xbit,
                    (if write { 0x0u64 } else { 0x2u64 << 6 }) == wbit,
            ;
        },
    }
}

/// Distinct physical addresses that agree below the page granule land
/// on distinct leaf indices under one common translation offset.
pub proof fn lemma_index_injective(p1: u64, p2: u64, offset: u64)
    requires
        p1 < 0x1_0000_0000,
        p2 < 0x1_0000_0000,
        p1 % 0x1_0000 == p2 % 0x1_0000,
        p1 != p2,
        offset <= 0xFFFF_FFFF_0000_0000,
    ensures
        spec_index((p1 + offset) as u64) != spec_index((p2 + offset) as u64),
{
    assert(((((p1 + offset) as u64) >> 16) & 0xFFFF) != ((((p2 + offset) as u64) >> 16) & 0xFFFF))
        by (bit_vector)
        requires
            p1 < 0x1_0000_0000,
            p2 < 0x1_0000_0000,
            p1 % 0x1_0000 == p2 % 0x1_0000,
            p1 != p2,
            offset <= 0xFFFF_FFFF_0000_0000,
    ;
}

/// A two-level page table for the address space tagged by `S`,
/// backed by physical memory at `base`.
pub struct PageTable<S> {
    base: u64,
    l2: Vec<u64>,
    l3: Vec<u64>,
    _space: core::marker::PhantomData<S>,
}

impl<S: AddressSpace> PageTable<S> {
    /// Physical address of the table's backing storage.
    pub closed spec fn spec_base(self) -> u64 {
        self.base
    }

    /// The eight top-level descriptors.
    pub closed spec fn spec_l2(self) -> Seq<u64> {
        self.l2@
    }

    /// The flat sequence of all 65536 leaf descriptors.
    pub closed spec fn spec_l3(self) -> Seq<u64> {
        self.l3@
    }

    /// Shape of a built table: descriptor counts and an aligned base
    /// whose nine backing pages fit the physical window.
    pub open spec fn wf(self) -> bool {
        &&& self.spec_l2().len() == 8
        &&& self.spec_l3().len() == 0x1_0000
        &&& self.spec_base() % 0x1_0000 == 0
        &&& self.spec_base() + 0x9_0000 <= 0x1_0000_0000
    }

    /// An empty table backed by the nine pages starting at `base`.
    pub fn new(base: Phys) -> (r: Self)
        requires
            base@ % 0x1_0000 == 0,
            base@ + 0x9_0000 <= 0x1_0000_0000,
        ensures
            r.wf(),
            r.spec_base() == base@,
            forall|j: int| 0 <= j < 8 ==> r.spec_l2()[j] == 0,
            forall|j: int| 0 <= j < 0x1_0000 ==> r.spec_l3()[j] == 0,
    {
        let mut l2: Vec<u64> = Vec::new();
        let mut k: usize = 0;
        while k < 8
            invariant
                0 <= k <= 8,
                l2@.len() == k,
                forall|j: int| 0 <= j < k ==> l2@[j] == 0u64,
            decreases 8 - k,
        {
            l2.push(0);
            k += 1;
        }
        let mut l3: Vec<u64> = Vec::new();
        let mut k3: usize = 0;
        while k3 < 0x1_0000
            invariant
                0 <= k3 <= 0x1_0000,
                l3@.len() == k3,
                forall|j: int| 0 <= j < k3 ==> l3@[j] == 0u64,
            decreases 0x1_0000 - k3,
        {
            l3.push(0);
            k3 += 1;
        }
        PageTable { base: base.value(), l2, l3, _space: core::marker::PhantomData }
    }

    /// The read-write, non-executable attributes of the table's own
    /// self-mapping.
    pub open spec fn spec_self_attr() -> Attr {
        Attr::Normal { read: true, write: true, execute: false }
    }

    /// True when leaf slot `j` is one that [`PageTable::init`] fills:
    /// a slot of the translated device MMIO window, or, for a
    /// translated (non-identity) table, a slot of the table's own nine
    /// backing pages.
    pub open spec fn spec_init_covered(base: u64, offset: u64, j: int) -> bool {
        ||| exists|p: u64|
            MMIO_BASE <= p < MMIO_END && p % 0x1_0000 == 0 && j == #[trigger] spec_index(
                (p + offset) as u64,
            )
        ||| (offset != 0 && exists|k: int|
            0 <= k < 9 && j == #[trigger] spec_index((base + k * 0x1_0000 + offset) as u64))
    }

    /// Populate a freshly built table: link every top-level slot to
    /// its leaf array, map the device MMIO window as device memory at
    /// `offset`, and — only for a translated table — map the table's
    /// own backing pages read-write so the running code can still
    /// address it after the translation switch. Runs exactly once per
    /// table, before any [`PageTable::map`] call. A translated table
    /// must not back itself inside the MMIO window.
    pub fn init(&mut self, offset: u64)
        requires
            old(self).wf(),
            forall|j: int| 0 <= j < 0x1_0000 ==> old(self).spec_l3()[j] == 0,
            offset % 0x1_0000 == 0,
            offset <= 0xFFFF_FFFF_0000_0000,
            forall|p: u64| p < 0x1_0000_0000 ==> S::spec_valid(#[trigger] ((p + offset) as u64)),
            offset != 0 ==> old(self).spec_base() + 0x9_0000 <= MMIO_BASE || old(
                self,
            ).spec_base() >= MMIO_END,
        ensures
            final(self).wf(),
            final(self).spec_base() == old(self).spec_base(),
            forall|i: int|
                0 <= i < 8 ==> final(self).spec_l2()[i] == spec_table_descriptor(
                    (old(self).spec_base() + i * 0x1_0000) as u64,
                ),
            forall|p: u64|
                MMIO_BASE <= p < MMIO_END && p % 0x1_0000 == 0 ==> final(self).spec_l3()[
                    #[trigger] spec_index((p + offset) as u64)] == spec_descriptor(
                    p,
                    Attr::Device,
                ),
            offset != 0 ==> forall|k: int|
                0 <= k < 9 ==> final(self).spec_l3()[#[trigger] spec_index(
                    (old(self).spec_base() + k * 0x1_0000 + offset) as u64,
                )] == spec_descriptor(
                    (old(self).spec_base() + k * 0x1_0000) as u64,
                    Self::spec_self_attr(),
                ),
            forall|j: int|
                0 <= j < 0x1_0000 && !Self::spec_init_covered(old(self).spec_base(), offset, j)
                    ==> final(self).spec_l3()[j] == 0,
    {
        let ghost base = self.base;
        // Link each top-level slot to its leaf array.
        let mut i: usize = 0;
        while i < 8
            invariant
                0 <= i <= 8,
                self.wf(),
                self.spec_base() == base,
                self.spec_l3() == old(self).spec_l3(),
                forall|j: int|
                    0 <= j < i ==> self.spec_l2()[j] == spec_table_descriptor(
                        (base + j * 0x1_0000) as u64,
                    ),
            decreases 8 - i,
        {
            let addr = self.base + (i as u64) * 0x1_0000;
            self.l2.set(i, ((addr >> 16) << 16) | 0x3u64);
            i += 1;
        }

        // Map the device MMIO window.
        let mut p: u64 = MMIO_BASE;
        while p < MMIO_END
            invariant
                MMIO_BASE <= p <= MMIO_END,
                p % 0x1_0000 == 0,
                offset % 0x1_0000 == 0,
                offset <= 0xFFFF_FFFF_0000_0000,
                forall|q: u64|
                    q < 0x1_0000_0000 ==> S::spec_valid(#[trigger] ((q + offset) as u64)),
                self.wf(),
                self.spec_base() == base,
                forall|j: int|
                    0 <= j < 8 ==> self.spec_l2()[j] == spec_table_descriptor(
                        (base + j * 0x1_0000) as u64,
                    ),
                forall|q: u64|
                    MMIO_BASE <= q < p && q % 0x1_0000 == 0 ==> self.spec_l3()[
                        #[trigger] spec_index((q + offset) as u64)] == spec_descriptor(
                        q,
                        Attr::Device,
                    ),
                forall|j: int|
                    0 <= j < 0x1_0000 && self.spec_l3()[j] != 0 ==> exists|q: u64|
                        MMIO_BASE <= q < p && q % 0x1_0000 == 0 && j == #[trigger] spec_index(
                            (q + offset) as u64,
                        ),
            decreases MMIO_END - p,
        {
            let ghost prev = *self;
            let virt = Virt::<S>::new(p + offset);
            self.map(virt, Phys::new(p), Attr::Device);
            proof {
                let idx = spec_index((p + offset) as u64);
                lemma_index_range((p + offset) as u64);
                assert(p + offset <= u64::MAX);
                assert(virt@ == (p + offset) as u64);
                assert(self.spec_l3() == prev.spec_l3().update(
                    idx,
                    spec_descriptor(p, Attr::Device),
                ));
                assert forall|q: u64|
                    MMIO_BASE <= q < p + 0x1_0000 && q % 0x1_0000 == 0 implies self.spec_l3()[
                    #[trigger] spec_index((q + offset) as u64)] == spec_descriptor(
                    q,
                    Attr::Device,
                ) by {
                    lemma_index_range((q + offset) as u64);
                    if q < p {
                        lemma_index_injective(q, p, offset);
                    } else {
                        assert(q == p) by (nonlinear_arith)
                            requires
                                p % 0x1_0000 == 0,
                                q % 0x1_0000 == 0,
                                p <= q < p + 0x1_0000,
                        ;
                    }
                }
                assert forall|j: int|
                    0 <= j < 0x1_0000 && self.spec_l3()[j] != 0 implies exists|q: u64|
                    MMIO_BASE <= q < p + 0x1_0000 && q % 0x1_0000 == 0 && j
                        == #[trigger] spec_index((q + offset) as u64) by {
                    lemma_index_range((p + offset) as u64);
                    if j == idx {
                        assert(MMIO_BASE <= p < p + 0x1_0000 && p % 0x1_0000 == 0 && j
                            == spec_index((p + offset) as u64));
                    } else {
                        assert(prev.spec_l3()[j] != 0);
                    }
                }
            }
            p = p + 0x1_0000;
        }

        // A translated table maps its own backing storage so the
        // running code can keep addressing it after the switch.
        if offset != 0 {
            let mut k: u64 = 0;
            while k < 9
                invariant
                    0 <= k <= 9,
                    offset != 0,
                    offset % 0x1_0000 == 0,
                    offset <= 0xFFFF_FFFF_0000_0000,
                    base % 0x1_0000 == 0,
                    base + 0x9_0000 <= MMIO_BASE || base >= MMIO_END,
                    forall|q: u64|
                        q < 0x1_0000_0000 ==> S::spec_valid(#[trigger] ((q + offset) as u64)),
                    self.wf(),
                    self.spec_base() == base,
                    forall|j: int|
                        0 <= j < 8 ==> self.spec_l2()[j] == spec_table_descriptor(
                            (base + j * 0x1_0000) as u64,
                        ),
                    forall|q: u64|
                        MMIO_BASE <= q < MMIO_END && q % 0x1_0000 == 0 ==> self.spec_l3()[
                            #[trigger] spec_index((q + offset) as u64)] == spec_descriptor(
                            q,
                            Attr::Device,
                        ),
                    forall|m: int|
                        0 <= m < k ==> self.spec_l3()[#[trigger] spec_index(
                            (base + m * 0x1_0000 + offset) as u64,
                        )] == spec_descriptor(
                            (base + m * 0x1_0000) as u64,
                            Self::spec_self_attr(),
                        ),
                    forall|j: int|
                        0 <= j < 0x1_0000 && !Self::spec_init_covered(base, offset, j)
                            ==> self.spec_l3()[j] == 0,
                decreases 9 - k,
            {
                let ghost prev = *self;
                let phys = self.base + k * 0x1_0000;
                let virt = Virt::<S>::new(phys + offset);
                self.map(
                    virt,
                    Phys::new(phys),
                    Attr::Normal { read: true, write: true, execute: false },
                );
                proof {
                    let idx = spec_index((phys + offset) as u64);
                    lemma_index_range((phys + offset) as u64);
                    assert(virt@ == (phys + offset) as u64);
                    assert(phys == base + k * 0x1_0000);
                    assert(self.spec_l3() == prev.spec_l3().update(
                        idx,
                        spec_descriptor(phys, Self::spec_self_attr()),
                    ));
                    assert(phys % 0x1_0000 == 0) by (nonlinear_arith)
                        requires
                            base % 0x1_0000 == 0,
                            phys == base + k * 0x1_0000,
                            0 <= k < 9,
                    ;
                    assert forall|q: u64|
                        MMIO_BASE <= q < MMIO_END && q % 0x1_0000 == 0 implies self.spec_l3()[
                        #[trigger] spec_index((q + offset) as u64)] == spec_descriptor(
                        q,
                        Attr::Device,
                    ) by {
                        lemma_index_range((q + offset) as u64);
                        assert(phys <= base + 0x8_0000);
                        assert(q != phys);
                        lemma_index_injective(q, phys, offset);
                    }
                    assert forall|m: int|
                        0 <= m < k + 1 implies self.spec_l3()[#[trigger] spec_index(
                        (base + m * 0x1_0000 + offset) as u64,
                    )] == spec_descriptor(
                        (base + m * 0x1_0000) as u64,
                        Self::spec_self_attr(),
                    ) by {
                        lemma_index_range((base + m * 0x1_0000 + offset) as u64);
                        if m < k {
                            let q = (base + m * 0x1_0000) as u64;
                            assert(q % 0x1_0000 == 0 && q < 0x1_0000_0000) by (nonlinear_arith)
                                requires
                                    base % 0x1_0000 == 0,
                                    base + 0x9_0000 <= 0x1_0000_0000,
                                    q == base + m * 0x1_0000,
                                    0 <= m < 9,
                            ;
                            lemma_index_injective(q, phys, offset);
                        } else {
                            assert(m == k);
                            assert((base + m * 0x1_0000 + offset) as u64 == virt@);
                        }
                    }
                    assert(Self::spec_init_covered(base, offset, idx)) by {
                        assert(0 <= k < 9 && idx == spec_index(
                            (base + (k as int) * 0x1_0000 + offset) as u64,
                        ));
                    }
                }
                k = k + 1;
            }
        } else {
            proof {
                assert forall|j: int|
                    0 <= j < 0x1_0000 && !Self::spec_init_covered(base, offset, j) implies
                    self.spec_l3()[j] == 0 by {
                    if self.spec_l3()[j] != 0 {
                        assert(Self::spec_init_covered(base, offset, j));
                    }
                }
            }
        }
    }

    /// Install one leaf mapping from `virt` to the page of `phys`.
    pub fn map(&mut self, virt: Virt<S>, phys: Phys, attr: Attr)
        requires
            old(self).wf(),
            attr.wf(),
            phys.wf(),
        ensures
            final(self).wf(),
            final(self).spec_base() == old(self).spec_base(),
            final(self).spec_l2() == old(self).spec_l2(),
            final(self).spec_l3() == old(self).spec_l3().update(
                spec_index(virt@),
                spec_descriptor(phys@, attr),
            ),
    {
        let v = virt.value();
        let index_l2 = (v >> 29) & 0x7;
        let index_l3 = (v >> 16) & 0x1FFF;
        assert(index_l2 < 8 && index_l3 < 8192 && index_l2 * 8192 + index_l3 == ((v >> 16)
            & 0xFFFF)) by (bit_vector)
            requires
                index_l2 == (v >> 29) & 0x7,
                index_l3 == (v >> 16) & 0x1FFF,
        ;
        let index = (index_l2 * 8192 + index_l3) as usize;
        let desc = Self::descriptor(phys.value(), attr);
        self.l3.set(index, desc);
    }

    /// The leaf descriptor currently installed for `virt` (zero when
    /// nothing was mapped there).
    pub fn lookup(&self, virt: Virt<S>) -> (r: u64)
        requires
            self.wf(),
        ensures
            r == self.spec_l3()[spec_index(virt@)],
    {
        let v = virt.value();
        let index_l2 = (v >> 29) & 0x7;
        let index_l3 = (v >> 16) & 0x1FFF;
        assert(index_l2 < 8 && index_l3 < 8192 && index_l2 * 8192 + index_l3 == ((v >> 16)
            & 0xFFFF)) by (bit_vector)
            requires
                index_l2 == (v >> 29) & 0x7,
                index_l3 == (v >> 16) & 0x1FFF,
        ;
        self.l3[(index_l2 * 8192 + index_l3) as usize]
    }

    /// Build the leaf descriptor for `phys` under `attr`.
    fn descriptor(phys: u64, attr: Attr) -> (r: u64)
        ensures
            r == spec_descriptor(phys, attr),
    {
        match attr {
            Attr::Device => ((phys >> 16) << 16) | 0x403u64 | (0x2u64 << 8) | (0x3u64 << 53),
            Attr::Normal { read, write, execute } => {
                let xbit: u64 = if execute {
                    0u64
                } else {
                    0x1u64 << 53
                };
                let wbit: u64 = if write {
                    0x0u64
                } else {
                    0x2u64 << 6
                };
                ((phys >> 16) << 16) | 0x403u64 | (0x3u64 << 8) | (0x1u64 << 2) | (0x1u64 << 54)
                    | xbit | wbit
            },
        }
    }

    /// The eight top-level descriptors, for installing the table.
    pub fn l2_entry(&self, index: usize) -> (r: u64)
        requires
            self.wf(),
            index < 8,
        ensures
            r == self.spec_l2()[index as int],
    {
        self.l2[index]
    }
}

} // verus!
