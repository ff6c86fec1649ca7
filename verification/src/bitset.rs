//! A bitmap over machine words.
//!
//! The page allocator tracks one bit per physical page: bit `i` set
//! means page `i` is in use, clear means it is free. The search for
//! the lowest clear bit uses the word-at-a-time trailing-ones trick.

use vstd::prelude::*;
use vstd::std_specs::bits::u64_trailing_ones;
use vstd::std_specs::bits::axiom_u64_trailing_ones;

verus! {

/// True when bit `j` of `w` is set.
pub open spec fn nth_bit(w: u64, j: int) -> bool {
    (w >> j) & 1 == 1
}

/// Number of set bits of `w` among bit positions `[0, n)`.
pub open spec fn spec_popcount(w: u64, n: int) -> nat
    decreases n,
{
    if n <= 0 {
        0
    } else {
        spec_popcount(w, n - 1) + if nth_bit(w, n - 1) {
            1nat
        } else {
            0nat
        }
    }
}

/// Bit `k` of `w | 1 << j` is set exactly when `k == j` or it was set in `w`.
proof fn lemma_bit_or(w: u64, j: u64, k: u64)
    requires
        j < 64,
        k < 64,
    ensures
        nth_bit(w | (1u64 << j), k as int) == (k == j || nth_bit(w, k as int)),
{
    assert(((w | (1u64 << j)) >> k) & 1 == if k == j {
        1u64
    } else {
        (w >> k) & 1
    }) by (bit_vector)
        requires
            j < 64,
            k < 64,
    ;
    assert((w >> k) & 1 == 0 || (w >> k) & 1 == 1) by (bit_vector);
}

/// Bit `k` of `w & !(1 << j)` is set exactly when `k != j` and it was set in `w`.
proof fn lemma_bit_and_not(w: u64, j: u64, k: u64)
    requires
        j < 64,
        k < 64,
    ensures
        nth_bit(w & !(1u64 << j), k as int) == (k != j && nth_bit(w, k as int)),
{
    assert(((w & !(1u64 << j)) >> k) & 1 == if k == j {
        0u64
    } else {
        (w >> k) & 1
    }) by (bit_vector)
        requires
            j < 64,
            k < 64,
    ;
    assert((w >> k) & 1 == 0 || (w >> k) & 1 == 1) by (bit_vector);
}

/// Every bit position below the trailing-ones count of `w` is set in `w`.
proof fn lemma_ones_below(w: u64, j: u64, k: u64)
    requires
        j <= 64,
        k < j,
        ((!w) << ((64 - j) as u64)) == 0,
    ensures
        nth_bit(w, k as int),
{
    let m: u64 = (64 - j) as u64;
    assert((w >> k) & 1 == 1) by (bit_vector)
        requires
            m + j == 64,
            j <= 64,
            k < j,
            ((!w) << m) == 0,
    ;
}

/// A word with no set bits contributes nothing to a population count.
proof fn lemma_popcount_zero(n: int)
    requires
        0 <= n <= 64,
    ensures
        spec_popcount(0u64, n) == 0,
    decreases n,
{
    if n > 0 {
        lemma_popcount_zero(n - 1);
        let j = (n - 1) as u64;
        assert((0u64 >> j) & 1 == 0) by (bit_vector);
    }
}

/// A growable bitmap; the name mirrors the fixed-capacity variant a
/// freestanding build would lay over raw memory.
pub struct Unsized {
    words: Vec<u64>,
}

impl View for Unsized {
    type V = Seq<u64>;

    closed spec fn view(&self) -> Seq<u64> {
        self.words@
    }
}

impl Unsized {
    /// True when bit `i` of the map is set.
    pub open spec fn spec_bit(self, i: int) -> bool {
        nth_bit(self@[i / 64], i % 64)
    }

    /// Number of bits the map tracks.
    pub open spec fn capacity(self) -> int {
        self@.len() as int * 64
    }

    /// Number of set bits in words `[0, n)`.
    pub open spec fn spec_count_words(self, n: int) -> nat
        decreases n,
    {
        if n <= 0 {
            0
        } else {
            self.spec_count_words(n - 1) + spec_popcount(self@[n - 1], 64)
        }
    }

    /// A map of `len` words, all bits clear.
    pub fn new(len: usize) -> (r: Self)
        requires
            len <= usize::MAX / 64,
        ensures
            r.capacity() == len * 64,
            forall|i: int| 0 <= i < r.capacity() ==> !r.spec_bit(i),
            r.spec_count_words(r@.len() as int) == 0,
    {
        let mut words: Vec<u64> = Vec::new();
        let mut k: usize = 0;
        while k < len
            invariant
                0 <= k <= len,
                words@.len() == k,
                forall|w: int| 0 <= w < k ==> words@[w] == 0u64,
            decreases len - k,
        {
            words.push(0);
            k += 1;
        }
        let r = Unsized { words };
        assert forall|i: int| 0 <= i < r.capacity() implies !r.spec_bit(i) by {
            assert(r.words@[i / 64] == 0u64);
            let j = (i % 64) as u64;
            assert((0u64 >> j) & 1 == 0) by (bit_vector);
        }
        proof {
            r.lemma_count_zero(r@.len() as int);
        }
        r
    }

    /// A map whose words are all zero counts no set bits.
    proof fn lemma_count_zero(self, n: int)
        requires
            0 <= n <= self@.len(),
            forall|w: int| 0 <= w < self@.len() ==> self@[w] == 0u64,
        ensures
            self.spec_count_words(n) == 0,
        decreases n,
    {
        if n > 0 {
            self.lemma_count_zero(n - 1);
            lemma_popcount_zero(64);
        }
    }

    /// Clear every bit.
    pub fn clear(&mut self)
        ensures
            final(self).capacity() == old(self).capacity(),
            forall|i: int| 0 <= i < final(self).capacity() ==> !final(self).spec_bit(i),
            final(self).spec_count_words(final(self)@.len() as int) == 0,
    {
        let len = self.words.len();
        let mut k: usize = 0;
        while k < len
            invariant
                0 <= k <= len,
                self.words@.len() == len,
                forall|w: int| 0 <= w < k ==> self.words@[w] == 0u64,
            decreases len - k,
        {
            self.words.set(k, 0);
            k += 1;
        }
        assert forall|i: int| 0 <= i < self.capacity() implies !self.spec_bit(i) by {
            assert(self.words@[i / 64] == 0u64);
            let j = (i % 64) as u64;
            assert((0u64 >> j) & 1 == 0) by (bit_vector);
        }
        proof {
            self.lemma_count_zero(self@.len() as int);
        }
    }

    /// True when bit `index` is set.
    pub fn get(&self, index: usize) -> (r: bool)
        requires
            index < self.capacity(),
    ensures
            r == self.spec_bit(index as int),
    {
        let w = self.words[index / 64];
        (w >> ((index % 64) as u64)) & 1 == 1
    }

    /// Set bit `index`; every other bit keeps its value.
    pub fn set(&mut self, index: usize)
        requires
            index < old(self).capacity(),
        ensures
            final(self).capacity() == old(self).capacity(),
            final(self).spec_bit(index as int),
            forall|i: int|
                0 <= i < final(self).capacity() && i != index ==> final(self).spec_bit(i) == old(
                    self,
                ).spec_bit(i),
    {
        let wi = index / 64;
        let bj = (index % 64) as u64;
        let w = self.words[wi];
        self.words.set(wi, w | (1u64 << bj));
        proof {
            lemma_bit_or(w, bj, bj);
            assert forall|i: int|
                0 <= i < self.capacity() && i != index implies self.spec_bit(i) == old(
                self,
            ).spec_bit(i) by {
                if i / 64 == wi as int {
                    lemma_bit_or(w, bj, (i % 64) as u64);
                }
            }
        }
    }

    /// Clear bit `index`; every other bit keeps its value.
    pub fn unset(&mut self, index: usize)
        requires
            index < old(self).capacity(),
        ensures
            final(self).capacity() == old(self).capacity(),
            !final(self).spec_bit(index as int),
            forall|i: int|
                0 <= i < final(self).capacity() && i != index ==> final(self).spec_bit(i) == old(
                    self,
                ).spec_bit(i),
    {
        let wi = index / 64;
        let bj = (index % 64) as u64;
        let w = self.words[wi];
        self.words.set(wi, w & !(1u64 << bj));
        proof {
            lemma_bit_and_not(w, bj, bj);
            assert forall|i: int|
                0 <= i < self.capacity() && i != index implies self.spec_bit(i) == old(
                self,
            ).spec_bit(i) by {
                if i / 64 == wi as int {
                    lemma_bit_and_not(w, bj, (i % 64) as u64);
                }
            }
        }
    }

    /// Position of the lowest clear bit, or `None` when every bit is set.
    pub fn peek(&self) -> (r: Option<usize>)
        requires
            self@.len() <= usize::MAX / 64,
        ensures
            match r {
                Some(i) => i < self.capacity() && !self.spec_bit(i as int) && forall|k: int|
                    0 <= k < i ==> self.spec_bit(k),
                None => forall|i: int| 0 <= i < self.capacity() ==> self.spec_bit(i),
            },
    {
        let len = self.words.len();
        let mut wi: usize = 0;
        while wi < len
            invariant
                0 <= wi <= len,
                self.words@.len() == len,
                len <= usize::MAX / 64,
                forall|k: int| 0 <= k < wi * 64 ==> self.spec_bit(k),
            decreases len - wi,
        {
            let w = self.words[wi];
            if w != u64::MAX {
                let j = w.trailing_ones() as usize;
                proof {
                    axiom_u64_trailing_ones(w);
                }
                assert(j < 64);
                let i = wi * 64 + j;
                proof {
                    let jj = u64_trailing_ones(w);
                    assert(nth_bit(w, j as int) == false) by {
                        assert((w >> jj as u64) & 1 == 0);
                        assert((w >> jj as u64) & 1 == 0 ==> ((w >> jj as u64) & 1 == 1) == false)
                            by (bit_vector);
                    }
                    assert(i / 64 == wi as int && i % 64 == j as int) by (nonlinear_arith)
                        requires
                            i == wi * 64 + j,
                            0 <= j < 64,
                            wi >= 0,
                    ;
                    assert forall|k: int| 0 <= k < i implies self.spec_bit(k) by {
                        if k < wi * 64 {
                        } else {
                            assert(k / 64 == wi as int && k % 64 < j) by (nonlinear_arith)
                                requires
                                    wi * 64 <= k < wi * 64 + j,
                                    0 <= j < 64,
                                    wi >= 0,
                            ;
                            lemma_ones_below(w, jj as u64, (k % 64) as u64);
                        }
                    }
                }
                return Some(i);
            }
            proof {
                axiom_u64_trailing_ones(w);
                assert forall|k: int| wi * 64 <= k < (wi + 1) * 64 implies self.spec_bit(k) by {
                    assert(k / 64 == wi as int && 0 <= k % 64 < 64) by (nonlinear_arith)
                        requires
                            wi * 64 <= k < (wi + 1) * 64,
                            wi >= 0,
                    ;
                    lemma_ones_below(w, 64, (k % 64) as u64);
                }
            }
            wi += 1;
        }
        assert(forall|i: int|
            0 <= i < self.capacity() ==> self.spec_bit(i)) by {
            assert(wi * 64 == self.capacity());
        }
        None
    }

    /// Number of set bits in the whole map.
    pub fn count(&self) -> (r: usize)
        requires
            self.capacity() <= usize::MAX,
        ensures
            r == self.spec_count_words(self@.len() as int),
    {
        let len = self.words.len();
        let mut total: usize = 0;
        let mut wi: usize = 0;
        while wi < len
            invariant
                0 <= wi <= len,
                self.words@.len() == len,
                len * 64 <= usize::MAX,
                total == self.spec_count_words(wi as int),
                total <= wi * 64,
            decreases len - wi,
        {
            let w = self.words[wi];
            let mut j: usize = 0;
            let mut c: usize = 0;
            while j < 64
                invariant
                    0 <= j <= 64,
                    c == spec_popcount(w, j as int),
                    c <= j,
                decreases 64 - j,
            {
                if (w >> (j as u64)) & 1 == 1 {
                    c += 1;
                }
                j += 1;
            }
            proof {
                assert((wi + 1) * 64 <= len * 64) by (nonlinear_arith)
                    requires
                        wi + 1 <= len,
                ;
                assert(wi * 64 + 64 == (wi + 1) * 64) by (nonlinear_arith);
            }
            total += c;
            wi += 1;
        }
        total
    }
}

} // verus!
