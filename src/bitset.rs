//! Fixed-capacity bit array tracking which physical frames are in use.
use vstd::prelude::*;

verus! {

/// Number of set flags in a sequence.
pub open spec fn count_used(s: Seq<bool>) -> nat
    decreases s.len(),
{
    if s.len() == 0 {
        0
    } else {
        count_used(s.drop_last()) + if s.last() {
            1nat
        } else {
            0nat
        }
    }
}

/// `r` is what a lowest-first search for a clear flag returns on `s`:
/// the index of the first clear flag, or nothing when every flag is set.
pub open spec fn is_first_unset(s: Seq<bool>, r: Option<usize>) -> bool {
    match r {
        Some(i) => i < s.len() && !s[i as int] && forall|j: int| 0 <= j < i ==> s[j],
        None => forall|j: int| 0 <= j < s.len() ==> s[j],
    }
}

/// The count of set flags never exceeds the length.
pub proof fn lemma_count_bounded(s: Seq<bool>)
    ensures
        count_used(s) <= s.len(),
    decreases s.len(),
{
    if s.len() > 0 {
        lemma_count_bounded(s.drop_last());
    }
}

/// A sequence of clear flags has no set flag.
pub proof fn lemma_count_all_clear(n: nat)
    ensures
        count_used(Seq::new(n, |i: int| false)) == 0,
    decreases n,
{
    if n > 0 {
        let s = Seq::new(n, |i: int| false);
        assert(s.drop_last() =~= Seq::new((n - 1) as nat, |i: int| false));
        lemma_count_all_clear((n - 1) as nat);
    }
}

/// Every flag is set exactly when the count reaches the length.
pub proof fn lemma_count_full(s: Seq<bool>)
    ensures
        count_used(s) == s.len() <==> forall|j: int| 0 <= j < s.len() ==> s[j],
    decreases s.len(),
{
    if s.len() > 0 {
        let t = s.drop_last();
        lemma_count_full(t);
        lemma_count_bounded(t);
        if forall|j: int| 0 <= j < s.len() ==> s[j] {
            assert forall|j: int| 0 <= j < t.len() implies t[j] by {
                assert(s[j]);
            }
        }
        if count_used(s) == s.len() {
            assert forall|j: int| 0 <= j < s.len() implies s[j] by {
                if j < t.len() {
                    assert(t[j] == s[j]);
                }
            }
        }
    }
}

/// Changing one flag changes the count by the difference at that place.
pub proof fn lemma_count_update(s: Seq<bool>, i: int, b: bool)
    requires
        0 <= i < s.len(),
    ensures
        count_used(s.update(i, b)) + (if s[i] {
            1int
        } else {
            0int
        }) == count_used(s) + (if b {
            1int
        } else {
            0int
        }),
    decreases s.len(),
{
    let u = s.update(i, b);
    if i == s.len() - 1 {
        assert(u.drop_last() =~= s.drop_last());
    } else {
        assert(u.drop_last() =~= s.drop_last().update(i, b));
        lemma_count_update(s.drop_last(), i, b);
    }
}

proof fn lemma_bit_or(x: u32, b: u32, c: u32)
    requires
        b < 32,
        c < 32,
    ensures
        ((x | (1u32 << b)) >> b) & 1 == 1,
        c != b ==> ((x | (1u32 << b)) >> c) & 1 == (x >> c) & 1,
        ((x & !(1u32 << b)) >> b) & 1 == 0,
        c != b ==> ((x & !(1u32 << b)) >> c) & 1 == (x >> c) & 1,
{
    assert(((x | (1u32 << b)) >> b) & 1 == 1) by (bit_vector)
        requires b < 32;
    assert(c != b ==> ((x | (1u32 << b)) >> c) & 1 == (x >> c) & 1) by (bit_vector)
        requires b < 32, c < 32;
    assert(((x & !(1u32 << b)) >> b) & 1 == 0) by (bit_vector)
        requires b < 32;
    assert(c != b ==> ((x & !(1u32 << b)) >> c) & 1 == (x >> c) & 1) by (bit_vector)
        requires b < 32, c < 32;
}

/// Dense bit array with one bit per physical frame; a set bit marks a frame
/// in use. `bits_used` counts the set bits.
pub struct BitSet {
    /// Storage, 32 bits to a word, lowest index in the lowest bit.
    pub words: Vec<u32>,
    /// Number of bits.
    pub size: usize,
    /// Number of set bits.
    pub bits_used: usize,
}

/// Whether bit `i` of the storage is set.
pub open spec fn bit_of(words: Seq<u32>, i: int) -> bool {
    (words[i / 32] >> ((i % 32) as u32)) & 1 == 1
}

impl BitSet {
    /// The flags, one per bit, in index order.
    pub open spec fn view(&self) -> Seq<bool> {
        Seq::new(self.size as nat, |i: int| bit_of(self.words@, i))
    }

    /// Storage covers every bit and the counter matches the set bits.
    pub open spec fn wf(&self) -> bool {
        &&& self.words@.len() * 32 >= self.size
        &&& self.bits_used == count_used(self@)
    }

    /// Creates a set of `size` bits, all clear.
    pub fn new(size: usize) -> (r: Self)
        ensures
            r.wf(),
            r@ == Seq::new(size as nat, |i: int| false),
            r@.len() == size,
            forall|i: int| 0 <= i < size ==> !#[trigger] r@[i],
            r.size == size,
            r.bits_used == 0,
    {
        let n: usize = size / 32 + if size % 32 == 0 {
            0usize
        } else {
            1usize
        };
        let mut words: Vec<u32> = Vec::new();
        let mut k: usize = 0;
        while k < n
            invariant
                k <= n,
                words@.len() == k,
                forall|j: int| 0 <= j < k ==> words@[j] == 0,
            decreases n - k,
        {
            words.push(0);
            k = k + 1;
        }
        let r = BitSet { words, size, bits_used: 0 };
        assert forall|i: int| 0 <= i < size implies !bit_of(r.words@, i) by {
            let w = r.words@[i / 32];
            let b = (i % 32) as u32;
            assert(w == 0);
            assert((0u32 >> b) & 1 == 0) by (bit_vector);
        }
        assert(r@ =~= Seq::new(size as nat, |i: int| false));
        proof {
            lemma_count_all_clear(size as nat);
        }
        r
    }

    /// Whether bit `idx` is set.
    pub fn test(&self, idx: usize) -> (r: bool)
        requires
            self.wf(),
            idx < self.size,
        ensures
            r == self@[idx as int],
    {
        (self.words[idx / 32] >> ((idx % 32) as u32)) & 1 == 1
    }

    /// Index of the lowest clear bit, or nothing when every bit is set.
    pub fn first_unset(&self) -> (r: Option<usize>)
        requires
            self.wf(),
        ensures
            is_first_unset(self@, r),
    {
        let mut i: usize = 0;
        while i < self.size
            invariant
                self.wf(),
                i <= self.size,
                forall|j: int| 0 <= j < i ==> self@[j],
            decreases self.size - i,
        {
            if !self.test(i) {
                return Some(i);
            }
            i = i + 1;
        }
        None
    }

    /// Marks bit `idx` as set.
    pub fn set(&mut self, idx: usize)
        requires
            old(self).wf(),
            idx < old(self).size,
        ensures
            final(self).wf(),
            final(self).size == old(self).size,
            final(self)@ == old(self)@.update(idx as int, true),
            final(self).bits_used == old(self).bits_used + if old(self)@[idx as int] {
                0int
            } else {
                1int
            },
    {
        let was = self.test(idx);
        let ghost before = self@;
        let w = idx / 32;
        let b = (idx % 32) as u32;
        let x = self.words[w];
        self.words.set(w, x | (1u32 << b));
        assert forall|i: int| 0 <= i < self.size implies self@[i] == before.update(
            idx as int,
            true,
        )[i] by {
            lemma_bit_or(x, b, (i % 32) as u32);
        }
        assert(self@ =~= before.update(idx as int, true));
        proof {
            lemma_count_update(before, idx as int, true);
            lemma_count_bounded(self@);
        }
        if !was {
            self.bits_used = self.bits_used + 1;
        }
    }

    /// Marks bit `idx` as clear.
    pub fn clear(&mut self, idx: usize)
        requires
            old(self).wf(),
            idx < old(self).size,
        ensures
            final(self).wf(),
            final(self).size == old(self).size,
            final(self)@ == old(self)@.update(idx as int, false),
            final(self).bits_used == old(self).bits_used - if old(self)@[idx as int] {
                1int
            } else {
                0int
            },
    {
        let was = self.test(idx);
        let ghost before = self@;
        let w = idx / 32;
        let b = (idx % 32) as u32;
        let x = self.words[w];
        self.words.set(w, x & !(1u32 << b));
        assert forall|i: int| 0 <= i < self.size implies self@[i] == before.update(
            idx as int,
            false,
        )[i] by {
            lemma_bit_or(x, b, (i % 32) as u32);
        }
        assert(self@ =~= before.update(idx as int, false));
        proof {
            lemma_count_update(before, idx as int, false);
        }
        if was {
            self.bits_used = self.bits_used - 1;
        }
    }
}

/// Clearing a bit makes it available again: the lowest clear bit after the
/// clear exists and is no higher than the cleared one.
pub proof fn lemma_reuse_after_free(s: Seq<bool>, f: int, r: Option<usize>)
    requires
        0 <= f < s.len(),
        is_first_unset(s.update(f, false), r),
    ensures
        r is Some,
        r.unwrap() <= f,
        r.unwrap() == f <==> forall|j: int| 0 <= j < f ==> s[j],
{
    let t = s.update(f, false);
    assert(!t[f]);
    if r is Some {
        let i = r.unwrap() as int;
        if i > f {
            assert(t[f]);
        }
        if i == f {
            assert forall|j: int| 0 <= j < f implies s[j] by {
                assert(t[j]);
            }
        }
        if i < f {
            assert(!t[i]);
            assert(t[i] == s[i]);
        }
    }
}

} // verus!
