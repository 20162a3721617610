//! The map from object sizes to the slab allocators that serve them.
use vstd::prelude::*;
use vstd::string::StringSliceAdditionalSpecFns;
use crate::base::text::{is_utf8, utf8_valid};

verus! {

broadcast use {vstd::seq_lib::group_to_multiset_ensures, vstd::seq_lib::lemma_multiset_commutative};

/// The most slab allocators the map holds.
pub const NUM_ALLOCATORS: usize = 256;

/// A slab allocator: the handle by which the slab code knows it and the size
/// of the objects it hands out.
#[derive(Clone, Copy, Debug, PartialEq, Eq, Structural)]
pub struct SlabAllocator {
    pub handle: usize,
    pub size: u32,
}

impl SlabAllocator {
    /// The size of the objects this allocator hands out.
    pub fn get_size(&self) -> (r: u32)
        ensures
            r == self.size,
    {
        self.size
    }

    /// The allocator's name, from the bytes the slab code keeps for it: empty
    /// for none; the bytes themselves where they are UTF-8 text; else
    /// `ILLEGAL_NAME`.
    pub fn get_name(raw: &[u8]) -> (r: Vec<u8>)
        ensures
            raw@.len() == 0 ==> r@ == Seq::<u8>::empty(),
            raw@.len() > 0 && utf8_valid(raw@) ==> r@ == raw@,
            raw@.len() > 0 && !utf8_valid(raw@) ==> r@ == "ILLEGAL_NAME".spec_bytes(),
    {
        if raw.len() == 0 {
            Vec::new()
        } else if is_utf8(raw) {
            vstd::slice::slice_to_vec(raw)
        } else {
            vstd::slice::slice_to_vec("ILLEGAL_NAME".as_bytes())
        }
    }
}

/// No two allocators in `s` serve the same size.
pub open spec fn sizes_distinct(s: Seq<SlabAllocator>) -> bool {
    forall|i: int, j: int| 0 <= i < s.len() && 0 <= j < s.len() && i != j ==> s[i].size != s[j].size
}

/// The allocators in `s[lo..hi]` are in order of size.
pub open spec fn sorted_between(s: Seq<SlabAllocator>, lo: int, hi: int) -> bool {
    forall|i: int, j: int| lo <= i < j < hi ==> s[i].size <= s[j].size
}

/// The allocators in `s` are in strictly increasing order of size.
pub open spec fn strictly_sorted(s: Seq<SlabAllocator>) -> bool {
    forall|i: int, j: int| 0 <= i < j < s.len() ==> s[i].size < s[j].size
}

/// Some allocator in `s` serves objects of size `k`.
pub open spec fn has_size(s: Seq<SlabAllocator>, k: int) -> bool {
    exists|i: int| 0 <= i < s.len() && s[i].size == k
}

/// The allocators of a map in order, and the number of them.
pub struct SlabMap {
    vals: Vec<SlabAllocator>,
}

/// `s[i]` and `s[j]` exchanged.
pub open spec fn swapped(s: Seq<SlabAllocator>, i: int, j: int) -> Seq<SlabAllocator> {
    s.update(i, s[j]).update(j, s[i])
}

/// Exchanging two allocators inside `lo..hi` keeps the allocators held there.
proof fn lemma_swap_keeps_range(s: Seq<SlabAllocator>, i: int, j: int, lo: int, hi: int)
    requires
        0 <= lo <= i < hi <= s.len(),
        lo <= j < hi,
    ensures
        swapped(s, i, j).subrange(lo, hi).to_multiset() =~= s.subrange(lo, hi).to_multiset(),
        swapped(s, i, j).len() == s.len(),
{
    let t = s.subrange(lo, hi);
    let u = swapped(s, i, j).subrange(lo, hi);
    assert(u =~= t.update(i - lo, s[j]).update(j - lo, s[i]));
    let t1 = t.update(i - lo, s[j]);
    vstd::seq_lib::to_multiset_update(t, i - lo, s[j]);
    vstd::seq_lib::to_multiset_update(t1, j - lo, s[i]);
    if i == j {
        assert(t1 =~= t);
        assert(t1.update(j - lo, s[i]) =~= t);
    } else {
        assert(t1[j - lo] == s[j]);
        assert(t.to_multiset().count(s[j]) > 0) by {
            assert(t[j - lo] == s[j]);
        }
    }
}

/// Exchange `l[i]` and `l[j]`.
fn swap(l: &mut Vec<SlabAllocator>, i: usize, j: usize)
    requires
        i < old(l)@.len(),
        j < old(l)@.len(),
    ensures
        final(l)@ == swapped(old(l)@, i as int, j as int),
{
    let a = l[i];
    let b = l[j];
    l.set(i, b);
    l.set(j, a);
}

/// Sort `l[lo..hi]` by size (a quicksort that partitions around the last
/// element). The rest of `l` is left alone.
fn sort(l: &mut Vec<SlabAllocator>, lo: usize, hi: usize)
    requires
        lo <= hi <= old(l)@.len(),
    ensures
        final(l)@.len() == old(l)@.len(),
        sorted_between(final(l)@, lo as int, hi as int),
        final(l)@.subrange(lo as int, hi as int).to_multiset() == old(l)@.subrange(
            lo as int,
            hi as int,
        ).to_multiset(),
        forall|k: int| 0 <= k < lo || hi <= k < old(l)@.len() ==> final(l)@[k] == old(l)@[k],
    decreases hi - lo,
{
    if hi - lo < 2 || lo > hi {
        return;
    }
    let ghost s0 = l@;
    let pivot = hi - 1;
    let mut left = lo;
    let mut store = lo;
    let pval = l[pivot].size;
    while left <= pivot - 1
        invariant
            lo <= store <= left <= pivot,
            lo < pivot,
            pivot == hi - 1,
            hi <= l@.len(),
            l@.len() == s0.len(),
            l@[pivot as int] == s0[pivot as int],
            pval == s0[pivot as int].size,
            forall|k: int| lo <= k < store ==> (#[trigger] l@[k]).size < pval,
            forall|k: int| store <= k < left ==> (#[trigger] l@[k]).size >= pval,
            forall|k: int| 0 <= k < lo || hi <= k < l@.len() ==> l@[k] == s0[k],
            l@.subrange(lo as int, hi as int).to_multiset() == s0.subrange(lo as int, hi as int).to_multiset(),
        decreases pivot - left,
    {
        if l[left].size < pval {
            proof {
                lemma_swap_keeps_range(l@, left as int, store as int, lo as int, hi as int);
            }
            swap(l, left, store);
            store = store + 1;
        }
        left = left + 1;
    }
    proof {
        lemma_swap_keeps_range(l@, store as int, pivot as int, lo as int, hi as int);
    }
    swap(l, store, pivot);
    let ghost s1 = l@;
    assert(s1[store as int].size == pval);
    assert forall|k: int| lo <= k < store implies (#[trigger] s1[k]).size < pval by {}
    assert forall|k: int| store < k < hi implies (#[trigger] s1[k]).size >= pval by {}
    sort(l, lo, store);
    let ghost s2 = l@;
    proof {
        assert forall|k: int| lo <= k < store implies (#[trigger] s2[k]).size < pval by {
            let x = s2[k];
            assert(s2.subrange(lo as int, store as int)[k - lo] == x);
            assert(s2.subrange(lo as int, store as int).to_multiset().count(x) > 0);
            assert(s1.subrange(lo as int, store as int).to_multiset().count(x) > 0);
            let m = choose|m: int| 0 <= m < store - lo && s1.subrange(lo as int, store as int)[m] == x;
            assert(s1[lo + m] == x);
        }
    }
    sort(l, store + 1, hi);
    let ghost s3 = l@;
    proof {
        assert forall|k: int| store < k < hi implies (#[trigger] s3[k]).size >= pval by {
            let x = s3[k];
            assert(s3.subrange(store + 1, hi as int)[k - store - 1] == x);
            assert(s3.subrange(store + 1, hi as int).to_multiset().count(x) > 0);
            assert(s2.subrange(store + 1, hi as int).to_multiset().count(x) > 0);
            let sub = s2.subrange(store + 1, hi as int);
            let m = choose|m: int| 0 <= m < sub.len() && #[trigger] sub[m] == x;
            assert(s2[store + 1 + m] == x);
        }
        assert forall|k: int| lo <= k < store implies (#[trigger] s3[k]).size < pval by {
            assert(s3[k] == s2[k]);
        }
        assert(s3[store as int] == s1[store as int]);
        assert(sorted_between(s3, lo as int, hi as int)) by {
            assert forall|i: int, j: int| lo <= i < j < hi implies s3[i].size <= s3[j].size by {
                if j < store {
                    assert(s3[i] == s2[i] && s3[j] == s2[j]);
                } else if i > store {
                } else if i < store && j == store {
                } else if i < store && j > store {
                } else {
                }
            }
        }
        let a1 = s1.subrange(lo as int, store as int);
        let b1 = s1.subrange(store as int, store + 1);
        let c1 = s1.subrange(store + 1, hi as int);
        assert(s1.subrange(lo as int, hi as int) =~= a1 + b1 + c1);
        let a3 = s3.subrange(lo as int, store as int);
        let b3 = s3.subrange(store as int, store + 1);
        let c3 = s3.subrange(store + 1, hi as int);
        assert(s3.subrange(lo as int, hi as int) =~= a3 + b3 + c3);
        assert(a3 =~= s2.subrange(lo as int, store as int));
        assert(b3 =~= b1);
        assert(s2.subrange(store + 1, hi as int) =~= c1);
        assert((a3 + b3 + c3).to_multiset() =~= (a1 + b1 + c1).to_multiset());
    }
}

impl SlabMap {
    /// The allocators held, in order.
    pub closed spec fn view(&self) -> Seq<SlabAllocator> {
        self.vals@
    }

    /// At most `NUM_ALLOCATORS` allocators, no two for the same size.
    pub open spec fn wf(&self) -> bool {
        self@.len() <= NUM_ALLOCATORS && sizes_distinct(self@)
    }

    /// An empty map.
    pub fn new() -> (r: SlabMap)
        ensures
            r.wf(),
            r@ == Seq::<SlabAllocator>::empty(),
    {
        SlabMap { vals: Vec::new() }
    }

    /// Sort the allocators by size. Panics if two serve the same size or one
    /// serves size 0; the map never holds such allocators when none of size 0
    /// was added.
    pub fn finish(&mut self)
        requires
            old(self).wf(),
            forall|i: int| 0 <= i < old(self)@.len() ==> (#[trigger] old(self)@[i]).size > 0,
        ensures
            final(self).wf(),
            strictly_sorted(final(self)@),
            final(self)@.to_multiset() == old(self)@.to_multiset(),
    {
        let ghost s0 = self.vals@;
        let n = self.vals.len();
        sort(&mut self.vals, 0, n);
        proof {
            let s = self.vals@;
            assert(s.subrange(0, n as int) =~= s);
            assert(s0.subrange(0, n as int) =~= s0);
            assert(s0.no_duplicates()) by {
                assert forall|i: int, j: int| 0 <= i < s0.len() && 0 <= j < s0.len() && i != j
                    implies s0[i] != s0[j] by {
                    assert(s0[i].size != s0[j].size);
                }
            }
            s0.lemma_multiset_has_no_duplicates();
            s.lemma_multiset_has_no_duplicates_conv();
            assert forall|i: int, j: int| 0 <= i < s.len() && 0 <= j < s.len() && i != j implies s[i].size != s[j].size by {
                let x = s[i];
                let y = s[j];
                assert(s.to_multiset().count(x) > 0);
                assert(s.to_multiset().count(y) > 0);
                let mi = choose|m: int| 0 <= m < s0.len() && s0[m] == x;
                let mj = choose|m: int| 0 <= m < s0.len() && s0[m] == y;
                assert(x != y);
                assert(mi != mj);
            }
            assert forall|i: int| 0 <= i < s.len() implies (#[trigger] s[i]).size > 0 by {
                assert(s.to_multiset().count(s[i]) > 0);
            }
        }
    }

    /// Add the allocator `v`, unless the map is full or already has one for
    /// its size.
    pub fn add(&mut self, v: SlabAllocator)
        requires
            old(self).wf(),
        ensures
            final(self).wf(),
            final(self)@ == if old(self)@.len() == NUM_ALLOCATORS || has_size(old(self)@, v.size as int) {
                old(self)@
            } else {
                old(self)@.push(v)
            },
    {
        if self.vals.len() == NUM_ALLOCATORS {
        } else if !self.brute_check(v.size) {
            self.vals.push(v);
        }
    }

    /// Whether some allocator serves size `k`.
    fn brute_check(&self, k: u32) -> (r: bool)
        ensures
            r == has_size(self@, k as int),
    {
        let mut i: usize = 0;
        while i < self.vals.len()
            invariant
                i <= self@.len(),
                forall|j: int| 0 <= j < i ==> self@[j].size != k,
            decreases self@.len() - i,
        {
            if self.vals[i].size == k {
                return true;
            }
            i = i + 1;
        }
        false
    }

    /// The allocator for exactly size `key`, if any.
    pub fn find(&self, key: u32) -> (r: Option<SlabAllocator>)
        requires
            self.wf(),
        ensures
            r matches Some(a) ==> self@.contains(a) && a.size == key,
            strictly_sorted(self@) ==> (r is Some <==> has_size(self@, key as int)),
    {
        match self.find_smallest(key) {
            None => None,
            Some(sa) => if sa.size == key {
                Some(sa)
            } else {
                None
            },
        }
    }

    /// The allocator for the smallest size at least `key`, if any. This is
    /// exact once the map is sorted by `finish`; before that an answer is
    /// still an allocator of the map large enough for `key`.
    pub fn find_smallest(&self, key: u32) -> (r: Option<SlabAllocator>)
        requires
            self.wf(),
        ensures
            r matches Some(a) ==> self@.contains(a) && a.size >= key,
            strictly_sorted(self@) ==> match r {
                None => forall|i: int| 0 <= i < self@.len() ==> self@[i].size < key,
                Some(a) => forall|i: int| 0 <= i < self@.len() && self@[i].size >= key ==> a.size
                    <= self@[i].size,
            },
    {
        let n = self.vals.len();
        let mut lo: usize = 0;
        let mut hi: usize = n;
        while lo < hi
            invariant
                lo <= hi <= n == self@.len(),
                hi < n ==> self@[hi as int].size >= key,
                strictly_sorted(self@) ==> forall|i: int| 0 <= i < lo ==> self@[i].size < key,
                strictly_sorted(self@) ==> forall|i: int| hi <= i < n ==> self@[i].size >= key,
            decreases hi - lo,
        {
            let mid = lo + (hi - lo) / 2;
            if self.vals[mid].size < key {
                lo = mid + 1;
            } else {
                hi = mid;
            }
        }
        if lo == n {
            None
        } else {
            let a = self.vals[lo];
            assert(self@[lo as int] == a);
            Some(a)
        }
    }

    /// The number of allocators held.
    pub fn len(&self) -> (r: usize)
        ensures
            r == self@.len(),
    {
        self.vals.len()
    }
}

} // verus!
