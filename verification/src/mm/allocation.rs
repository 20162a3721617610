//! The kernel allocator's decisions: which requests go to whole pages and
//! which to a slab allocator, and when a reallocation can stay in place.
//!
//! Requests of at least `MAX_SLAB_SIZE` bytes get whole pages; smaller ones
//! get an object of the smallest slab allocator large enough for them.
use vstd::prelude::*;
use crate::mm::page;
use crate::mm::slabmap::{SlabAllocator, SlabMap, strictly_sorted, has_size, NUM_ALLOCATORS};

verus! {

/// The overhead of a reference-counted box, added to the size of the object.
pub const RC_OVERHEAD: u32 = 12;

/// The largest request served by a slab allocator is below this: half a page.
pub const MAX_SLAB_SIZE: usize = 2048;

/// An allocation failed.
#[derive(Clone, Copy, Debug, PartialEq, Eq, Structural)]
pub struct AllocError;

/// The result of an allocation.
pub type Allocation<T> = Result<T, AllocError>;

/// Second initialisation stage: nothing to do.
pub fn init_stage2() {
}

/// Where the memory of a request comes from.
#[derive(Clone, Copy, Debug, PartialEq, Eq, Structural)]
pub enum AllocSource {
    /// This many whole pages.
    Pages(usize),
    /// An object of this slab allocator.
    Slab(SlabAllocator),
}

/// What a reallocation does with the block.
#[derive(Clone, Copy, Debug, PartialEq, Eq, Structural)]
pub enum ReallocPlan {
    /// The block stays where it is.
    InPlace,
    /// A new block is allocated and this many bytes are copied to it.
    Move { copy: usize },
}

/// The next step of an allocation.
#[derive(Clone, Copy, Debug, PartialEq, Eq, Structural)]
pub enum AllocStep {
    /// Take the memory from this source.
    Try(AllocSource),
    /// Reclaim memory from the slab allocators, then take it from this source again.
    ReclaimAndRetry(AllocSource),
    /// Take the memory from the backup allocator.
    Backup,
    /// Give up: the allocation fails.
    Fail,
}

/// `src` is where the memory for a request of `size` bytes comes from, over
/// the slab allocators `s`: whole pages for large requests, else the smallest
/// slab allocator large enough.
pub open spec fn source_for(s: Seq<SlabAllocator>, size: usize, src: AllocSource) -> bool {
    &&& size >= MAX_SLAB_SIZE ==> src == AllocSource::Pages(pages_for_spec(size as int) as usize)
    &&& size < MAX_SLAB_SIZE ==> (src matches AllocSource::Slab(a) && best_fit(s, size as int, a))
}

/// The number of pages that hold `size` bytes.
pub open spec fn pages_for_spec(size: int) -> int {
    (size + 4095) / 4096
}

/// `a` is the allocator of the smallest size at least `size` in `s`.
pub open spec fn best_fit(s: Seq<SlabAllocator>, size: int, a: SlabAllocator) -> bool {
    &&& s.contains(a)
    &&& a.size >= size
    &&& forall|i: int| 0 <= i < s.len() && s[i].size >= size ==> a.size <= s[i].size
}

/// Some allocator in `s` serves objects of at least `size` bytes.
pub open spec fn fits(s: Seq<SlabAllocator>, size: int) -> bool {
    exists|i: int| 0 <= i < s.len() && s[i].size >= size
}

/// The number of pages that hold `size` bytes.
fn pages_for(size: usize) -> (r: usize)
    requires
        0 < size <= usize::MAX - 4096,
    ensures
        r == pages_for_spec(size as int),
{
    let up = page::const_align_up(size);
    let n = page::addr_to_num(up);
    assert(n == pages_for_spec(size as int)) by {
        assert(up % 4096 == 0 && size <= up < size + 4096);
        assert(up == (up / 4096) * 4096);
    }
    n
}

/// The allocator: its slab allocators by size, and whether requests for new
/// slab allocators are closed (after which allocation may start).
pub struct Allocator {
    slabs: SlabMap,
    closed: bool,
}

impl Allocator {
    /// The slab allocators, in the map's order.
    pub closed spec fn slab_seq(&self) -> Seq<SlabAllocator> {
        self.slabs@
    }

    /// The slab map is well formed.
    pub closed spec fn slabs_wf(&self) -> bool {
        self.slabs.wf()
    }

    /// Requests for slab allocators are closed.
    pub closed spec fn is_closed(&self) -> bool {
        self.closed
    }

    /// Requests are closed and the slab map is finished: sorted by size, no
    /// two of the same size.
    pub open spec fn ready(&self) -> bool {
        self.is_closed() && self.slabs_wf() && strictly_sorted(self.slab_seq())
    }

    /// Whether requests for slab allocators are closed.
    pub fn requests_closed(&self) -> (r: bool)
        ensures
            r == self.is_closed(),
    {
        self.closed
    }

    /// Close the requests for slab allocators and finish the slab map, sorting
    /// it by size; allocation may start.
    pub fn close_requests(&mut self)
        requires
            old(self).slabs_wf(),
            !old(self).is_closed(),
            forall|i: int| 0 <= i < old(self).slab_seq().len() ==> (#[trigger] old(self).slab_seq()[i]).size > 0,
        ensures
            final(self).ready(),
            final(self).slab_seq().to_multiset() == old(self).slab_seq().to_multiset(),
    {
        self.finish();
        self.closed = true;
    }

    /// Where the memory for a request of `size` bytes comes from: whole pages
    /// for large requests, else the smallest slab allocator large enough.
    pub fn do_allocate(&self, size: usize) -> (r: AllocSource)
        requires
            self.ready(),
            size <= usize::MAX - 4096,
            size < MAX_SLAB_SIZE ==> fits(self.slab_seq(), size as int),
        ensures
            size >= MAX_SLAB_SIZE ==> r == AllocSource::Pages(pages_for_spec(size as int) as usize),
            size < MAX_SLAB_SIZE ==> (r matches AllocSource::Slab(a) && best_fit(
                self.slab_seq(),
                size as int,
                a,
            )),
    {
        if size >= MAX_SLAB_SIZE {
            return AllocSource::Pages(pages_for(size));
        }
        match self.slabs.find_smallest(size as u32) {
            None => {
                // A fitting allocator exists, so the sorted map always finds one.
                proof {
                    let i = choose|i: int| 0 <= i < self.slab_seq().len() && self.slab_seq()[i].size >= size;
                    assert(self.slab_seq()[i].size >= size);
                    assert(false);
                }
                AllocSource::Pages(0)
            },
            Some(sa) => AllocSource::Slab(sa),
        }
    }

    /// The next step of an allocation of `size` bytes once `failed` attempts
    /// came back empty: first the source `do_allocate` picks; then reclaiming
    /// memory and that source once more; then the backup allocator; then
    /// failure.
    pub fn allocate(&self, size: usize, failed: u8) -> (r: AllocStep)
        requires
            self.ready(),
            size <= usize::MAX - 4096,
            size < MAX_SLAB_SIZE ==> fits(self.slab_seq(), size as int),
        ensures
            failed == 0 ==> (r matches AllocStep::Try(src) && source_for(self.slab_seq(), size, src)),
            failed == 1 ==> (r matches AllocStep::ReclaimAndRetry(src) && source_for(
                self.slab_seq(),
                size,
                src,
            )),
            failed == 2 ==> r == AllocStep::Backup,
            failed >= 3 ==> r == AllocStep::Fail,
    {
        if failed == 0 {
            AllocStep::Try(self.do_allocate(size))
        } else if failed == 1 {
            AllocStep::ReclaimAndRetry(self.do_allocate(size))
        } else if failed == 2 {
            AllocStep::Backup
        } else {
            AllocStep::Fail
        }
    }

    /// Where the memory of a block of `size` bytes goes back to; `None` when
    /// it came from the backup allocator (`in_backup`).
    pub fn deallocate(&self, in_backup: bool, size: usize) -> (r: Option<AllocSource>)
        requires
            self.ready(),
            size <= usize::MAX - 4096,
            !in_backup && size < MAX_SLAB_SIZE ==> fits(self.slab_seq(), size as int),
        ensures
            in_backup ==> r is None,
            !in_backup ==> r == Some(self.do_allocate_spec(size)),
            !in_backup && size < MAX_SLAB_SIZE ==> (r matches Some(AllocSource::Slab(a)) && best_fit(
                self.slab_seq(),
                size as int,
                a,
            )),
    {
        if in_backup {
            None
        } else {
            Some(self.do_allocate(size))
        }
    }

    /// What `do_allocate` decides for `size`, as a value.
    pub open spec fn do_allocate_spec(&self, size: usize) -> AllocSource {
        if size >= MAX_SLAB_SIZE {
            AllocSource::Pages(pages_for_spec(size as int) as usize)
        } else {
            AllocSource::Slab(choose|a: SlabAllocator| best_fit(self.slab_seq(), size as int, a))
        }
    }

    /// Whether a block of `old_size` bytes can grow or shrink to `size` bytes
    /// where it is: same size; or both large and the same number of pages; or
    /// both small and served by the same slab allocator. A block from the
    /// backup allocator (`in_backup`) only stays when its size does not change.
    pub fn can_reallocate_inplace(&self, in_backup: bool, old_size: usize, size: usize) -> (r: bool)
        requires
            self.ready(),
            old_size <= usize::MAX - 4096,
            size <= usize::MAX - 4096,
            old_size != size && size < MAX_SLAB_SIZE && old_size < MAX_SLAB_SIZE && !in_backup
                ==> fits(self.slab_seq(), size as int) && fits(self.slab_seq(), old_size as int),
        ensures
            r == inplace_spec(self.slab_seq(), in_backup, old_size, size),
    {
        if in_backup && old_size != size {
            false
        } else if old_size == size {
            true
        } else if size >= MAX_SLAB_SIZE && old_size >= MAX_SLAB_SIZE {
            pages_for(size) == pages_for(old_size)
        } else if size >= MAX_SLAB_SIZE || old_size >= MAX_SLAB_SIZE {
            false
        } else {
            let na = self.do_allocate(size);
            let oa = self.do_allocate(old_size);
            match (na, oa) {
                (AllocSource::Slab(a), AllocSource::Slab(b)) => {
                    proof {
                        assert forall|x: SlabAllocator, y: SlabAllocator|
                            best_fit(self.slab_seq(), size as int, x) && best_fit(self.slab_seq(), old_size as int, y)
                            implies (x == y) == (a == b) by {
                            lemma_best_fit_unique(self.slab_seq(), size as int, x, a);
                            lemma_best_fit_unique(self.slab_seq(), old_size as int, y, b);
                        }
                    }
                    a == b
                },
                _ => false,
            }
        }
    }

    /// An allocator that has no slab allocator yet.
    pub fn new() -> (r: Allocator)
        ensures
            r.slabs_wf(),
            r.slab_seq() == Seq::<SlabAllocator>::empty(),
            !r.is_closed(),
    {
        Allocator { slabs: SlabMap::new(), closed: false }
    }

    /// Whether a request for a slab allocator of `size` bytes needs a new one:
    /// not where one serves exactly that size.
    pub fn needs_slab_allocator(&self, size: u32) -> (r: bool)
        requires
            self.slabs_wf(),
        ensures
            strictly_sorted(self.slab_seq()) ==> (r <==> !has_size(self.slab_seq(), size as int)),
            !r ==> has_size(self.slab_seq(), size as int),
    {
        match self.slabs.find(size) {
            None => true,
            Some(sa) => {
                proof {
                    let i = choose|i: int| 0 <= i < self.slab_seq().len() && self.slab_seq()[i] == sa;
                    assert(self.slab_seq()[i].size == size);
                }
                false
            },
        }
    }

    /// Take the slab allocator that the slab code made for a request of
    /// `new_slab.size` bytes, where none serves that size yet. Once requests
    /// are closed, a request is ignored.
    pub fn request_slab_allocator(&mut self, new_slab: SlabAllocator)
        requires
            old(self).slabs_wf(),
        ensures
            final(self).slabs_wf(),
            final(self).is_closed() == old(self).is_closed(),
            final(self).slab_seq() == if old(self).is_closed() || old(self).slab_seq().len() == NUM_ALLOCATORS || has_size(
                old(self).slab_seq(),
                new_slab.size as int,
            ) {
                old(self).slab_seq()
            } else {
                old(self).slab_seq().push(new_slab)
            },
    {
        if self.closed {
            return;
        }
        self.slabs.add(new_slab);
    }

    /// Take the `i`-th kmalloc slab allocator of the slab code, if it had one:
    /// it is kept unless its objects exceed `MAX_SLAB_SIZE + 1` bytes. Returns
    /// whether there may be a next one to look at.
    pub fn maybe_add_kmalloc_slab(&mut self, sa: Option<SlabAllocator>) -> (r: bool)
        requires
            old(self).slabs_wf(),
        ensures
            final(self).slabs_wf(),
            final(self).is_closed() == old(self).is_closed(),
            r == (sa matches Some(a) && a.size <= MAX_SLAB_SIZE + 1),
            r ==> final(self).slab_seq() == if old(self).slab_seq().len() == NUM_ALLOCATORS || has_size(
                old(self).slab_seq(),
                sa->0.size as int,
            ) {
                old(self).slab_seq()
            } else {
                old(self).slab_seq().push(sa->0)
            },
            !r ==> final(self).slab_seq() == old(self).slab_seq(),
    {
        match sa {
            None => false,
            Some(a) => {
                if a.get_size() > (MAX_SLAB_SIZE as u32) + 1 {
                    false
                } else {
                    self.slabs.add(a);
                    true
                }
            },
        }
    }

    /// Once every allocator is requested: sort the map by size.
    pub fn finish(&mut self)
        requires
            old(self).slabs_wf(),
            forall|i: int| 0 <= i < old(self).slab_seq().len() ==> (#[trigger] old(self).slab_seq()[i]).size > 0,
        ensures
            final(self).slabs_wf(),
            strictly_sorted(final(self).slab_seq()),
            final(self).is_closed() == old(self).is_closed(),
            final(self).slab_seq().to_multiset() == old(self).slab_seq().to_multiset(),
    {
        self.slabs.finish();
    }

    /// The size a block of `old_size` bytes has after asking to grow or shrink
    /// it to `size` bytes where it is: `size` where it can stay, else `old_size`.
    pub fn reallocate_inplace(&self, in_backup: bool, old_size: usize, size: usize) -> (r: usize)
        requires
            self.ready(),
            old_size <= usize::MAX - 4096,
            size <= usize::MAX - 4096,
            old_size != size && size < MAX_SLAB_SIZE && old_size < MAX_SLAB_SIZE && !in_backup
                ==> fits(self.slab_seq(), size as int) && fits(self.slab_seq(), old_size as int),
        ensures
            r == (if inplace_spec(self.slab_seq(), in_backup, old_size, size) { size } else { old_size }),
    {
        if self.can_reallocate_inplace(in_backup, old_size, size) {
            size
        } else {
            old_size
        }
    }

    /// How a block of `old_size` bytes becomes one of `size` bytes: where it
    /// can stay, it does; else a new block is allocated, the first
    /// `min(size, old_size)` bytes are copied over and the old block is freed.
    pub fn reallocate(&self, in_backup: bool, old_size: usize, size: usize) -> (r: ReallocPlan)
        requires
            self.ready(),
            old_size <= usize::MAX - 4096,
            size <= usize::MAX - 4096,
            old_size != size && size < MAX_SLAB_SIZE && old_size < MAX_SLAB_SIZE && !in_backup
                ==> fits(self.slab_seq(), size as int) && fits(self.slab_seq(), old_size as int),
        ensures
            inplace_spec(self.slab_seq(), in_backup, old_size, size) ==> r == ReallocPlan::InPlace,
            !inplace_spec(self.slab_seq(), in_backup, old_size, size) ==> r == (ReallocPlan::Move {
                copy: if size < old_size { size } else { old_size },
            }),
    {
        if self.can_reallocate_inplace(in_backup, old_size, size) {
            ReallocPlan::InPlace
        } else {
            let copy = if size < old_size { size } else { old_size };
            ReallocPlan::Move { copy }
        }
    }

    /// The usable size of a block of `size` bytes: exactly `size`.
    pub fn usable_size(&self, size: usize, _align: usize) -> (r: usize)
        ensures
            r == size,
    {
        size
    }
}

/// Whether a block of `old_size` bytes can become one of `size` bytes where it
/// is, over the allocators `s`.
pub open spec fn inplace_spec(s: Seq<SlabAllocator>, in_backup: bool, old_size: usize, size: usize) -> bool {
    if in_backup && old_size != size {
        false
    } else if old_size == size {
        true
    } else if size >= MAX_SLAB_SIZE && old_size >= MAX_SLAB_SIZE {
        pages_for_spec(size as int) == pages_for_spec(old_size as int)
    } else if size >= MAX_SLAB_SIZE || old_size >= MAX_SLAB_SIZE {
        false
    } else {
        forall|a: SlabAllocator, b: SlabAllocator|
            best_fit(s, size as int, a) && best_fit(s, old_size as int, b) ==> a == b
    }
}

/// Growing or shrinking a block in place and back gives the original size: the
/// decision is the same both ways.
pub proof fn lemma_inplace_symmetric(s: Seq<SlabAllocator>, in_backup: bool, old_size: usize, size: usize)
    ensures
        inplace_spec(s, in_backup, old_size, size) == inplace_spec(s, in_backup, size, old_size),
{
}

/// In a map sorted by size there is only one best fit.
pub proof fn lemma_best_fit_unique(s: Seq<SlabAllocator>, size: int, a: SlabAllocator, b: SlabAllocator)
    requires
        strictly_sorted(s),
        best_fit(s, size, a),
        best_fit(s, size, b),
    ensures
        a == b,
{
    let i = choose|i: int| 0 <= i < s.len() && s[i] == a;
    let j = choose|j: int| 0 <= j < s.len() && s[j] == b;
    if i < j {
        assert(s[i].size < s[j].size);
    } else if j < i {
        assert(s[j].size < s[i].size);
    }
}

} // verus!
