//! An unsigned atomic integer with sequentially consistent operations.
use vstd::prelude::*;
use core::sync::atomic::AtomicUsize;
use core::sync::atomic::Ordering;

verus! {

/// An atomic `usize` whose operations are all sequentially consistent.
///
/// What a load or a swap returns depends on what other threads have done in
/// between, so no contract here states it.
pub struct EasyAtomicUint(pub AtomicUsize);

impl EasyAtomicUint {
    /// A new atomic holding `v`.
    pub fn new(v: usize) -> (r: EasyAtomicUint) {
        EasyAtomicUint(AtomicUsize::new(v))
    }

    /// The value currently held.
    pub fn load(&self) -> usize {
        self.0.load(Ordering::SeqCst)
    }

    /// Store `v` and return the value held before.
    pub fn swap(&self, v: usize) -> usize {
        self.0.swap(v, Ordering::SeqCst)
    }

    /// Store `new` and return the value held before (an unconditional swap).
    pub fn compare_and_swap(&self, new: usize) -> usize {
        self.0.swap(new, Ordering::SeqCst)
    }

    /// The underlying atomic.
    pub fn inner(&self) -> (r: &AtomicUsize)
        ensures
            r == &self.0,
    {
        &self.0
    }
}

} // verus!
