//! The argument a new thread is started with, boxed so that it can travel
//! through thread creation as one word.
use vstd::prelude::*;
use crate::mm::allocation::{AllocError, Allocation};

verus! {

/// A boxed thread argument.
pub struct ProcArgs<T> {
    val: Box<T>,
}

impl<T> ProcArgs<T> {
    /// The value carried.
    pub closed spec fn value(&self) -> T {
        *self.val
    }

    /// Box `v` for a new thread, unless memory runs low: `memory_low` is asked
    /// before boxing and again after it, and where either answer is yes the
    /// box is given up and the result is `AllocError`.
    pub fn new<F: Fn() -> bool>(v: T, memory_low: F) -> (r: Allocation<ProcArgs<T>>)
        requires
            memory_low.requires(()),
        ensures
            r matches Ok(a) ==> a.value() == v && call_ensures(memory_low, (), false),
            r is Err ==> r == Err::<ProcArgs<T>, AllocError>(AllocError) && call_ensures(memory_low, (), true),
    {
        if memory_low() {
            return Err(AllocError);
        }
        let a = ProcArgs { val: Box::new(v) };
        if memory_low() {
            return Err(AllocError);
        }
        Ok(a)
    }

    /// The value, out of the box.
    pub fn unwrap(self) -> (r: T)
        ensures
            r == self.value(),
    {
        *self.val
    }
}

} // verus!
