//! A cell that hands out its value to whoever holds it.
use vstd::prelude::*;

verus! {

/// A cell whose holder may read or write its value.
pub struct SafeCell<T> {
    inner: T,
}

/// A shared borrow of the value in a `SafeCell`.
pub type SafeRef<'a, T> = &'a T;

/// A mutable borrow of the value in a `SafeCell`.
pub type SafeMutRef<'a, T> = &'a mut T;

impl<T> SafeCell<T> {
    /// The value held.
    pub closed spec fn value(&self) -> T {
        self.inner
    }

    /// A cell holding `value`.
    pub fn new(value: T) -> (r: SafeCell<T>)
        ensures
            r.value() == value,
    {
        SafeCell { inner: value }
    }

    /// A shared borrow of the value.
    pub fn get_ref(&self) -> (r: SafeRef<'_, T>)
        ensures
            *r == self.value(),
    {
        &self.inner
    }

    /// A mutable borrow of the value: what is written through it is what the
    /// cell holds afterwards.
    pub fn get_mut(&mut self) -> (r: SafeMutRef<'_, T>)
        ensures
            *r == old(self).value(),
            final(self).value() == *final(r),
    {
        &mut self.inner
    }
}

} // verus!
