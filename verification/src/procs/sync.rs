//! The interfaces of things threads wait on and wake each other through.
use vstd::prelude::*;

verus! {

/// Something a signal can be sent on; usually paired with `Wait`.
pub trait Wakeup {
    fn signal(&self);
}

/// A wakeup that can wake exactly one thread.
pub trait WakeupOne: Wakeup {
    /// Returns true if a thread was woken.
    fn signal_one(&self) -> bool;
}

/// Something a thread can wait on. A wait succeeds or fails (for instance
/// when the thread is cancelled) and the caller deals with both.
pub trait Wait<R, E> {
    fn wait(&self) -> Result<R, E>;
}

} // verus!
