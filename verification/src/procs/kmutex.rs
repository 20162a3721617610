//! Re-entrant kernel mutexes: who holds the lock and how many times. Waiting
//! for a contested lock is left to the caller, which sleeps on the mutex's
//! queue and tries again.
use vstd::prelude::*;

verus! {

/// Second initialisation stage: nothing to do.
pub fn init_stage2() {
}

/// A re-entrant mutex: the thread holding it, by id, and how many times it
/// has locked it.
pub struct KMutex {
    name: &'static str,
    holder: Option<u64>,
    held: usize,
}

impl KMutex {
    /// The thread holding the lock.
    pub closed spec fn holder(&self) -> Option<u64> {
        self.holder
    }

    /// How many times the holder has locked it.
    pub closed spec fn held(&self) -> nat {
        self.held as nat
    }

    /// The name it was made with.
    pub closed spec fn label(&self) -> &'static str {
        self.name
    }

    /// The lock is free exactly when nobody has locked it.
    pub open spec fn wf(&self) -> bool {
        self.holder() is None <==> self.held() == 0
    }

    /// A free mutex.
    pub fn new(name: &'static str) -> (r: KMutex)
        ensures
            r.wf(),
            r.holder() is None,
            r.held() == 0,
            r.label() == name,
    {
        KMutex { name, holder: None, held: 0 }
    }

    /// The mutex's name.
    pub fn name(&self) -> (r: &'static str)
        ensures
            r == self.label(),
    {
        self.name
    }

    /// One attempt of `thr` to lock: it gets the lock where it already holds it
    /// or nobody does, and otherwise must wait and try again. Returns whether
    /// the lock was taken.
    pub fn acquire(&mut self, thr: u64) -> (r: bool)
        requires
            old(self).wf(),
            old(self).held() < usize::MAX,
        ensures
            final(self).wf(),
            (r, final(self).holder(), final(self).held()) == acquire_spec(
                old(self).holder(),
                old(self).held(),
                thr,
            ),
    {
        match self.holder {
            Some(h) => {
                if h == thr {
                    self.held = self.held + 1;
                    true
                } else {
                    false
                }
            },
            None => {
                self.holder = Some(thr);
                self.held = 1;
                true
            },
        }
    }

    /// Lock for `thr` without waiting: it gets the lock where it already holds
    /// it (one more hold) or nobody does; otherwise nothing changes. Returns
    /// whether the lock was taken.
    pub fn try_lock(&mut self, thr: u64) -> (r: bool)
        requires
            old(self).wf(),
            old(self).held() < usize::MAX,
        ensures
            final(self).wf(),
            (r, final(self).holder(), final(self).held()) == acquire_spec(
                old(self).holder(),
                old(self).held(),
                thr,
            ),
    {
        match self.holder {
            Some(h) => {
                if h == thr {
                    self.held = self.held + 1;
                    true
                } else {
                    false
                }
            },
            None => {
                self.holder = Some(thr);
                self.held = 1;
                true
            },
        }
    }

    /// `thr` unlocks once. Returns whether the mutex became free, in which
    /// case the threads waiting for it are to be woken.
    pub fn unlock(&mut self, thr: u64) -> (r: bool)
        requires
            old(self).wf(),
            old(self).holder() == Some(thr),
        ensures
            final(self).wf(),
            (final(self).holder(), final(self).held()) == unlock_spec(
                old(self).holder(),
                old(self).held(),
            ),
            r == (final(self).held() == 0),
    {
        self.held = self.held - 1;
        if self.held == 0 {
            self.holder = None;
            true
        } else {
            false
        }
    }

    /// `thr` gives up the lock however many times it holds it, before it
    /// sleeps. Returns that count, for `relock_all`.
    pub fn unlock_all(&mut self, thr: u64) -> (r: usize)
        requires
            old(self).wf(),
            old(self).holder() == Some(thr),
        ensures
            final(self).wf(),
            r == old(self).held(),
            final(self).holder() is None,
            final(self).held() == 0,
    {
        let held = self.held;
        self.held = 0;
        self.holder = None;
        held
    }

    /// Once `thr` holds the lock again, once, it takes back the count that
    /// `unlock_all` gave.
    pub fn relock_all(&mut self, thr: u64, t: usize) -> (r: bool)
        requires
            old(self).wf(),
            old(self).holder() == Some(thr),
            old(self).held() == 1,
            t > 0,
        ensures
            final(self).wf(),
            r,
            final(self).holder() == Some(thr),
            final(self).held() == t,
    {
        self.held = t;
        true
    }
}

/// The lock after one attempt of `thr`: whether it took the lock, the holder
/// and the count.
pub open spec fn acquire_spec(holder: Option<u64>, held: nat, thr: u64) -> (bool, Option<u64>, nat) {
    if holder is None || holder == Some(thr) {
        (true, Some(thr), held + 1)
    } else {
        (false, holder, held)
    }
}

/// The lock after its holder unlocks once.
pub open spec fn unlock_spec(holder: Option<u64>, held: nat) -> (Option<u64>, nat) {
    if held - 1 == 0 {
        (None, 0)
    } else {
        (holder, (held - 1) as nat)
    }
}

/// A lock that `thr` takes is given back as it was by one unlock.
pub proof fn lemma_acquire_unlock(holder: Option<u64>, held: nat, thr: u64)
    requires
        holder is None <==> held == 0,
        acquire_spec(holder, held, thr).0,
    ensures
        unlock_spec(acquire_spec(holder, held, thr).1, acquire_spec(holder, held, thr).2) == (
        holder,
        held,
        ),
{
}

/// While one thread holds the mutex, no attempt of another thread takes it,
/// and the attempt changes nothing.
pub proof fn lemma_mutual_exclusion(holder: Option<u64>, held: nat, thr: u64)
    requires
        holder is Some,
        holder != Some(thr),
    ensures
        acquire_spec(holder, held, thr) == (false, holder, held),
{
}

/// Once every lock is given up, the thread's next attempt takes the free
/// mutex once, the state in which `relock_all` restores the count.
pub proof fn lemma_unlock_all_relock(held: nat, thr: u64)
    requires
        held > 0,
    ensures
        acquire_spec(None, 0, thr) == (true, Some(thr), 1nat),
{
}

} // verus!
