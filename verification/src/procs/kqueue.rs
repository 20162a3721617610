//! Queues of waiting threads, by thread id. Putting a thread to sleep and
//! waking it are left to the scheduler; the queue says who waits.
use vstd::prelude::*;
use crate::procs::kthread::{KThread, State};

verus! {

/// First initialisation stage: nothing to do.
pub fn init_stage1() {
}

/// Second initialisation stage: nothing to do.
pub fn init_stage2() {
}

/// The threads waiting on something; each waits at most once.
pub struct KQueue {
    waiters: Vec<u64>,
}

impl KQueue {
    /// The waiting threads, in the order they came.
    pub closed spec fn waiters(&self) -> Seq<u64> {
        self.waiters@
    }

    /// No thread waits twice.
    pub open spec fn wf(&self) -> bool {
        self.waiters().no_duplicates()
    }

    /// An empty queue.
    pub fn new() -> (r: KQueue)
        ensures
            r.wf(),
            r.waiters() == Seq::<u64>::empty(),
    {
        KQueue { waiters: Vec::new() }
    }

    /// The number of waiting threads.
    pub fn len(&self) -> (r: usize)
        ensures
            r == self.waiters().len(),
    {
        self.waiters.len()
    }

    /// Whether `t` waits here.
    pub fn contains(&self, t: u64) -> (r: bool)
        ensures
            r == self.waiters().contains(t),
    {
        let mut i: usize = 0;
        while i < self.waiters.len()
            invariant
                i <= self.waiters@.len(),
                forall|j: int| 0 <= j < i ==> self.waiters@[j] != t,
            decreases self.waiters@.len() - i,
        {
            if self.waiters[i] == t {
                return true;
            }
            i = i + 1;
        }
        false
    }

    /// Add thread `t`, which does not wait here yet.
    pub fn add(&mut self, t: u64)
        requires
            old(self).wf(),
            !old(self).waiters().contains(t),
        ensures
            final(self).wf(),
            final(self).waiters() == old(self).waiters().push(t),
    {
        self.waiters.push(t);
    }

    /// Remove thread `t`, which waits here, without waking it.
    pub fn remove(&mut self, t: u64)
        requires
            old(self).wf(),
            old(self).waiters().contains(t),
        ensures
            final(self).wf(),
            final(self).waiters() == old(self).waiters().remove(old(self).waiters().index_of(t)),
            !final(self).waiters().contains(t),
    {
        let mut i: usize = 0;
        while i < self.waiters.len() && self.waiters[i] != t
            invariant
                i <= self.waiters@.len(),
                self.waiters@ == old(self).waiters@,
                self.waiters@.contains(t),
                forall|j: int| 0 <= j < i ==> self.waiters@[j] != t,
            decreases self.waiters@.len() - i,
        {
            i = i + 1;
        }
        proof {
            let s = old(self).waiters@;
            if i == s.len() {
                let k = choose|k: int| 0 <= k < s.len() && s[k] == t;
                assert(s[k] == t);
            }
            assert(s[i as int] == t);
            assert(s.index_of(t) == i) by {
                s.index_of_first_ensures(t);
            }
        }
        self.waiters.remove(i);
        proof {
            let s = old(self).waiters@;
            assert forall|a: int, b: int|
                0 <= a < b < self.waiters@.len() implies self.waiters@[a] != self.waiters@[b] by {
                let a0 = if a < i { a } else { a + 1 };
                let b0 = if b < i { b } else { b + 1 };
                assert(self.waiters@[a] == s[a0]);
                assert(self.waiters@[b] == s[b0]);
            }
            if self.waiters@.contains(t) {
                let k = choose|k: int| 0 <= k < self.waiters@.len() && self.waiters@[k] == t;
                let k0 = if k < i { k } else { k + 1 };
                assert(s[k0] == t);
            }
        }
    }

    /// Wake every waiting thread: the queue is emptied and the threads to
    /// make runnable come back, in the order they came.
    pub fn signal(&mut self) -> (r: Vec<u64>)
        requires
            old(self).wf(),
        ensures
            final(self).wf(),
            r@ == old(self).waiters(),
            final(self).waiters() == Seq::<u64>::empty(),
    {
        let mut woken: Vec<u64> = Vec::new();
        std::mem::swap(&mut woken, &mut self.waiters);
        woken
    }
}

/// Wake one thread that a signal took off its queue: it sleeps on no queue
/// any more and runs. Returns whether its context must be put on the run
/// queue (not where it already ran).
pub fn wakeup_one(t: &mut KThread) -> (r: bool)
    requires
        old(t).state == State::RUN || old(t).state == State::SLEEP || old(t).state
            == State::SLEEPCANCELLABLE || old(t).state == State::NOSTATE,
    ensures
        *final(t) == (KThread { queue: None, state: State::RUN, ..*old(t) }),
        r == (old(t).state != State::RUN),
{
    t.queue = None;
    t.make_runable()
}

/// Whether a thread about to wait goes to sleep: not where the wait may be
/// cancelled and the thread already is.
pub fn should_wait(cancelable: bool, cancelled: bool) -> (r: bool)
    ensures
        r == !(cancelable && cancelled),
{
    !(cancelable && cancelled)
}

/// The state of a thread sleeping on a queue.
pub fn sleep_state(cancelable: bool) -> (r: State)
    ensures
        r == (if cancelable { State::SLEEPCANCELLABLE } else { State::SLEEP }),
{
    if cancelable {
        State::SLEEPCANCELLABLE
    } else {
        State::SLEEP
    }
}

/// A thread added to a queue is among those a signal wakes, and after the
/// signal nobody waits.
pub proof fn lemma_add_signal(waiters: Seq<u64>, t: u64)
    requires
        waiters.no_duplicates(),
        !waiters.contains(t),
    ensures
        waiters.push(t).contains(t),
        waiters.push(t).no_duplicates(),
        waiters.push(t).len() == waiters.len() + 1,
{
    assert(waiters.push(t)[waiters.len() as int] == t);
    assert forall|a: int, b: int|
        0 <= a < b < waiters.push(t).len() implies waiters.push(t)[a] != waiters.push(t)[b] by {
        if b == waiters.len() {
            assert(waiters[a] != t);
        }
    }
}

} // verus!
