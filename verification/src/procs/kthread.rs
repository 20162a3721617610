//! Thread modes and states.
use vstd::prelude::*;
use crate::base::errno::Errno;
use crate::procs::context::RunQueue;
use crate::procs::interrupt::HIGH;

verus! {

/// The thread-specific-data slot of the current thread.
pub const CUR_THREAD_SLOT: usize = 0;

/// Pages of kernel stack a thread gets.
pub const DEFAULT_STACK_PAGES: usize = 16;

/// Second initialisation stage: nothing to do.
pub fn init_stage2() {
}

/// Whether a thread runs in user or kernel mode.
#[derive(Clone, Copy, Debug, PartialEq, Eq, Structural)]
pub enum Mode {
    USER,
    KERNEL,
}

/// The scheduling state of a thread.
#[derive(Clone, Copy, Debug, PartialEq, Eq, Structural)]
pub enum State {
    NOSTATE,
    RUN,
    SLEEP,
    SLEEPCANCELLABLE,
    EXITED,
}

/// A kernel stack: its size in pages and where it starts.
#[derive(Clone, Copy, Debug, PartialEq, Eq, Structural)]
pub struct KStack(pub usize, pub usize);

impl KStack {
    /// A stack of `pages` pages, from the start address that the page
    /// allocator gave back for them, or an error where it gave none.
    pub fn with_size(pages: usize, allocated: Option<usize>) -> (r: Result<KStack, ()>)
        ensures
            allocated is None ==> r is Err,
            allocated matches Some(a) ==> r == Ok::<KStack, ()>(KStack(pages, a)),
    {
        match allocated {
            Some(a) => Ok(KStack(pages, a)),
            None => Err(()),
        }
    }

    /// A stack of the default size, from what the page allocator gave back.
    pub fn new(allocated: Option<usize>) -> (r: Result<KStack, ()>)
        ensures
            allocated is None ==> r is Err,
            allocated matches Some(a) ==> r == Ok::<KStack, ()>(KStack(DEFAULT_STACK_PAGES, a)),
    {
        KStack::with_size(DEFAULT_STACK_PAGES, allocated)
    }

    /// A stack as large as this one, for a copy of it, from what the page
    /// allocator gave back.
    pub fn copy(&self, allocated: Option<usize>) -> (r: Result<KStack, ()>)
        ensures
            allocated is None ==> r is Err,
            allocated matches Some(a) ==> r == Ok::<KStack, ()>(KStack(self.0, a)),
    {
        KStack::with_size(self.0, allocated)
    }

    /// How much of `other` a copy into this stack takes: the smaller of the
    /// two sizes, counted in bytes.
    pub fn copy_len(&self, other: &KStack) -> (r: usize)
        ensures
            r == (if self.0 <= other.0 { self.0 } else { other.0 }),
    {
        if self.0 <= other.0 {
            self.0
        } else {
            other.0
        }
    }

    /// The size in pages.
    pub fn num_pages(&self) -> (r: usize)
        ensures
            r == self.0,
    {
        self.0
    }

    /// The start address.
    pub fn ptr(&self) -> (r: usize)
        ensures
            r == self.1,
    {
        self.1
    }

    /// Whether dropping the stack gives pages back: only a non-empty one does.
    pub fn must_free(&self) -> (r: bool)
        ensures
            r == (self.0 != 0),
    {
        self.0 != 0
    }
}

/// What the scheduler must do once a thread was cancelled.
#[derive(Clone, Copy, Debug, PartialEq, Eq, Structural)]
pub enum CancelAction {
    /// Nothing: the thread has exited, or it will see the flag itself.
    Nothing,
    /// Take the thread off the queue it sleeps on, if any, and make it runnable.
    Wake,
}

/// The scheduling part of a kernel thread: its stack, return value, error,
/// cancellation flag, state, mode and the queue it sleeps on, by id.
pub struct KThread {
    pub kstack: KStack,
    pub retval: usize,
    pub errno: Option<Errno>,
    pub cancelled: bool,
    pub state: State,
    pub mode: Mode,
    pub queue: Option<u64>,
}

impl KThread {
    /// A new kernel thread on `kstack`, in no state yet.
    pub fn new(kstack: KStack) -> (r: KThread)
        ensures
            r.kstack == kstack,
            r.retval == 0,
            r.errno is None,
            !r.cancelled,
            r.state == State::NOSTATE,
            r.mode == Mode::KERNEL,
            r.queue is None,
    {
        KThread {
            kstack,
            retval: 0,
            errno: None,
            cancelled: false,
            state: State::NOSTATE,
            mode: Mode::KERNEL,
            queue: None,
        }
    }

    /// Whether this is the thread whose stack is `current`.
    pub fn is_current_thread(&self, current: &KStack) -> (r: bool)
        ensures
            r == (self.kstack == *current),
    {
        self.kstack.0 == current.0 && self.kstack.1 == current.1
    }

    /// Make a thread that sleeps on no queue runnable. Returns whether its
    /// context must be put on the run queue: not where it already runs.
    pub fn make_runable(&mut self) -> (r: bool)
        requires
            old(self).queue is None,
            old(self).state == State::RUN || old(self).state == State::SLEEP || old(self).state
                == State::SLEEPCANCELLABLE || old(self).state == State::NOSTATE,
        ensures
            *final(self) == (KThread { state: State::RUN, ..*old(self) }),
            r == (old(self).state != State::RUN),
    {
        if self.state == State::RUN {
            return false;
        }
        self.state = State::RUN;
        true
    }

    /// Mark the thread cancelled with return value `v`. An exited thread only
    /// gets the flag; a thread in a cancellable sleep leaves its queue and is
    /// to be made runnable.
    pub fn cancel(&mut self, v: usize) -> (r: CancelAction)
        requires
            old(self).state != State::NOSTATE,
        ensures
            (*final(self), r) == cancelled_spec(*old(self), v),
    {
        self.cancelled = true;
        if self.state == State::EXITED {
            return CancelAction::Nothing;
        }
        self.retval = v;
        if self.state == State::SLEEPCANCELLABLE {
            self.queue = None;
            self.make_runable();
            CancelAction::Wake
        } else {
            CancelAction::Nothing
        }
    }

    /// End the thread with return value `v`. The thread running now (the one
    /// whose stack is `current`) exits and must die; any other is cancelled.
    pub fn exit(&mut self, v: usize, current: &KStack) -> (r: ExitAction)
        requires
            old(self).state != State::NOSTATE,
            old(self).kstack == *current ==> old(self).state == State::RUN,
        ensures
            old(self).kstack == *current ==> r == ExitAction::Die && *final(self) == (KThread {
                retval: v,
                state: State::EXITED,
                ..*old(self)
            }),
            old(self).kstack != *current ==> r == ExitAction::Cancelled(cancelled_spec(*old(self), v).1)
                && *final(self) == cancelled_spec(*old(self), v).0,
    {
        if self.is_current_thread(current) {
            self.retval = v;
            self.state = State::EXITED;
            ExitAction::Die
        } else {
            ExitAction::Cancelled(self.cancel(v))
        }
    }
}

/// A thread after being cancelled with return value `v`, and what the
/// scheduler must do: an exited thread only gets the flag; any other also
/// gets the return value, and one in a cancellable sleep leaves its queue and
/// runs.
pub open spec fn cancelled_spec(t: KThread, v: usize) -> (KThread, CancelAction) {
    if t.state == State::EXITED {
        (KThread { cancelled: true, ..t }, CancelAction::Nothing)
    } else if t.state == State::SLEEPCANCELLABLE {
        (KThread { cancelled: true, retval: v, state: State::RUN, queue: None, ..t }, CancelAction::Wake)
    } else {
        (KThread { cancelled: true, retval: v, ..t }, CancelAction::Nothing)
    }
}

/// What ending a thread asks of the caller.
#[derive(Clone, Copy, Debug, PartialEq, Eq, Structural)]
pub enum ExitAction {
    /// The running thread has exited: tell its process and switch away for good.
    Die,
    /// Another thread was cancelled; the scheduler does what this says.
    Cancelled(CancelAction),
}

/// The running thread, whose context is `cur`, gives up the processor: with
/// the interrupt level `level` raised to `HIGH`, its context is queued behind
/// the waiting ones and the first in the queue is taken to run next (the
/// yielding one itself where none other waits). Returns the level to restore
/// once `cur` runs again, and the context to switch to.
pub fn kyield(rq: &mut RunQueue, cur: u64, level: &mut u8) -> (r: (u8, u64))
    ensures
        r.0 == *old(level),
        *final(level) == HIGH,
        r.1 == old(rq).waiting().push(cur)[0],
        final(rq).waiting() == old(rq).waiting().push(cur).drop_first(),
{
    let saved = *level;
    *level = HIGH;
    rq.push(cur);
    match rq.try_pop() {
        Some(next) => (saved, next),
        None => {
            proof {
                assert(false);
            }
            (saved, cur)
        },
    }
}

} // verus!
