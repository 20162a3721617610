//! Thread contexts and the run queue of contexts ready to run, by id.
use vstd::prelude::*;
use std::collections::VecDeque;

verus! {

/// First initialisation stage: nothing to do.
pub fn init_stage1() {
}

/// The contexts ready to run, first come first served.
pub struct RunQueue(VecDeque<u64>);

impl RunQueue {
    /// The waiting contexts, the next to run first.
    pub closed spec fn waiting(&self) -> Seq<u64> {
        self.0@
    }

    /// An empty run queue.
    pub fn new() -> (r: RunQueue)
        ensures
            r.waiting() == Seq::<u64>::empty(),
    {
        RunQueue(VecDeque::new())
    }

    /// Queue context `ctx` to run after those already waiting.
    pub fn push(&mut self, ctx: u64)
        ensures
            final(self).waiting() == old(self).waiting().push(ctx),
    {
        self.0.push_back(ctx);
    }

    /// The next context to run, taken off the queue; `None` where none waits,
    /// and the caller idles until an interrupt queues one.
    pub fn try_pop(&mut self) -> (r: Option<u64>)
        ensures
            old(self).waiting().len() == 0 ==> r is None && final(self).waiting() == old(self).waiting(),
            old(self).waiting().len() > 0 ==> r == Some(old(self).waiting()[0]) && final(self).waiting()
                == old(self).waiting().drop_first(),
    {
        self.0.pop_front()
    }

    /// The number of waiting contexts.
    pub fn len(&self) -> (r: usize)
        ensures
            r == self.waiting().len(),
    {
        self.0.len()
    }
}

/// The run queue is first come first served: a context queued behind the
/// waiting ones runs after all of them.
pub proof fn lemma_run_queue_fifo(waiting: Seq<u64>, ctx: u64)
    ensures
        waiting.len() > 0 ==> waiting.push(ctx)[0] == waiting[0],
        waiting.len() > 0 ==> waiting.push(ctx).drop_first() == waiting.drop_first().push(ctx),
        waiting.len() == 0 ==> waiting.push(ctx)[0] == ctx,
{
    if waiting.len() > 0 {
        assert(waiting.push(ctx).drop_first() =~= waiting.drop_first().push(ctx));
    }
}

} // verus!
