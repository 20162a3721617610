//! The scheduler.
use vstd::prelude::*;
use crate::procs::context::RunQueue;
use crate::procs::interrupt::HIGH;

verus! {

/// First initialisation stage: nothing to do.
pub fn init_stage1() {
}

/// A thread that has exited switches away for good: with the interrupt level
/// `level` raised to `HIGH`, the first waiting context is taken to run next.
/// `None` where none waits; the caller then idles until an interrupt queues
/// one and asks again.
pub fn die(rq: &mut RunQueue, level: &mut u8) -> (r: Option<u64>)
    ensures
        *final(level) == HIGH,
        old(rq).waiting().len() == 0 ==> r is None && final(rq).waiting() == old(rq).waiting(),
        old(rq).waiting().len() > 0 ==> r == Some(old(rq).waiting()[0]) && final(rq).waiting()
            == old(rq).waiting().drop_first(),
{
    *level = HIGH;
    rq.try_pop()
}

} // verus!
