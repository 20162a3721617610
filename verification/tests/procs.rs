use reenix::procs::args::ProcArgs;
use reenix::procs::context::RunQueue;
use reenix::procs::interrupt::{
    describe, entry_flags, has_error_code, temporary_ipl, IPLWatchdog, InterruptState, SPURIOUS, SYSCALL,
};
use reenix::procs::kmutex::KMutex;
use reenix::procs::kproc::memmove;
use reenix::procs::kqueue::{should_wait, sleep_state, wakeup_one, KQueue};
use reenix::procs::kthread::{kyield, CancelAction, ExitAction, KStack, KThread, State, DEFAULT_STACK_PAGES};
use reenix::procs::sched::die;
use reenix::procs::pcell::{clone_pref, ProcRefCell, WRITING};

#[test]
fn pcell_shared_and_mutable_borrows() {
    let mut c = ProcRefCell::new(5u32);
    assert!(c.is_unused());
    let r1 = c.try_borrow().unwrap();
    let r2 = c.borrow();
    assert_eq!(*c.get(&r1), 5);
    assert!(c.try_borrow_mut().is_none());
    assert!(c.try_silent_borrow().is_some());
    assert!(c.try_silent_borrow_mut().is_none());
    let r3 = clone_pref(&mut c, &r2);
    c.release(r1);
    c.release(r2);
    c.release(r3);
    assert!(c.is_unused());
    let w = c.borrow_mut();
    *c.get_mut(&w) = 7;
    assert!(c.try_borrow().is_none());
    assert!(c.try_silent_borrow().is_none());
    c.release_mut(w);
    c.ensure_no_borrow();
    assert_eq!(c.unwrap(), 7);
    assert_eq!(WRITING, usize::MAX);
}

#[test]
fn kmutex_reentrant() {
    let mut m = KMutex::new("test");
    assert_eq!(m.name(), "test");
    assert!(m.acquire(1));
    assert!(m.acquire(1));
    assert!(!m.acquire(2));
    assert!(m.try_lock(1)); // the holder locks again
    assert!(!m.try_lock(2));
    assert!(!m.unlock(1));
    assert!(!m.unlock(1));
    assert!(m.unlock(1));
    assert!(m.try_lock(2));
    assert!(!m.acquire(1));
    assert_eq!(m.unlock_all(2), 1);
    assert!(m.acquire(3));
    assert!(m.acquire(3));
    assert_eq!(m.unlock_all(3), 2);
    assert!(m.acquire(3));
    assert!(m.relock_all(3, 2));
    assert!(!m.unlock(3));
    assert!(m.unlock(3));
}

#[test]
fn kqueue_waiters() {
    let mut q = KQueue::new();
    q.add(4);
    q.add(9);
    q.add(2);
    assert_eq!(q.len(), 3);
    assert!(q.contains(9));
    q.remove(9);
    assert!(!q.contains(9));
    assert_eq!(q.signal(), vec![4, 2]);
    assert_eq!(q.len(), 0);
    assert!(should_wait(false, true));
    assert!(!should_wait(true, true));
    assert!(should_wait(true, false));
    assert_eq!(sleep_state(true), State::SLEEPCANCELLABLE);
    assert_eq!(sleep_state(false), State::SLEEP);
    let mut t = KThread::new(KStack(1, 0x1000));
    t.state = State::SLEEP;
    t.queue = Some(7);
    assert!(wakeup_one(&mut t));
    assert_eq!((t.state, t.queue), (State::RUN, None));
    assert!(!wakeup_one(&mut t));
}

#[test]
fn run_queue_fifo() {
    let mut r = RunQueue::new();
    assert_eq!(r.try_pop(), None);
    r.push(1);
    r.push(2);
    r.push(3);
    assert_eq!(r.len(), 3);
    assert_eq!(r.try_pop(), Some(1));
    r.push(4);
    assert_eq!(r.try_pop(), Some(2));
    assert_eq!(r.try_pop(), Some(3));
    assert_eq!(r.try_pop(), Some(4));
    assert_eq!(r.try_pop(), None);
}

#[test]
fn kstack_and_threads() {
    assert_eq!(KStack::new(None), Err(()));
    let s = KStack::new(Some(0x10000)).unwrap();
    assert_eq!(s.num_pages(), DEFAULT_STACK_PAGES);
    assert_eq!(s.ptr(), 0x10000);
    assert!(s.must_free());
    let small = KStack::with_size(4, Some(0x40000)).unwrap();
    assert_eq!(s.copy_len(&small), 4);
    assert_eq!(s.copy(Some(0x80000)), Ok(KStack(16, 0x80000)));
    assert!(!KStack(0, 0).must_free());

    let mut t = KThread::new(s);
    assert_eq!(t.state, State::NOSTATE);
    assert!(t.is_current_thread(&KStack(16, 0x10000)));
    assert!(t.make_runable());
    assert!(!t.make_runable());
    t.state = State::SLEEPCANCELLABLE;
    t.queue = Some(3);
    assert_eq!(t.cancel(42), CancelAction::Wake);
    assert_eq!((t.state, t.queue, t.retval, t.cancelled), (State::RUN, None, 42, true));
    t.state = State::EXITED;
    assert_eq!(t.cancel(7), CancelAction::Nothing);
    assert_eq!(t.retval, 42);
    t.state = State::SLEEP;
    t.queue = Some(1);
    assert_eq!(t.cancel(8), CancelAction::Nothing);
    assert_eq!((t.state, t.queue, t.retval), (State::SLEEP, Some(1), 8));
}

#[test]
fn thread_exit() {
    let me = KStack(16, 0x10000);
    let mut t = KThread::new(me);
    t.state = State::RUN;
    assert_eq!(t.exit(5, &me), ExitAction::Die);
    assert_eq!((t.state, t.retval, t.cancelled), (State::EXITED, 5, false));

    let mut other = KThread::new(KStack(16, 0x20000));
    other.state = State::SLEEPCANCELLABLE;
    other.queue = Some(9);
    assert_eq!(other.exit(6, &me), ExitAction::Cancelled(CancelAction::Wake));
    assert_eq!((other.state, other.queue, other.retval, other.cancelled), (State::RUN, None, 6, true));
}

#[test]
fn interrupt_table() {
    let d = describe(0x1234_5678, 0x08, 0x8e);
    assert_eq!((d.baselo, d.basehi, d.selector, d.attr, d.zero), (0x5678, 0x1234, 0x08, 0x8e, 0));
    assert!(has_error_code(8) && has_error_code(13) && has_error_code(17));
    assert!(!has_error_code(9) && !has_error_code(0x2e));
    assert_eq!(entry_flags(SYSCALL), 0xef);
    assert_eq!(entry_flags(0), 0x8e);

    let mut idt: InterruptState<u32> = InterruptState::new();
    assert_eq!(idt.dispatch(0xe0), (None, false));
    assert_eq!(idt.register(0xe0, 11), None);
    assert_eq!(idt.register(0xe0, 12), Some(11));
    assert_eq!(idt.map(1, 0xe0), None);
    assert_eq!(idt.map(2, 0xe0), Some(1));
    assert_eq!(idt.dispatch(0xe0), (Some(12), true));
    assert_eq!(idt.dispatch(0xef), (None, false));
    idt.set_entry(SPURIOUS, 0x100, 8, 0x8e);

    let mut level: u8 = 3;
    let mut w = temporary_ipl(&mut level, 0x10);
    assert_eq!(level, 0x10);
    w.set_ipl(&mut level, 0xff);
    assert_eq!(level, 0xff);
    w.set_ipl(&mut level, 0x20);
    w.reset_ipl(&mut level);
    assert_eq!(level, 3);
    let mut w2 = IPLWatchdog::new(5);
    let mut l: u8 = 0;
    w2.reset_ipl(&mut l);
    assert_eq!(l, 5);
}

#[test]
fn proc_args_round_trip() {
    assert!(ProcArgs::new(5u8, || true).is_err());
    let a = ProcArgs::new((1u8, 2u8), || false).ok().unwrap();
    assert_eq!(a.unwrap(), (1, 2));
}

#[test]
fn memmove_overlapping() {
    let mut m = vec![1u8, 2, 3, 4, 5, 6, 7, 8];
    memmove(&mut m, 2, 0, 5); // source before destination
    assert_eq!(m, vec![1, 2, 1, 2, 3, 4, 5, 8]);
    let mut m = vec![1u8, 2, 3, 4, 5, 6, 7, 8];
    memmove(&mut m, 0, 3, 5); // source after destination
    assert_eq!(m, vec![4, 5, 6, 7, 8, 6, 7, 8]);
    let mut m = vec![9u8, 8, 7];
    memmove(&mut m, 1, 1, 2); // same place: unchanged
    assert_eq!(m, vec![9, 8, 7]);
    memmove(&mut m, 0, 2, 0); // nothing to copy
    assert_eq!(m, vec![9, 8, 7]);
}

#[test]
fn yield_and_die_pick_next_context() {
    let mut rq = RunQueue::new();
    let mut level: u8 = 0x10;
    // Nobody else waits: the yielding context runs again.
    assert_eq!(kyield(&mut rq, 7, &mut level), (0x10, 7));
    assert_eq!(level, 0xff);
    assert_eq!(rq.len(), 0);
    rq.push(3);
    let mut level: u8 = 0;
    assert_eq!(kyield(&mut rq, 7, &mut level), (0, 3));
    assert_eq!(rq.len(), 1);
    let mut level: u8 = 0;
    assert_eq!(die(&mut rq, &mut level), Some(7));
    assert_eq!(level, 0xff);
    assert_eq!(die(&mut rq, &mut level), None);
}
