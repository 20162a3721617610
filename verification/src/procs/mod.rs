//! Processes and threads: their ids and states, interrupt registers, and the
//! waiting interfaces of the kernel's synchronisation primitives.
pub mod apic;
pub mod args;
pub mod context;
pub mod interrupt;
pub mod kmutex;
pub mod kproc;
pub mod kqueue;
pub mod kthread;
pub mod pcell;
pub mod sched;
pub mod sync;
